use vstd::prelude::*;

verus! {

/// The lowercase hexadecimal digit of `d` (below 16).
pub open spec fn hex_digit(d: int) -> char {
    if d < 10 {
        (48 + d) as char
    } else {
        (87 + d) as char
    }
}

/// How a character is written inside a JSON string by serde_json: `"` and
/// `\` behind a backslash, the control characters with a short escape where
/// JSON has one and as `\u00XX` otherwise, every other character as itself.
pub open spec fn json_escaped_char(c: char) -> Seq<char> {
    if c == '"' {
        seq!['\\', '"']
    } else if c == '\\' {
        seq!['\\', '\\']
    } else if c == '\u{8}' {
        seq!['\\', 'b']
    } else if c == '\t' {
        seq!['\\', 't']
    } else if c == '\n' {
        seq!['\\', 'n']
    } else if c == '\u{c}' {
        seq!['\\', 'f']
    } else if c == '\r' {
        seq!['\\', 'r']
    } else if (c as u32) < 32 {
        seq!['\\', 'u', '0', '0', hex_digit((c as int) / 16), hex_digit((c as int) % 16)]
    } else {
        seq![c]
    }
}

/// The characters of `s`, each escaped as inside a JSON string.
pub open spec fn json_escaped(s: Seq<char>) -> Seq<char>
    decreases s.len(),
{
    if s.len() == 0 {
        Seq::empty()
    } else {
        json_escaped(s.drop_last()) + json_escaped_char(s.last())
    }
}

/// The JSON string of the text `s`: its escaped characters between quotes.
pub open spec fn json_string(s: Seq<char>) -> Seq<char> {
    seq!['"'] + json_escaped(s) + seq!['"']
}

/// The texts one after the other, separated by commas.
pub open spec fn comma_joined(items: Seq<Seq<char>>) -> Seq<char>
    decreases items.len(),
{
    if items.len() == 0 {
        Seq::empty()
    } else if items.len() == 1 {
        items[0]
    } else {
        comma_joined(items.drop_last()) + seq![','] + items.last()
    }
}

/// The JSON array of the texts `items` (JSON values already written).
pub open spec fn json_array(items: Seq<Seq<char>>) -> Seq<char> {
    seq!['['] + comma_joined(items) + seq![']']
}

/// The JSON strings of the texts.
pub open spec fn json_strings(items: Seq<Seq<char>>) -> Seq<Seq<char>> {
    items.map_values(|s: Seq<char>| json_string(s))
}

/// `serde_json::to_string` on a text: the JSON string of the text, its
/// characters escaped as `json_escaped_char` says (the escape table and
/// `write_char_escape` of serde_json's compact formatter). serde_json writes
/// into a `Vec<u8>`, which never fails, and a text only fails to encode on a
/// write error, so the call always succeeds.
#[verifier::external_body]
pub(crate) fn json_quote(s: &str) -> (r: String)
    ensures
        r@ == json_string(s@),
{
    serde_json::to_string(s).expect("a text always encodes as a JSON string")
}

/// Appends the next item of a comma-separated list: a comma first, unless
/// it is the first item.
pub(crate) fn push_item(out: &mut String, item: &str, first: bool, Ghost(items): Ghost<Seq<Seq<char>>>, Ghost(prefix): Ghost<Seq<char>>)
    requires
        first <==> items.len() == 0,
        old(out)@ == prefix + comma_joined(items),
    ensures
        final(out)@ == prefix + comma_joined(items.push(item@)),
{
    let ghost before = out@;
    if !first {
        out.append(",");
        proof {
            reveal_strlit(",");
            assert(","@ =~= seq![',']);
        }
    }
    out.append(item);
    proof {
        let pushed = items.push(item@);
        assert(pushed.drop_last() =~= items);
        if first {
            assert(comma_joined(pushed) == item@);
            assert(out@ =~= prefix + comma_joined(pushed));
        } else {
            assert(out@ =~= prefix + comma_joined(pushed));
        }
    }
}

/// The JSON array of the JSON strings of `texts`.
pub(crate) fn push_string_array(out: &mut String, texts: &Vec<String>)
    ensures
        final(out)@ == old(out)@ + json_array(json_strings(texts@.map_values(|s: String| s@))),
{
    let ghost start = out@;
    let ghost views = texts@.map_values(|s: String| s@);
    proof {
        reveal_strlit("[");
        reveal_strlit("]");
        assert("["@ =~= seq!['[']);
        assert("]"@ =~= seq![']']);
    }
    out.append("[");
    let mut i: usize = 0;
    assert(json_strings(views).subrange(0, 0) =~= Seq::<Seq<char>>::empty());
    while i < texts.len()
        invariant
            i <= texts@.len(),
            views == texts@.map_values(|s: String| s@),
            out@ == start + seq!['['] + comma_joined(json_strings(views).subrange(0, i as int)),
        decreases texts@.len() - i,
    {
        let quoted = json_quote(texts[i].as_str());
        push_item(out, quoted.as_str(), i == 0, Ghost(json_strings(views).subrange(0, i as int)), Ghost(start + seq!['[']));
        assert(json_strings(views).subrange(0, i as int).push(quoted@) =~= json_strings(views).subrange(0, i + 1));
        i = i + 1;
    }
    out.append("]");
    proof {
        assert(json_strings(views).subrange(0, texts@.len() as int) =~= json_strings(views));
        assert(out@ =~= start + json_array(json_strings(views)));
    }
}

} // verus!
