use vstd::prelude::*;
use crate::pb::{Platform, PlatformView};
use crate::text::find_char;

verus! {

/// Builds a platform with the given `os`, `architecture` and `variant`, the rest empty.
fn make_platform(os: &str, architecture: &str, variant: &str) -> (r: Platform)
    ensures
        r@ == PlatformView::of(os@, architecture@, variant@),
{
    let r = Platform {
        architecture: architecture.to_owned(),
        os: os.to_owned(),
        variant: variant.to_owned(),
        os_version: String::new(),
        os_features: Vec::new(),
    };
    assert(r@.os_features =~= Seq::<Seq<char>>::empty());
    r
}

/// The empty literal holds no character.
proof fn lemma_empty_literal()
    ensures
        ""@ == Seq::<char>::empty(),
{
    reveal_strlit("");
    assert(""@ =~= Seq::<char>::empty());
}

/// `linux/amd64`.
pub fn linux_amd64() -> (r: Platform)
    ensures
        r@ == PlatformView::of("linux"@, "amd64"@, Seq::empty()),
{
    proof {
        lemma_empty_literal();
    }
    make_platform("linux", "amd64", "")
}

/// `linux/arm64`.
pub fn linux_arm64() -> (r: Platform)
    ensures
        r@ == PlatformView::of("linux"@, "arm64"@, Seq::empty()),
{
    proof {
        lemma_empty_literal();
    }
    make_platform("linux", "arm64", "")
}

/// `linux/arm/v7`.
pub fn linux_arm_v7() -> (r: Platform)
    ensures
        r@ == PlatformView::of("linux"@, "arm"@, "v7"@),
{
    make_platform("linux", "arm", "v7")
}

/// `linux/arm/v6`.
pub fn linux_arm_v6() -> (r: Platform)
    ensures
        r@ == PlatformView::of("linux"@, "arm"@, "v6"@),
{
    make_platform("linux", "arm", "v6")
}

/// `linux/386`.
pub fn linux_386() -> (r: Platform)
    ensures
        r@ == PlatformView::of("linux"@, "386"@, Seq::empty()),
{
    proof {
        lemma_empty_literal();
    }
    make_platform("linux", "386", "")
}

/// `linux/ppc64le`.
pub fn linux_ppc64le() -> (r: Platform)
    ensures
        r@ == PlatformView::of("linux"@, "ppc64le"@, Seq::empty()),
{
    proof {
        lemma_empty_literal();
    }
    make_platform("linux", "ppc64le", "")
}

/// `linux/s390x`.
pub fn linux_s390x() -> (r: Platform)
    ensures
        r@ == PlatformView::of("linux"@, "s390x"@, Seq::empty()),
{
    proof {
        lemma_empty_literal();
    }
    make_platform("linux", "s390x", "")
}

/// `linux/riscv64`.
pub fn linux_riscv64() -> (r: Platform)
    ensures
        r@ == PlatformView::of("linux"@, "riscv64"@, Seq::empty()),
{
    proof {
        lemma_empty_literal();
    }
    make_platform("linux", "riscv64", "")
}

/// `windows/amd64`.
pub fn windows_amd64() -> (r: Platform)
    ensures
        r@ == PlatformView::of("windows"@, "amd64"@, Seq::empty()),
{
    proof {
        lemma_empty_literal();
    }
    make_platform("windows", "amd64", "")
}

/// `darwin/amd64`.
pub fn darwin_amd64() -> (r: Platform)
    ensures
        r@ == PlatformView::of("darwin"@, "amd64"@, Seq::empty()),
{
    proof {
        lemma_empty_literal();
    }
    make_platform("darwin", "amd64", "")
}

/// `darwin/arm64`.
pub fn darwin_arm64() -> (r: Platform)
    ensures
        r@ == PlatformView::of("darwin"@, "arm64"@, Seq::empty()),
{
    proof {
        lemma_empty_literal();
    }
    make_platform("darwin", "arm64", "")
}

/// The canonical identifier `<os>/<architecture>`, followed by `/<variant>`
/// when the variant is not empty.
pub open spec fn platform_id_view(p: PlatformView) -> Seq<char> {
    if p.variant.len() == 0 {
        p.os + seq!['/'] + p.architecture
    } else {
        p.os + seq!['/'] + p.architecture + seq!['/'] + p.variant
    }
}

/// Canonical platform identifier, used as a key in BuildKit's `RefMap` and
/// as the suffix of the `containerimage.config/<id>` metadata key. Examples:
/// `linux/amd64`, `linux/arm/v7`.
pub fn platform_id(platform: &Platform) -> (r: String)
    ensures
        r@ == platform_id_view(platform@),
{
    proof {
        reveal_strlit("/");
    }
    let mut id = platform.os.clone();
    id.append("/");
    id.append(platform.architecture.as_str());
    if !platform.variant.as_str().is_empty() {
        id.append("/");
        id.append(platform.variant.as_str());
    }
    id
}

/// The text before the first `/` of `s` and the text after it, if `s` holds a `/`.
pub open spec fn split_first_slash(s: Seq<char>) -> Option<(Seq<char>, Seq<char>)> {
    match s.index_of_first('/') {
        Some(i) => Some((s.subrange(0, i), s.subrange(i + 1, s.len() as int))),
        None => None,
    }
}

/// The platform named by `s`, split at its first two slashes into operating
/// system, architecture and variant; a missing architecture is `amd64`, a
/// missing variant is empty.
pub open spec fn parse_platform_view(s: Seq<char>) -> PlatformView {
    match split_first_slash(s) {
        None => PlatformView::of(s, "amd64"@, Seq::empty()),
        Some((os, rest)) => match split_first_slash(rest) {
            None => PlatformView::of(os, rest, Seq::empty()),
            Some((architecture, variant)) => PlatformView::of(os, architecture, variant),
        },
    }
}

/// Whether `s` holds no `/`.
pub open spec fn slash_free(s: Seq<char>) -> bool {
    forall|i: int| 0 <= i < s.len() ==> s[i] != '/'
}

/// `s` split at position `i`, where `i` is its first `/`.
proof fn lemma_split_at_first_slash(s: Seq<char>, i: int)
    requires
        0 <= i < s.len(),
        s[i] == '/',
        forall|j: int| 0 <= j < i ==> s[j] != '/',
    ensures
        split_first_slash(s) == Some((s.subrange(0, i), s.subrange(i + 1, s.len() as int))),
{
    s.index_of_first_ensures('/');
    match s.index_of_first('/') {
        Some(k) => {
            if k < i {
                assert(s[k] != '/');
            }
            if i < k {
                assert(s[i] != '/');
            }
        },
        None => {
            assert(s.contains('/'));
        },
    }
}

/// A text with no `/` does not split.
proof fn lemma_no_slash(s: Seq<char>)
    requires
        slash_free(s),
    ensures
        split_first_slash(s) is None,
{
    s.index_of_first_ensures('/');
    if s.index_of_first('/') is Some {
        let k = s.index_of_first('/').unwrap();
        assert(s[k] == '/');
    }
}

impl Platform {
    /// Reads a platform from `<os>[/<architecture>[/<variant>]]`: the text
    /// is split at its first two slashes; a missing architecture is `amd64`,
    /// a missing variant is empty, the other fields are empty.
    pub fn parse(s: &str) -> (r: Platform)
        ensures
            r@ == parse_platform_view(s@),
    {
        let n = s.unicode_len();
        proof {
            reveal_strlit("amd64");
            reveal_strlit("");
            assert(""@ =~= Seq::<char>::empty());
        }
        match find_char(s, '/', 0) {
            None => {
                proof {
                    lemma_no_slash(s@);
                }
                make_platform(s, "amd64", "")
            },
            Some(i) => {
                proof {
                    lemma_split_at_first_slash(s@, i as int);
                }
                let os = s.substring_char(0, i);
                let rest = s.substring_char(i + 1, n);
                let m = rest.unicode_len();
                match find_char(rest, '/', 0) {
                    None => {
                        proof {
                            lemma_no_slash(rest@);
                        }
                        make_platform(os, rest, "")
                    },
                    Some(j) => {
                        proof {
                            lemma_split_at_first_slash(rest@, j as int);
                        }
                        let architecture = rest.substring_char(0, j);
                        let variant = rest.substring_char(j + 1, m);
                        make_platform(os, architecture, variant)
                    },
                }
            },
        }
    }

    /// The canonical identifier of the platform (see [`platform_id`]).
    pub fn to_string(&self) -> (r: String)
        ensures
            r@ == platform_id_view(self@),
    {
        platform_id(self)
    }
}

impl std::str::FromStr for Platform {
    type Err = String;

    /// Parsing never fails: the result is always the platform that
    /// [`Platform::parse`] reads from the text.
    fn from_str(s: &str) -> (r: Result<Platform, String>)
        ensures
            r matches Ok(p) && p@ == parse_platform_view(s@),
    {
        Ok(Platform::parse(s))
    }
}

/// Reading back a platform's identifier gives the platform's operating
/// system, architecture and variant, provided the operating system and the
/// architecture hold no `/` (the other fields come back empty).
pub proof fn lemma_parse_platform_id(p: PlatformView)
    requires
        slash_free(p.os),
        slash_free(p.architecture),
    ensures
        parse_platform_view(platform_id_view(p)) == PlatformView::of(p.os, p.architecture, p.variant),
{
    let id = platform_id_view(p);
    let n = p.os.len() as int;
    assert(id[n] == '/');
    assert forall|j: int| 0 <= j < n implies id[j] != '/' by {
        assert(id[j] == p.os[j]);
    }
    lemma_split_at_first_slash(id, n);
    assert(id.subrange(0, n) =~= p.os);
    let rest = id.subrange(n + 1, id.len() as int);
    let m = p.architecture.len() as int;
    if p.variant.len() == 0 {
        assert(rest =~= p.architecture);
        assert(p.variant =~= Seq::<char>::empty());
        lemma_no_slash(rest);
    } else {
        assert(rest =~= p.architecture + seq!['/'] + p.variant);
        assert(rest[m] == '/');
        assert forall|j: int| 0 <= j < m implies rest[j] != '/' by {
            assert(rest[j] == p.architecture[j]);
        }
        lemma_split_at_first_slash(rest, m);
        assert(rest.subrange(0, m) =~= p.architecture);
        assert(rest.subrange(m + 1, rest.len() as int) =~= p.variant);
    }
}

/// Writing the identifier of a parsed platform gives back the text, provided
/// the text holds a `/` and does not end in an empty variant (`linux/arm/`).
pub proof fn lemma_platform_id_of_parse(s: Seq<char>)
    requires
        split_first_slash(s) is Some,
        split_first_slash(split_first_slash(s).unwrap().1) matches Some((_, v)) ==> v.len() > 0,
    ensures
        platform_id_view(parse_platform_view(s)) == s,
{
    s.index_of_first_ensures('/');
    let i = s.index_of_first('/').unwrap();
    let (os, rest) = split_first_slash(s).unwrap();
    rest.index_of_first_ensures('/');
    match rest.index_of_first('/') {
        None => {
            assert(os + seq!['/'] + rest =~= s);
        },
        Some(j) => {
            let (a, v) = split_first_slash(rest).unwrap();
            assert(a + seq!['/'] + v =~= rest);
            assert(os + seq!['/'] + a + seq!['/'] + v =~= s);
        },
    }
}

} // verus!
