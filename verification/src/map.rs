use vstd::prelude::*;
use crate::text::{same_text, text_less, text_lt, lemma_text_lt_irreflexive, lemma_text_lt_total, lemma_text_lt_transitive};

verus! {

/// Whether no key occurs twice among the `pairs`.
pub open spec fn pairs_keys_distinct<V>(pairs: Seq<(Seq<char>, V)>) -> bool {
    forall|i: int, j: int| 0 <= i < j < pairs.len() ==> #[trigger] pairs[i].0 != #[trigger] pairs[j].0
}

/// Whether `k` is the key of one of the `pairs`.
pub open spec fn pairs_have_key<V>(pairs: Seq<(Seq<char>, V)>, k: Seq<char>) -> bool {
    exists|i: int| 0 <= i < pairs.len() && #[trigger] pairs[i].0 == k
}

/// A position of key `k` among the `pairs`.
pub open spec fn pairs_index_of<V>(pairs: Seq<(Seq<char>, V)>, k: Seq<char>) -> int {
    choose|i: int| 0 <= i < pairs.len() && #[trigger] pairs[i].0 == k
}

/// The `pairs` after storing `v` under `k`: the pair of an existing key `k`
/// keeps its position and takes the new value; a new key goes last.
pub open spec fn pairs_insert<V>(pairs: Seq<(Seq<char>, V)>, k: Seq<char>, v: V) -> Seq<(Seq<char>, V)> {
    if pairs_have_key(pairs, k) {
        Seq::new(pairs.len(), |i: int| if pairs[i].0 == k { (k, v) } else { pairs[i] })
    } else {
        pairs.push((k, v))
    }
}

/// The pairs with each text value given by its characters.
pub open spec fn text_pairs(pairs: Seq<(Seq<char>, String)>) -> Seq<(Seq<char>, Seq<char>)> {
    pairs.map_values(|p: (Seq<char>, String)| (p.0, p.1@))
}

/// Storing a text value and then viewing the pairs is viewing them and then
/// storing the value's characters.
pub proof fn lemma_text_pairs_insert(pairs: Seq<(Seq<char>, String)>, k: Seq<char>, v: String)
    ensures
        text_pairs(pairs_insert(pairs, k, v)) == pairs_insert(text_pairs(pairs), k, v@),
{
    let tp = text_pairs(pairs);
    assert forall|i: int| 0 <= i < pairs.len() implies #[trigger] tp[i].0 == pairs[i].0 by {}
    if pairs_have_key(pairs, k) {
        let i = choose|i: int| 0 <= i < pairs.len() && #[trigger] pairs[i].0 == k;
        assert(tp[i].0 == k);
        assert(pairs_have_key(tp, k));
        assert(text_pairs(pairs_insert(pairs, k, v)) =~= pairs_insert(tp, k, v@));
    } else {
        assert forall|i: int| 0 <= i < tp.len() implies #[trigger] tp[i].0 != k by {
            assert(pairs[i].0 != k);
        }
        assert(!pairs_have_key(tp, k));
        assert(text_pairs(pairs_insert(pairs, k, v)) =~= pairs_insert(tp, k, v@));
    }
}

/// Reading after writing: once `v` is stored under `k`, `k` is present with
/// value `v` and keys stay distinct, while every other key keeps its presence
/// and its value.
pub proof fn lemma_pairs_insert_get<V>(p: Seq<(Seq<char>, V)>, k: Seq<char>, v: V, other: Seq<char>)
    requires
        pairs_keys_distinct(p),
    ensures
        pairs_have_key(pairs_insert(p, k, v), k),
        pairs_insert(p, k, v)[pairs_index_of(pairs_insert(p, k, v), k)].1 == v,
        pairs_keys_distinct(pairs_insert(p, k, v)),
        other != k ==> pairs_have_key(pairs_insert(p, k, v), other) == pairs_have_key(p, other),
        other != k && pairs_have_key(p, other) ==> pairs_insert(p, k, v)[pairs_index_of(
            pairs_insert(p, k, v),
            other,
        )].1 == p[pairs_index_of(p, other)].1,
{
    let q = pairs_insert(p, k, v);
    if pairs_have_key(p, k) {
        let i = choose|i: int| 0 <= i < p.len() && #[trigger] p[i].0 == k;
        assert(q[i].0 == k);
        assert forall|a: int| 0 <= a < q.len() implies #[trigger] q[a].0 == p[a].0 by {}
    } else {
        assert(q[p.len() as int].0 == k);
        assert forall|a: int| 0 <= a < p.len() implies #[trigger] q[a] == p[a] by {}
        assert forall|a: int| 0 <= a < p.len() implies #[trigger] p[a].0 != k by {}
    }
    assert(pairs_have_key(q, k));
    let j = pairs_index_of(q, k);
    assert(q[j].0 == k);
    assert(pairs_keys_distinct(q)) by {
        assert forall|a: int, b: int| 0 <= a < b < q.len() implies #[trigger] q[a].0 != #[trigger] q[b].0 by {
            if pairs_have_key(p, k) {
                assert(q[a].0 == p[a].0 && q[b].0 == p[b].0);
            } else if b < p.len() {
                assert(q[a] == p[a] && q[b] == p[b]);
            } else {
                assert(q[a] == p[a]);
            }
        }
    }
    if other != k {
        if pairs_have_key(p, other) {
            let i = choose|i: int| 0 <= i < p.len() && #[trigger] p[i].0 == other;
            assert(q[i] == p[i]);
            assert(pairs_have_key(q, other));
            let a = pairs_index_of(q, other);
            let b = pairs_index_of(p, other);
            assert(q[a].0 == other);
            if a < p.len() {
                assert(q[a] == p[a]);
            }
            assert(p[b].0 == other);
        }
        if pairs_have_key(q, other) {
            let i = choose|i: int| 0 <= i < q.len() && #[trigger] q[i].0 == other;
            if i < p.len() {
                assert(q[i] == p[i]);
            }
            assert(pairs_have_key(p, other));
        }
    }
}

/// A map from text keys to values that remembers the order in which keys
/// were first inserted. No key occurs twice.
#[derive(Debug, PartialEq, Eq)]
pub struct TextMap<V> {
    entries: Vec<(String, V)>,
}

impl<V> TextMap<V> {
    /// The entries as (key, value) pairs, in insertion order.
    pub closed spec fn pairs(&self) -> Seq<(Seq<char>, V)> {
        self.entries@.map_values(|e: (String, V)| (e.0@, e.1))
    }

    #[verifier::type_invariant]
    closed spec fn keys_distinct(&self) -> bool {
        forall|i: int, j: int|
            0 <= i < j < self.entries@.len() ==> self.entries@[i].0@ != self.entries@[j].0@
    }

    /// Whether `k` is one of the keys.
    pub open spec fn has_key(&self, k: Seq<char>) -> bool {
        pairs_have_key(self.pairs(), k)
    }

    /// The position of key `k` among the entries.
    pub open spec fn index_of(&self, k: Seq<char>) -> int {
        pairs_index_of(self.pairs(), k)
    }

    /// The map with no entries.
    pub fn new() -> (r: Self)
        ensures
            r.pairs() == Seq::<(Seq<char>, V)>::empty(),
            pairs_keys_distinct(r.pairs()),
    {
        let r = TextMap { entries: Vec::new() };
        assert(r.pairs() =~= Seq::<(Seq<char>, V)>::empty());
        r
    }

    /// The number of entries; no key occurs twice.
    pub fn len(&self) -> (n: usize)
        ensures
            n == self.pairs().len(),
            pairs_keys_distinct(self.pairs()),
    {
        proof {
            use_type_invariant(self);
        }
        self.entries.len()
    }

    /// The position of `key`, if it is present.
    pub fn position(&self, key: &str) -> (r: Option<usize>)
        ensures
            match r {
                Some(i) => i < self.pairs().len() && self.pairs()[i as int].0 == key@,
                None => !self.has_key(key@),
            },
    {
        let mut i: usize = 0;
        while i < self.entries.len()
            invariant
                i <= self.entries@.len(),
                forall|j: int| 0 <= j < i ==> self.pairs()[j].0 != key@,
            decreases self.entries@.len() - i,
        {
            if same_text(self.entries[i].0.as_str(), key) {
                return Some(i);
            }
            i = i + 1;
        }
        None
    }

    /// Whether `key` is present.
    pub fn contains_key(&self, key: &str) -> (b: bool)
        ensures
            b == self.has_key(key@),
    {
        self.position(key).is_some()
    }

    /// The value stored under `key`, if any.
    pub fn get(&self, key: &str) -> (r: Option<&V>)
        ensures
            match r {
                Some(v) => self.has_key(key@) && *v == self.pairs()[self.index_of(key@)].1,
                None => !self.has_key(key@),
            },
    {
        proof {
            use_type_invariant(self);
        }
        match self.position(key) {
            Some(i) => Some(&self.entries[i].1),
            None => None,
        }
    }

    /// The key and value at position `i`.
    pub fn entry(&self, i: usize) -> (r: (&String, &V))
        requires
            i < self.pairs().len(),
        ensures
            r.0@ == self.pairs()[i as int].0,
            *r.1 == self.pairs()[i as int].1,
    {
        (&self.entries[i].0, &self.entries[i].1)
    }

    /// Stores `value` under `key`. An existing entry for `key` keeps its
    /// position and has its value replaced; a new key goes last.
    pub fn insert(&mut self, key: String, value: V)
        ensures
            final(self).pairs() == pairs_insert(old(self).pairs(), key@, value),
            pairs_keys_distinct(final(self).pairs()),
    {
        proof {
            use_type_invariant(&*self);
        }
        let ghost k = key@;
        let pos = self.position(key.as_str());
        let mut entries: Vec<(String, V)> = Vec::new();
        std::mem::swap(&mut entries, &mut self.entries);
        assert(entries@ == old(self).entries@);
        match pos {
            Some(i) => {
                assert(old(self).pairs()[i as int].0 == old(self).entries@[i as int].0@);
                entries.set(i, (key, value));
                assert(entries@[i as int].0@ == k);
                assert(forall|a: int, b: int|
                    0 <= a < b < entries@.len() ==> entries@[a].0@ != entries@[b].0@) by {
                    assert(forall|a: int| 0 <= a < entries@.len() ==> entries@[a].0@ == old(self).entries@[a].0@);
                }
            },
            None => {
                assert forall|a: int| 0 <= a < old(self).entries@.len() implies #[trigger] old(self).entries@[a].0@ != k by {
                    assert(old(self).entries@[a].0@ == old(self).pairs()[a].0);
                }
                entries.push((key, value));
                assert(entries@[old(self).entries@.len() as int].0@ == k);
            },
        }
        self.entries = entries;
        proof {
            use_type_invariant(&*self);
            if old(self).has_key(k) {
                assert(self.pairs() =~= pairs_insert(old(self).pairs(), k, value));
            } else {
                assert(self.pairs() =~= old(self).pairs().push((k, value)));
            }
        }
    }
}

impl TextMap<String> {
    /// A copy of the map.
    pub fn duplicate(&self) -> (r: TextMap<String>)
        ensures
            r.pairs() == self.pairs(),
    {
        proof {
            use_type_invariant(self);
        }
        let mut entries: Vec<(String, String)> = Vec::new();
        let mut i: usize = 0;
        while i < self.entries.len()
            invariant
                i <= self.entries@.len(),
                entries@.len() == i,
                forall|j: int| 0 <= j < i ==> #[trigger] entries@[j] == self.entries@[j],
            decreases self.entries@.len() - i,
        {
            entries.push((self.entries[i].0.clone(), self.entries[i].1.clone()));
            i = i + 1;
        }
        assert(entries@ =~= self.entries@);
        TextMap { entries }
    }
}

/// Whether the keys of `p` strictly increase.
pub open spec fn keys_increasing(p: Seq<(Seq<char>, Seq<char>)>) -> bool {
    forall|i: int, j: int| 0 <= i < j < p.len() ==> text_lt(#[trigger] p[i].0, #[trigger] p[j].0)
}

/// The pairs, ordered by key, after storing `v` under `k`: an existing pair
/// for `k` takes the new value, otherwise the pair goes before the first greater key.
pub open spec fn sorted_insert(p: Seq<(Seq<char>, Seq<char>)>, k: Seq<char>, v: Seq<char>) -> Seq<
    (Seq<char>, Seq<char>),
>
    decreases p.len(),
{
    if p.len() == 0 {
        seq![(k, v)]
    } else if p[0].0 == k {
        seq![(k, v)] + p.drop_first()
    } else if text_lt(k, p[0].0) {
        seq![(k, v)] + p
    } else {
        seq![p[0]] + sorted_insert(p.drop_first(), k, v)
    }
}

/// Inserting into ordered pairs, where position `i` is the first whose key
/// does not come before `k`, replaces the pair at `i` if its key is `k` and
/// otherwise puts the new pair at `i`.
pub proof fn lemma_sorted_insert_at(p: Seq<(Seq<char>, Seq<char>)>, k: Seq<char>, v: Seq<char>, i: int)
    requires
        keys_increasing(p),
        0 <= i <= p.len(),
        forall|j: int| 0 <= j < i ==> text_lt(#[trigger] p[j].0, k),
        i < p.len() ==> !text_lt(p[i].0, k),
    ensures
        sorted_insert(p, k, v) == (if i < p.len() && p[i].0 == k {
            p.subrange(0, i) + seq![(k, v)] + p.subrange(i + 1, p.len() as int)
        } else {
            p.subrange(0, i) + seq![(k, v)] + p.subrange(i, p.len() as int)
        }),
    decreases i,
{
    if i == 0 {
        if p.len() == 0 {
            assert(p.subrange(0, 0) + seq![(k, v)] + p.subrange(0, 0) =~= seq![(k, v)]);
        } else if p[0].0 == k {
            assert(p.subrange(0, 0) + seq![(k, v)] + p.subrange(1, p.len() as int) =~= seq![(k, v)]
                + p.drop_first());
        } else {
            lemma_text_lt_total(p[0].0, k);
            assert(p.subrange(0, 0) + seq![(k, v)] + p.subrange(0, p.len() as int) =~= seq![(k, v)] + p);
        }
    } else {
        let q = p.drop_first();
        assert(text_lt(p[0].0, k));
        lemma_text_lt_irreflexive(k);
        lemma_text_lt_total(p[0].0, k);
        assert forall|a: int, b: int| 0 <= a < b < q.len() implies text_lt(#[trigger] q[a].0, #[trigger] q[b].0) by {
            assert(q[a] == p[a + 1] && q[b] == p[b + 1]);
        }
        assert forall|j: int| 0 <= j < i - 1 implies text_lt(#[trigger] q[j].0, k) by {
            assert(q[j] == p[j + 1]);
        }
        lemma_sorted_insert_at(q, k, v, i - 1);
        if i < p.len() && p[i].0 == k {
            assert(seq![p[0]] + (q.subrange(0, i - 1) + seq![(k, v)] + q.subrange(i, q.len() as int))
                =~= p.subrange(0, i) + seq![(k, v)] + p.subrange(i + 1, p.len() as int));
        } else {
            assert(seq![p[0]] + (q.subrange(0, i - 1) + seq![(k, v)] + q.subrange(i - 1, q.len() as int))
                =~= p.subrange(0, i) + seq![(k, v)] + p.subrange(i, p.len() as int));
        }
    }
}

/// Inserting a key greater than every key appends the pair.
pub proof fn lemma_sorted_insert_greatest(p: Seq<(Seq<char>, Seq<char>)>, k: Seq<char>, v: Seq<char>)
    requires
        keys_increasing(p),
        forall|j: int| 0 <= j < p.len() ==> text_lt(#[trigger] p[j].0, k),
    ensures
        sorted_insert(p, k, v) == p.push((k, v)),
{
    lemma_sorted_insert_at(p, k, v, p.len() as int);
    assert(p.subrange(0, p.len() as int) + seq![(k, v)] + p.subrange(p.len() as int, p.len() as int)
        =~= p.push((k, v)));
}

/// Reading after writing in ordered pairs: once `v` is stored under `k`,
/// the pair `(k, v)` is present, the keys still increase, and every pair with
/// another key is present exactly when it was before.
pub proof fn lemma_sorted_insert_get(
    p: Seq<(Seq<char>, Seq<char>)>,
    k: Seq<char>,
    v: Seq<char>,
    other: (Seq<char>, Seq<char>),
)
    requires
        keys_increasing(p),
    ensures
        sorted_insert(p, k, v).contains((k, v)),
        keys_increasing(sorted_insert(p, k, v)),
        other.0 != k ==> (sorted_insert(p, k, v).contains(other) <==> p.contains(other)),
{
    let n = p.len() as int;
    let i = lemma_first_position(p, k);
    lemma_sorted_insert_at(p, k, v, i);
    let q = sorted_insert(p, k, v);
    let replace = i < n && p[i].0 == k;
    assert(q[i] == (k, v));
    if replace {
        assert(q.len() == n);
        assert(forall|a: int| 0 <= a < n && a != i ==> #[trigger] q[a] == p[a]);
    } else {
        assert(q.len() == n + 1);
        assert(forall|a: int| 0 <= a < i ==> #[trigger] q[a] == p[a]);
        assert(forall|a: int| i < a <= n ==> #[trigger] q[a] == p[a - 1]);
    }
    if i < n && !replace {
        lemma_text_lt_total(p[i].0, k);
    }
    assert forall|a: int, b: int| 0 <= a < b < q.len() implies text_lt(#[trigger] q[a].0, #[trigger] q[b].0) by {
        if a < i && b > i {
            if replace {
                lemma_text_lt_transitive(p[a].0, k, p[b].0);
            } else if b - 1 > i {
                lemma_text_lt_transitive(k, p[i].0, p[b - 1].0);
                lemma_text_lt_transitive(p[a].0, k, p[b - 1].0);
            } else {
                lemma_text_lt_transitive(p[a].0, k, p[b - 1].0);
            }
        } else if a == i && b > i {
            if !replace && b - 1 > i {
                lemma_text_lt_transitive(k, p[i].0, p[b - 1].0);
            }
        }
    }
    if other.0 != k {
        if q.contains(other) {
            let a = choose|a: int| 0 <= a < q.len() && q[a] == other;
            if a < i {
                assert(p[a] == other);
            } else if replace {
                assert(p[a] == other);
            } else {
                assert(a > i);
                assert(p[a - 1] == other);
            }
        }
        if p.contains(other) {
            let a = choose|a: int| 0 <= a < p.len() && p[a] == other;
            if a < i {
                assert(q[a] == other);
            } else if replace {
                assert(a != i);
                assert(q[a] == other);
            } else {
                assert(q[a + 1] == other);
            }
        }
    }
}

/// The first position of the pairs whose key does not come before `k`.
proof fn lemma_first_position(p: Seq<(Seq<char>, Seq<char>)>, k: Seq<char>) -> (i: int)
    ensures
        0 <= i <= p.len(),
        forall|j: int| 0 <= j < i ==> text_lt(#[trigger] p[j].0, k),
        i < p.len() ==> !text_lt(p[i].0, k),
    decreases p.len(),
{
    if p.len() > 0 {
        if !text_lt(p[0].0, k) {
            0
        } else {
            let q = p.drop_first();
            let i = lemma_first_position(q, k);
            assert forall|j: int| 0 <= j < i + 1 implies text_lt(#[trigger] p[j].0, k) by {
                if j > 0 {
                    assert(p[j] == q[j - 1]);
                }
            }
            assert(i + 1 < p.len() ==> p[i + 1] == q[i]);
            i + 1
        }
    } else {
        0
    }
}

/// A map from text keys to text values kept in increasing key order, like a
/// `BTreeMap<String, String>`.
#[derive(Debug, PartialEq, Eq)]
pub struct SortedTextMap {
    entries: Vec<(String, String)>,
}

impl SortedTextMap {
    /// The entries as (key, value) pairs, in increasing key order.
    pub closed spec fn pairs(&self) -> Seq<(Seq<char>, Seq<char>)> {
        self.entries@.map_values(|e: (String, String)| (e.0@, e.1@))
    }

    #[verifier::type_invariant]
    closed spec fn ordered(&self) -> bool {
        keys_increasing(self.pairs())
    }

    /// The map with no entries.
    pub fn new() -> (r: SortedTextMap)
        ensures
            r.pairs() == Seq::<(Seq<char>, Seq<char>)>::empty(),
            keys_increasing(r.pairs()),
    {
        let r = SortedTextMap { entries: Vec::new() };
        assert(r.pairs() =~= Seq::<(Seq<char>, Seq<char>)>::empty());
        r
    }

    /// The number of entries. The keys of the map strictly increase.
    pub fn len(&self) -> (n: usize)
        ensures
            n == self.pairs().len(),
            keys_increasing(self.pairs()),
    {
        proof {
            use_type_invariant(self);
        }
        self.entries.len()
    }

    /// The key and value at position `i`. The keys of the map strictly increase.
    pub fn entry(&self, i: usize) -> (r: (&String, &String))
        requires
            i < self.pairs().len(),
        ensures
            r.0@ == self.pairs()[i as int].0,
            r.1@ == self.pairs()[i as int].1,
            keys_increasing(self.pairs()),
    {
        proof {
            use_type_invariant(self);
        }
        (&self.entries[i].0, &self.entries[i].1)
    }

    /// The value stored under `key`, if any.
    pub fn get(&self, key: &str) -> (r: Option<&String>)
        ensures
            match r {
                Some(v) => exists|i: int| 0 <= i < self.pairs().len() && #[trigger] self.pairs()[i] == (key@, v@),
                None => !pairs_have_key(self.pairs(), key@),
            },
    {
        let mut i: usize = 0;
        while i < self.entries.len()
            invariant
                i <= self.entries@.len(),
                forall|j: int| 0 <= j < i ==> self.pairs()[j].0 != key@,
            decreases self.entries@.len() - i,
        {
            if same_text(self.entries[i].0.as_str(), key) {
                assert(self.pairs()[i as int] == (key@, self.entries@[i as int].1@));
                return Some(&self.entries[i].1);
            }
            i = i + 1;
        }
        None
    }

    /// Stores `value` under `key`, keeping the keys in increasing order.
    pub fn insert(&mut self, key: String, value: String)
        ensures
            final(self).pairs() == sorted_insert(old(self).pairs(), key@, value@),
            keys_increasing(final(self).pairs()),
    {
        proof {
            use_type_invariant(&*self);
        }
        let ghost p = self.pairs();
        let ghost k = key@;
        let ghost v = value@;
        let mut i: usize = 0;
        while i < self.entries.len() && text_less(self.entries[i].0.as_str(), key.as_str())
            invariant
                i <= self.entries@.len(),
                p == self.pairs(),
                k == key@,
                forall|j: int| 0 <= j < i ==> text_lt(#[trigger] p[j].0, k),
            decreases self.entries@.len() - i,
        {
            i = i + 1;
        }
        let n = self.entries.len();
        let replace = i < n && same_text(self.entries[i].0.as_str(), key.as_str());
        proof {
            lemma_sorted_insert_at(p, k, v, i as int);
        }
        let mut entries: Vec<(String, String)> = Vec::new();
        std::mem::swap(&mut entries, &mut self.entries);
        if replace {
            entries.set(i, (key, value));
        } else {
            entries.insert(i, (key, value));
        }
        let ghost q = entries@.map_values(|e: (String, String)| (e.0@, e.1@));
        proof {
            if replace {
                assert(q =~= p.subrange(0, i as int) + seq![(k, v)] + p.subrange(i + 1, p.len() as int));
            } else {
                assert(q =~= p.subrange(0, i as int) + seq![(k, v)] + p.subrange(i as int, p.len() as int));
            }
            assert forall|a: int, b: int| 0 <= a < b < q.len() implies text_lt(#[trigger] q[a].0, #[trigger] q[b].0) by {
                if i < p.len() && !replace {
                    lemma_text_lt_total(p[i as int].0, k);
                }
                if a < i && b > i {
                    if replace {
                        lemma_text_lt_transitive(p[a].0, k, p[b].0);
                    } else if b - 1 > i {
                        lemma_text_lt_transitive(k, p[i as int].0, p[b - 1].0);
                        lemma_text_lt_transitive(p[a].0, k, p[b - 1].0);
                    } else {
                        lemma_text_lt_transitive(p[a].0, k, p[b - 1].0);
                    }
                } else if a == i && b > i {
                    if replace {
                    } else if b - 1 > i {
                        lemma_text_lt_transitive(k, p[i as int].0, p[b - 1].0);
                    }
                }
            }
        }
        self.entries = entries;
        proof {
            assert(self.pairs() == q);
        }
    }
}

impl Clone for SortedTextMap {
    fn clone(&self) -> (r: SortedTextMap)
        ensures
            r.pairs() == self.pairs(),
            keys_increasing(r.pairs()),
    {
        proof {
            use_type_invariant(self);
        }
        let mut entries: Vec<(String, String)> = Vec::new();
        let mut i: usize = 0;
        while i < self.entries.len()
            invariant
                i <= self.entries@.len(),
                entries@.len() == i,
                forall|j: int| 0 <= j < i ==> #[trigger] entries@[j] == self.entries@[j],
            decreases self.entries@.len() - i,
        {
            entries.push((self.entries[i].0.clone(), self.entries[i].1.clone()));
            i = i + 1;
        }
        assert(entries@ =~= self.entries@);
        SortedTextMap { entries }
    }
}

} // verus!
