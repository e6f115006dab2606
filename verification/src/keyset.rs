use vstd::prelude::*;
use crate::copy::strings_view;
use crate::oci::ExposedPort;
use crate::unixpath::{
    PathPlace, path_place, path_lt, same_path, path_components, lemma_components_lt_irreflexive,
    lemma_components_lt_total, lemma_components_lt_transitive,
};

verus! {

/// The position of a port in the order of `ExposedPort`: TCP ports before
/// UDP ports, each by number.
pub open spec fn port_key(p: ExposedPort) -> int {
    match p {
        ExposedPort::Tcp(n) => n as int,
        ExposedPort::Udp(n) => 65536 + n,
    }
}

/// Whether the ports strictly increase (so none occurs twice).
pub open spec fn ports_increasing(s: Seq<ExposedPort>) -> bool {
    forall|i: int, j: int| 0 <= i < j < s.len() ==> port_key(#[trigger] s[i]) < port_key(#[trigger] s[j])
}

/// The increasing ports `s` with `p` added: unchanged if `p` is among them,
/// otherwise `p` goes before the first greater port.
pub open spec fn port_insert(s: Seq<ExposedPort>, p: ExposedPort) -> Seq<ExposedPort>
    decreases s.len(),
{
    if s.len() == 0 {
        seq![p]
    } else if port_key(p) < port_key(s[0]) {
        seq![p] + s
    } else if port_key(p) == port_key(s[0]) {
        s
    } else {
        seq![s[0]] + port_insert(s.drop_first(), p)
    }
}

/// The ports as the keys of an ordered map hold them: added one by one, in order.
pub open spec fn ports_collected(ps: Seq<ExposedPort>) -> Seq<ExposedPort>
    decreases ps.len(),
{
    if ps.len() == 0 {
        Seq::empty()
    } else {
        port_insert(ports_collected(ps.drop_last()), ps.last())
    }
}

/// Equal positions mean equal ports.
proof fn lemma_port_key_injective(a: ExposedPort, b: ExposedPort)
    ensures
        port_key(a) == port_key(b) ==> a == b,
{
}

/// Adding a port where position `i` is the first that does not come before it.
proof fn lemma_port_insert_at(s: Seq<ExposedPort>, p: ExposedPort, i: int)
    requires
        0 <= i <= s.len(),
        forall|j: int| 0 <= j < i ==> port_key(#[trigger] s[j]) < port_key(p),
        i < s.len() ==> port_key(p) <= port_key(s[i]),
    ensures
        port_insert(s, p) == (if i < s.len() && port_key(s[i]) == port_key(p) {
            s
        } else {
            s.insert(i, p)
        }),
    decreases i,
{
    if i == 0 {
        if s.len() > 0 && port_key(p) < port_key(s[0]) {
            assert(s.insert(0, p) =~= seq![p] + s);
        } else if s.len() == 0 {
            assert(s.insert(0, p) =~= seq![p]);
        }
    } else {
        let q = s.drop_first();
        assert(port_key(s[0]) < port_key(p));
        assert forall|j: int| 0 <= j < i - 1 implies port_key(#[trigger] q[j]) < port_key(p) by {
            assert(q[j] == s[j + 1]);
        }
        lemma_port_insert_at(q, p, i - 1);
        if i < s.len() && port_key(s[i]) == port_key(p) {
            assert(q[i - 1] == s[i]);
            assert(seq![s[0]] + q =~= s);
        } else {
            assert(seq![s[0]] + q.insert(i - 1, p) =~= s.insert(i, p));
        }
    }
}

/// The first position of the ports that does not come before `p`.
proof fn lemma_port_position(s: Seq<ExposedPort>, p: ExposedPort) -> (i: int)
    ensures
        0 <= i <= s.len(),
        forall|j: int| 0 <= j < i ==> port_key(#[trigger] s[j]) < port_key(p),
        i < s.len() ==> port_key(p) <= port_key(s[i]),
    decreases s.len(),
{
    if s.len() == 0 || port_key(p) <= port_key(s[0]) {
        0
    } else {
        let q = s.drop_first();
        let k = lemma_port_position(q, p);
        assert forall|j: int| 0 <= j < k + 1 implies port_key(#[trigger] s[j]) < port_key(p) by {
            if j > 0 {
                assert(s[j] == q[j - 1]);
            }
        }
        assert(k + 1 < s.len() ==> s[k + 1] == q[k]);
        k + 1
    }
}

/// Adding a port to increasing ports keeps them increasing and adds exactly
/// that port.
pub proof fn lemma_port_insert(s: Seq<ExposedPort>, p: ExposedPort)
    requires
        ports_increasing(s),
    ensures
        ports_increasing(port_insert(s, p)),
        forall|q: ExposedPort| #[trigger] port_insert(s, p).contains(q) <==> q == p || s.contains(q),
{
    let i = lemma_port_position(s, p);
    lemma_port_insert_at(s, p, i);
    let r = port_insert(s, p);
    if i < s.len() && port_key(s[i]) == port_key(p) {
        lemma_port_key_injective(s[i], p);
        assert(s.contains(s[i]));
    } else {
        assert(r[i] == p);
        assert forall|a: int, b: int| 0 <= a < b < r.len() implies port_key(#[trigger] r[a]) < port_key(#[trigger] r[b]) by {
            if a < i && b > i {
                assert(r[b] == s[b - 1]);
            } else if a == i {
                assert(r[b] == s[b - 1]);
            } else if a > i {
                assert(r[a] == s[a - 1] && r[b] == s[b - 1]);
            }
        }
        assert forall|q: ExposedPort| r.contains(q) <==> q == p || s.contains(q) by {
            if r.contains(q) {
                let a = choose|a: int| 0 <= a < r.len() && r[a] == q;
                if a < i {
                    assert(s[a] == q);
                } else if a > i {
                    assert(s[a - 1] == q);
                }
            }
            if s.contains(q) {
                let a = choose|a: int| 0 <= a < s.len() && s[a] == q;
                if a < i {
                    assert(r[a] == q);
                } else {
                    assert(r[a + 1] == q);
                }
            }
            if q == p {
                assert(r[i] == q);
            }
        }
    }
}

/// The collected ports strictly increase and are exactly the given ports,
/// each once.
pub proof fn lemma_ports_collected(ps: Seq<ExposedPort>)
    ensures
        ports_increasing(ports_collected(ps)),
        forall|q: ExposedPort| ports_collected(ps).contains(q) <==> ps.contains(q),
    decreases ps.len(),
{
    if ps.len() > 0 {
        let prev = ps.drop_last();
        let c = ports_collected(prev);
        lemma_ports_collected(prev);
        lemma_port_insert(c, ps.last());
        assert(ports_collected(ps) == port_insert(c, ps.last()));
        assert forall|q: ExposedPort| ps.contains(q) <==> q == ps.last() || prev.contains(q) by {
            if ps.contains(q) {
                let a = choose|a: int| 0 <= a < ps.len() && ps[a] == q;
                if a < ps.len() - 1 {
                    assert(prev[a] == q);
                }
            }
            if prev.contains(q) {
                let a = choose|a: int| 0 <= a < prev.len() && prev[a] == q;
                assert(ps[a] == q);
            }
            if q == ps.last() {
                assert(ps[ps.len() - 1] == q);
            }
        }
        assert forall|q: ExposedPort| ports_collected(ps).contains(q) <==> ps.contains(q) by {
            assert(port_insert(c, ps.last()).contains(q) <==> q == ps.last() || c.contains(q));
            assert(c.contains(q) <==> prev.contains(q));
        }
    }
}

/// Ports that already strictly increase are collected unchanged.
pub proof fn lemma_ports_collected_increasing(ps: Seq<ExposedPort>)
    requires
        ports_increasing(ps),
    ensures
        ports_collected(ps) == ps,
    decreases ps.len(),
{
    if ps.len() > 0 {
        let prev = ps.drop_last();
        assert(ports_increasing(prev));
        lemma_ports_collected_increasing(prev);
        lemma_port_insert_at(prev, ps.last(), prev.len() as int);
        assert(prev.insert(prev.len() as int, ps.last()) =~= ps);
    }
}

/// The position of a port, as a number.
fn port_position(p: ExposedPort) -> (r: u32)
    ensures
        r as int == port_key(p),
{
    match p {
        ExposedPort::Tcp(n) => n as u32,
        ExposedPort::Udp(n) => 65536 + n as u32,
    }
}

/// A set of exposed ports kept in increasing order, like the keys of a
/// `BTreeMap<ExposedPort, _>`.
#[derive(Debug, PartialEq, Eq)]
pub struct PortSet {
    ports: Vec<ExposedPort>,
}

impl PortSet {
    /// The ports, in increasing order.
    pub closed spec fn items(&self) -> Seq<ExposedPort> {
        self.ports@
    }

    #[verifier::type_invariant]
    closed spec fn increasing(&self) -> bool {
        ports_increasing(self.ports@)
    }

    /// The empty set.
    pub fn new() -> (r: PortSet)
        ensures
            r.items() == Seq::<ExposedPort>::empty(),
    {
        PortSet { ports: Vec::new() }
    }

    /// The number of ports.
    pub fn len(&self) -> (n: usize)
        ensures
            n == self.items().len(),
    {
        self.ports.len()
    }

    /// The port at position `i`.
    pub fn get(&self, i: usize) -> (r: ExposedPort)
        requires
            i < self.items().len(),
        ensures
            r == self.items()[i as int],
    {
        self.ports[i]
    }

    /// Adds `p`, keeping the order; a port already present is not added again.
    pub fn insert(&mut self, p: ExposedPort)
        ensures
            final(self).items() == port_insert(old(self).items(), p),
            ports_increasing(final(self).items()),
    {
        proof {
            use_type_invariant(&*self);
        }
        let ghost s = self.items();
        let key = port_position(p);
        let mut i: usize = 0;
        while i < self.ports.len() && port_position(self.ports[i]) < key
            invariant
                i <= self.ports@.len(),
                s == self.ports@,
                key == port_key(p),
                forall|j: int| 0 <= j < i ==> port_key(#[trigger] s[j]) < port_key(p),
            decreases self.ports@.len() - i,
        {
            i = i + 1;
        }
        let present = i < self.ports.len() && port_position(self.ports[i]) == key;
        proof {
            lemma_port_insert_at(s, p, i as int);
            lemma_port_insert(s, p);
        }
        if !present {
            let mut ports: Vec<ExposedPort> = Vec::new();
            std::mem::swap(&mut ports, &mut self.ports);
            ports.insert(i, p);
            self.ports = ports;
        }
    }

    /// The set of the ports `ps`, each once, in increasing order.
    pub fn from_list(ps: &Vec<ExposedPort>) -> (r: PortSet)
        ensures
            r.items() == ports_collected(ps@),
            ports_increasing(r.items()),
    {
        let mut set = PortSet::new();
        let mut i: usize = 0;
        assert(ps@.subrange(0, 0) =~= Seq::<ExposedPort>::empty());
        while i < ps.len()
            invariant
                i <= ps@.len(),
                set.items() == ports_collected(ps@.subrange(0, i as int)),
            decreases ps@.len() - i,
        {
            assert(ps@.subrange(0, i + 1).drop_last() =~= ps@.subrange(0, i as int));
            set.insert(ps[i]);
            i = i + 1;
        }
        assert(ps@.subrange(0, ps@.len() as int) =~= ps@);
        proof {
            lemma_ports_collected(ps@);
        }
        set
    }

    /// The ports, in increasing order.
    pub fn into_vec(self) -> (r: Vec<ExposedPort>)
        ensures
            r@ == self.items(),
            ports_increasing(r@),
    {
        proof {
            use_type_invariant(&self);
        }
        self.ports
    }
}

impl Clone for PortSet {
    fn clone(&self) -> (r: PortSet)
        ensures
            r.items() == self.items(),
    {
        proof {
            use_type_invariant(self);
        }
        let mut ports: Vec<ExposedPort> = Vec::new();
        let mut i: usize = 0;
        while i < self.ports.len()
            invariant
                i <= self.ports@.len(),
                ports@ == self.ports@.subrange(0, i as int),
            decreases self.ports@.len() - i,
        {
            ports.push(self.ports[i]);
            assert(ports@ =~= self.ports@.subrange(0, i + 1));
            i = i + 1;
        }
        assert(self.ports@.subrange(0, self.ports@.len() as int) =~= self.ports@);
        PortSet { ports }
    }
}

/// Whether the paths strictly increase in the order of Unix paths (so no
/// two name the same path).
pub open spec fn volumes_increasing(s: Seq<Seq<char>>) -> bool {
    forall|i: int, j: int| 0 <= i < j < s.len() ==> path_lt(#[trigger] s[i], #[trigger] s[j])
}

/// The increasing paths `s` with `v` added: a text naming the same path as
/// `v` is replaced by `v`, otherwise `v` goes before the first greater path.
pub open spec fn volume_insert(s: Seq<Seq<char>>, v: Seq<char>) -> Seq<Seq<char>>
    decreases s.len(),
{
    if s.len() == 0 {
        seq![v]
    } else if path_lt(v, s[0]) {
        seq![v] + s
    } else if same_path(v, s[0]) {
        seq![v] + s.drop_first()
    } else {
        seq![s[0]] + volume_insert(s.drop_first(), v)
    }
}

/// The paths as the keys of an ordered map of `PathBuf` collected from them
/// hold them: added one by one, in order, the last text of each path staying.
pub open spec fn volumes_collected(vs: Seq<Seq<char>>) -> Seq<Seq<char>>
    decreases vs.len(),
{
    if vs.len() == 0 {
        Seq::empty()
    } else {
        volume_insert(volumes_collected(vs.drop_last()), vs.last())
    }
}

/// Adding a path where position `i` is the first that does not come before it.
proof fn lemma_volume_insert_at(s: Seq<Seq<char>>, v: Seq<char>, i: int)
    requires
        0 <= i <= s.len(),
        forall|j: int| 0 <= j < i ==> path_lt(#[trigger] s[j], v),
        i < s.len() ==> !path_lt(s[i], v),
    ensures
        volume_insert(s, v) == (if i < s.len() && same_path(s[i], v) {
            s.update(i, v)
        } else {
            s.insert(i, v)
        }),
    decreases i,
{
    if i == 0 {
        if s.len() > 0 {
            lemma_components_lt_total(path_components(v), path_components(s[0]));
            if path_lt(v, s[0]) {
                assert(s.insert(0, v) =~= seq![v] + s);
                lemma_components_lt_irreflexive(path_components(v));
            } else if same_path(v, s[0]) {
                assert(s.update(0, v) =~= seq![v] + s.drop_first());
            }
        } else {
            assert(s.insert(0, v) =~= seq![v]);
        }
    } else {
        let q = s.drop_first();
        assert(path_lt(s[0], v));
        lemma_components_lt_total(path_components(v), path_components(s[0]));
        lemma_components_lt_irreflexive(path_components(v));
        assert forall|j: int| 0 <= j < i - 1 implies path_lt(#[trigger] q[j], v) by {
            assert(q[j] == s[j + 1]);
        }
        lemma_volume_insert_at(q, v, i - 1);
        if i < s.len() && same_path(s[i], v) {
            assert(q[i - 1] == s[i]);
            assert(seq![s[0]] + q.update(i - 1, v) =~= s.update(i, v));
        } else {
            assert(seq![s[0]] + q.insert(i - 1, v) =~= s.insert(i, v));
        }
    }
}

/// The first position of the paths that does not come before `v`.
proof fn lemma_volume_position(s: Seq<Seq<char>>, v: Seq<char>) -> (i: int)
    ensures
        0 <= i <= s.len(),
        forall|j: int| 0 <= j < i ==> path_lt(#[trigger] s[j], v),
        i < s.len() ==> !path_lt(s[i], v),
    decreases s.len(),
{
    if s.len() == 0 || !path_lt(s[0], v) {
        0
    } else {
        let q = s.drop_first();
        let k = lemma_volume_position(q, v);
        assert forall|j: int| 0 <= j < k + 1 implies path_lt(#[trigger] s[j], v) by {
            if j > 0 {
                assert(s[j] == q[j - 1]);
            }
        }
        assert(k + 1 < s.len() ==> s[k + 1] == q[k]);
        k + 1
    }
}

/// Adding a path to increasing paths keeps them increasing. The result
/// holds `v`; every other text in it is one of the old texts, and names
/// another path than `v`; every old text names the path of one in it.
pub proof fn lemma_volume_insert(s: Seq<Seq<char>>, v: Seq<char>)
    requires
        volumes_increasing(s),
    ensures
        volumes_increasing(volume_insert(s, v)),
        volume_insert(s, v).contains(v),
        forall|k: int| 0 <= k < volume_insert(s, v).len() && #[trigger] volume_insert(s, v)[k] != v
            ==> s.contains(volume_insert(s, v)[k]) && !same_path(volume_insert(s, v)[k], v),
        forall|w: Seq<char>| s.contains(w) ==> exists|k: int|
            0 <= k < volume_insert(s, v).len() && same_path(#[trigger] volume_insert(s, v)[k], w),
{
    let i = lemma_volume_position(s, v);
    lemma_volume_insert_at(s, v, i);
    let r = volume_insert(s, v);
    lemma_components_lt_irreflexive(path_components(v));
    if i < s.len() && same_path(s[i], v) {
        assert(r[i] == v);
        assert forall|a: int, b: int| 0 <= a < b < r.len() implies path_lt(#[trigger] r[a], #[trigger] r[b]) by {
            assert(path_lt(s[a], s[b]));
        }
        assert forall|k: int| 0 <= k < r.len() && #[trigger] r[k] != v implies s.contains(r[k]) && !same_path(r[k], v) by {
            assert(k != i);
            assert(r[k] == s[k]);
            if k < i {
                assert(path_lt(s[k], s[i]));
                lemma_components_lt_irreflexive(path_components(s[k]));
            } else {
                assert(path_lt(s[i], s[k]));
                lemma_components_lt_irreflexive(path_components(s[k]));
            }
        }
        assert forall|w: Seq<char>| s.contains(w) implies exists|k: int|
            0 <= k < r.len() && same_path(#[trigger] r[k], w) by {
            let a = choose|a: int| 0 <= a < s.len() && s[a] == w;
            assert(same_path(r[a], w));
        }
    } else {
        assert(r[i] == v);
        if i < s.len() {
            lemma_components_lt_total(path_components(s[i]), path_components(v));
            assert(path_lt(v, s[i]));
        }
        assert forall|a: int, b: int| 0 <= a < b < r.len() implies path_lt(#[trigger] r[a], #[trigger] r[b]) by {
            if a < i && b > i {
                assert(r[b] == s[b - 1]);
                if b - 1 > i {
                    lemma_components_lt_transitive(path_components(v), path_components(s[i]), path_components(s[b - 1]));
                }
                lemma_components_lt_transitive(path_components(s[a]), path_components(v), path_components(s[b - 1]));
            } else if a == i {
                assert(r[b] == s[b - 1]);
                if b - 1 > i {
                    lemma_components_lt_transitive(path_components(v), path_components(s[i]), path_components(s[b - 1]));
                }
            } else if a > i {
                assert(r[a] == s[a - 1] && r[b] == s[b - 1]);
            }
        }
        assert forall|k: int| 0 <= k < r.len() && #[trigger] r[k] != v implies s.contains(r[k]) && !same_path(r[k], v) by {
            assert(k != i);
            if k < i {
                assert(r[k] == s[k]);
                assert(path_lt(r[k], r[i]));
            } else {
                assert(r[k] == s[k - 1]);
                assert(path_lt(r[i], r[k]));
            }
            lemma_components_lt_irreflexive(path_components(r[k]));
        }
        assert forall|w: Seq<char>| s.contains(w) implies exists|k: int|
            0 <= k < r.len() && same_path(#[trigger] r[k], w) by {
            let a = choose|a: int| 0 <= a < s.len() && s[a] == w;
            if a < i {
                assert(r[a] == w);
                assert(same_path(r[a], w));
            } else {
                assert(r[a + 1] == w);
                assert(same_path(r[a + 1], w));
            }
        }
    }
}

/// Whether no text after position `j` of `vs` names the same path as `vs[j]`.
pub open spec fn last_of_its_path(vs: Seq<Seq<char>>, j: int) -> bool {
    forall|j2: int| j < j2 < vs.len() ==> !same_path(#[trigger] vs[j2], vs[j])
}

/// The collected paths strictly increase.
proof fn lemma_volumes_collected_order(vs: Seq<Seq<char>>)
    ensures
        volumes_increasing(volumes_collected(vs)),
    decreases vs.len(),
{
    if vs.len() > 0 {
        lemma_volumes_collected_order(vs.drop_last());
        lemma_volume_insert(volumes_collected(vs.drop_last()), vs.last());
    }
}

/// Each collected path is the last of the given texts that name its path.
proof fn lemma_volumes_collected_last(vs: Seq<Seq<char>>)
    ensures
        forall|k: int| #![trigger volumes_collected(vs)[k]] 0 <= k < volumes_collected(vs).len() ==> exists|j: int|
            #![trigger vs[j]]
            0 <= j < vs.len() && vs[j] == volumes_collected(vs)[k] && last_of_its_path(vs, j),
    decreases vs.len(),
{
    if vs.len() > 0 {
        let prev = vs.drop_last();
        let v = vs.last();
        let c = volumes_collected(prev);
        lemma_volumes_collected_last(prev);
        lemma_volumes_collected_order(prev);
        lemma_volume_insert(c, v);
        let r = volumes_collected(vs);
        assert(r == volume_insert(c, v));
        let n = vs.len() - 1;
        assert(vs[n] == v);
        assert forall|k: int| #![trigger r[k]] 0 <= k < r.len() implies exists|j: int|
            #![trigger vs[j]]
            0 <= j < vs.len() && vs[j] == r[k] && last_of_its_path(vs, j) by {
            if r[k] == v {
                assert(vs[n] == r[k] && last_of_its_path(vs, n));
            } else {
                assert(c.contains(r[k]) && !same_path(r[k], v));
                let a = choose|a: int| 0 <= a < c.len() && c[a] == r[k];
                let j = choose|j: int| #![trigger prev[j]] 0 <= j < prev.len() && prev[j] == c[a] && last_of_its_path(prev, j);
                assert(vs[j] == prev[j]);
                assert forall|j2: int| j < j2 < vs.len() implies !same_path(#[trigger] vs[j2], vs[j]) by {
                    if j2 < n {
                        assert(vs[j2] == prev[j2]);
                    }
                }
                assert(vs[j] == r[k] && last_of_its_path(vs, j));
            }
        }
    }
}

/// Each given text names the path of one of the collected paths.
proof fn lemma_volumes_collected_cover(vs: Seq<Seq<char>>)
    ensures
        forall|j: int| 0 <= j < vs.len() ==> exists|k: int|
            0 <= k < volumes_collected(vs).len() && same_path(#[trigger] volumes_collected(vs)[k], #[trigger] vs[j]),
    decreases vs.len(),
{
    if vs.len() > 0 {
        let prev = vs.drop_last();
        let v = vs.last();
        let c = volumes_collected(prev);
        lemma_volumes_collected_cover(prev);
        lemma_volumes_collected_order(prev);
        lemma_volume_insert(c, v);
        let r = volumes_collected(vs);
        assert(r == volume_insert(c, v));
        let n = vs.len() - 1;
        assert(vs[n] == v);
        assert forall|j: int| 0 <= j < vs.len() implies exists|k: int|
            0 <= k < r.len() && same_path(#[trigger] r[k], #[trigger] vs[j]) by {
            if j == n {
                let k = choose|k: int| 0 <= k < r.len() && r[k] == v;
                assert(same_path(r[k], vs[j]));
            } else {
                assert(vs[j] == prev[j]);
                let k = choose|k: int| 0 <= k < c.len() && same_path(#[trigger] c[k], #[trigger] prev[j]);
                assert(c.contains(c[k]));
                let k2 = choose|k2: int| 0 <= k2 < r.len() && same_path(#[trigger] r[k2], c[k]);
                assert(same_path(r[k2], vs[j]));
            }
        }
    }
}

/// The collected paths strictly increase; each is the last of the given
/// texts that name its path, and each given text names the path of one of them.
pub proof fn lemma_volumes_collected(vs: Seq<Seq<char>>)
    ensures
        volumes_increasing(volumes_collected(vs)),
        forall|k: int| #![trigger volumes_collected(vs)[k]] 0 <= k < volumes_collected(vs).len() ==> exists|j: int|
            #![trigger vs[j]]
            0 <= j < vs.len() && vs[j] == volumes_collected(vs)[k] && last_of_its_path(vs, j),
        forall|j: int| 0 <= j < vs.len() ==> exists|k: int|
            0 <= k < volumes_collected(vs).len() && same_path(#[trigger] volumes_collected(vs)[k], #[trigger] vs[j]),
{
    lemma_volumes_collected_order(vs);
    lemma_volumes_collected_last(vs);
    lemma_volumes_collected_cover(vs);
}

/// Paths that already strictly increase are collected unchanged.
pub proof fn lemma_volumes_collected_increasing(vs: Seq<Seq<char>>)
    requires
        volumes_increasing(vs),
    ensures
        volumes_collected(vs) == vs,
    decreases vs.len(),
{
    if vs.len() > 0 {
        let prev = vs.drop_last();
        assert(volumes_increasing(prev));
        lemma_volumes_collected_increasing(prev);
        lemma_volume_insert_at(prev, vs.last(), prev.len() as int);
        assert(prev.insert(prev.len() as int, vs.last()) =~= vs);
    }
}

/// A set of Unix paths kept in increasing path order, no two naming the same
/// path, like the keys of a `BTreeMap<PathBuf, _>`.
#[derive(Debug, PartialEq, Eq)]
pub struct VolumeSet {
    paths: Vec<String>,
}

impl VolumeSet {
    /// The paths, in increasing order.
    pub closed spec fn items(&self) -> Seq<Seq<char>> {
        strings_view(self.paths@)
    }

    #[verifier::type_invariant]
    closed spec fn increasing(&self) -> bool {
        volumes_increasing(strings_view(self.paths@))
    }

    /// The empty set.
    pub fn new() -> (r: VolumeSet)
        ensures
            r.items() == Seq::<Seq<char>>::empty(),
    {
        let r = VolumeSet { paths: Vec::new() };
        assert(r.items() =~= Seq::<Seq<char>>::empty());
        r
    }

    /// The number of paths.
    pub fn len(&self) -> (n: usize)
        ensures
            n == self.items().len(),
    {
        self.paths.len()
    }

    /// The path at position `i`.
    pub fn get(&self, i: usize) -> (r: &String)
        requires
            i < self.items().len(),
        ensures
            r@ == self.items()[i as int],
    {
        &self.paths[i]
    }

    /// Adds `v`, keeping the order; a text naming the same path as `v` is
    /// replaced by `v`.
    pub fn insert(&mut self, v: String)
        ensures
            final(self).items() == volume_insert(old(self).items(), v@),
            volumes_increasing(final(self).items()),
    {
        proof {
            use_type_invariant(&*self);
        }
        let ghost s = self.items();
        let mut i: usize = 0;
        while i < self.paths.len() && path_place(self.paths[i].as_str(), v.as_str()) == PathPlace::Before
            invariant
                i <= self.paths@.len(),
                s == strings_view(self.paths@),
                forall|j: int| 0 <= j < i ==> path_lt(#[trigger] s[j], v@),
            decreases self.paths@.len() - i,
        {
            i = i + 1;
        }
        let present = i < self.paths.len() && path_place(self.paths[i].as_str(), v.as_str()) == PathPlace::Same;
        proof {
            if i < s.len() {
                assert(s[i as int] == self.paths@[i as int]@);
            }
            lemma_volume_insert_at(s, v@, i as int);
            lemma_volume_insert(s, v@);
        }
        let ghost text = v@;
        let mut paths: Vec<String> = Vec::new();
        std::mem::swap(&mut paths, &mut self.paths);
        if present {
            paths.set(i, v);
            assert(strings_view(paths@) =~= s.update(i as int, text));
        } else {
            paths.insert(i, v);
            assert(strings_view(paths@) =~= s.insert(i as int, text));
        }
        self.paths = paths;
    }

    /// The set of the paths `vs`, in increasing order: of texts naming the
    /// same path, the last stays.
    pub fn from_list(vs: &Vec<String>) -> (r: VolumeSet)
        ensures
            r.items() == volumes_collected(strings_view(vs@)),
            volumes_increasing(r.items()),
    {
        let mut set = VolumeSet::new();
        let mut i: usize = 0;
        assert(strings_view(vs@).subrange(0, 0) =~= Seq::<Seq<char>>::empty());
        while i < vs.len()
            invariant
                i <= vs@.len(),
                set.items() == volumes_collected(strings_view(vs@).subrange(0, i as int)),
            decreases vs@.len() - i,
        {
            assert(strings_view(vs@).subrange(0, i + 1).drop_last() =~= strings_view(vs@).subrange(0, i as int));
            assert(strings_view(vs@).subrange(0, i + 1).last() == vs@[i as int]@);
            set.insert(vs[i].clone());
            i = i + 1;
        }
        assert(strings_view(vs@).subrange(0, vs@.len() as int) =~= strings_view(vs@));
        proof {
            lemma_volumes_collected_order(strings_view(vs@));
        }
        set
    }

    /// The paths, in increasing order.
    pub fn into_vec(self) -> (r: Vec<String>)
        ensures
            strings_view(r@) == self.items(),
            volumes_increasing(strings_view(r@)),
    {
        proof {
            use_type_invariant(&self);
        }
        self.paths
    }
}

impl Clone for VolumeSet {
    fn clone(&self) -> (r: VolumeSet)
        ensures
            r.items() == self.items(),
    {
        proof {
            use_type_invariant(self);
        }
        let mut paths: Vec<String> = Vec::new();
        let mut i: usize = 0;
        while i < self.paths.len()
            invariant
                i <= self.paths@.len(),
                paths@.len() == i,
                forall|j: int| 0 <= j < i ==> #[trigger] paths@[j] == self.paths@[j],
            decreases self.paths@.len() - i,
        {
            paths.push(self.paths[i].clone());
            i = i + 1;
        }
        assert(paths@ =~= self.paths@);
        VolumeSet { paths }
    }
}

} // verus!
