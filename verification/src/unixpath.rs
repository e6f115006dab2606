use vstd::prelude::*;
use crate::text::{same_text, text_less, text_lt, lemma_text_lt_irreflexive, lemma_text_lt_total, lemma_text_lt_transitive};

verus! {

/// One component of a Unix path, as `std::path::Component` names it (Unix
/// paths have no prefix component).
pub enum PathComponent {
    RootDir,
    CurDir,
    ParentDir,
    Normal(Seq<char>),
}

/// The texts between the `/` separators of `s`, empty ones included: a text
/// with `k` separators has `k + 1` segments.
pub open spec fn path_segments(s: Seq<char>) -> Seq<Seq<char>>
    decreases s.len(),
{
    if s.len() == 0 {
        seq![Seq::<char>::empty()]
    } else {
        let p = path_segments(s.drop_last());
        if s.last() == '/' {
            p.push(Seq::<char>::empty())
        } else {
            p.update(p.len() - 1, p.last().push(s.last()))
        }
    }
}

/// The components that the segments give: empty and `.` segments give none,
/// `..` the parent directory, any other segment a normal component.
pub open spec fn segment_components(segs: Seq<Seq<char>>) -> Seq<PathComponent>
    decreases segs.len(),
{
    if segs.len() == 0 {
        Seq::empty()
    } else {
        segment_components(segs.drop_last()) + segment_component(segs.last())
    }
}

/// The components (none or one) of one segment.
pub open spec fn segment_component(g: Seq<char>) -> Seq<PathComponent> {
    if g.len() == 0 || g == seq!['.'] {
        Seq::empty()
    } else if g == seq!['.', '.'] {
        seq![PathComponent::ParentDir]
    } else {
        seq![PathComponent::Normal(g)]
    }
}

/// The components of the Unix path `s`, as `Path::components` yields them: the
/// root directory if `s` starts with `/`, else the current directory if its
/// first segment is `.`; then the components of the segments.
pub open spec fn path_components(s: Seq<char>) -> Seq<PathComponent> {
    let segs = path_segments(s);
    let lead = if s.len() > 0 && s[0] == '/' {
        seq![PathComponent::RootDir]
    } else if segs[0] == seq!['.'] {
        seq![PathComponent::CurDir]
    } else {
        Seq::empty()
    };
    lead + segment_components(segs)
}

/// The position of a component kind in the order of `std::path::Component`.
pub open spec fn component_rank(c: PathComponent) -> int {
    match c {
        PathComponent::RootDir => 0,
        PathComponent::CurDir => 1,
        PathComponent::ParentDir => 2,
        PathComponent::Normal(_) => 3,
    }
}

/// The order of components: by kind, and normal components by their text.
pub open spec fn component_lt(a: PathComponent, b: PathComponent) -> bool {
    if component_rank(a) != component_rank(b) {
        component_rank(a) < component_rank(b)
    } else {
        match (a, b) {
            (PathComponent::Normal(x), PathComponent::Normal(y)) => text_lt(x, y),
            _ => false,
        }
    }
}

/// Lexicographic order on component lists, a proper prefix coming first.
pub open spec fn components_lt(a: Seq<PathComponent>, b: Seq<PathComponent>) -> bool
    decreases a.len(),
{
    if a.len() == 0 {
        b.len() > 0
    } else if b.len() == 0 {
        false
    } else if a[0] != b[0] {
        component_lt(a[0], b[0])
    } else {
        components_lt(a.drop_first(), b.drop_first())
    }
}

/// The order of Unix paths (that of `Path`): by their components.
pub open spec fn path_lt(a: Seq<char>, b: Seq<char>) -> bool {
    components_lt(path_components(a), path_components(b))
}

/// Whether two texts name the same Unix path (equal components, as `Path`'s `==`).
pub open spec fn same_path(a: Seq<char>, b: Seq<char>) -> bool {
    path_components(a) == path_components(b)
}

/// No component comes before itself.
proof fn lemma_component_lt_irreflexive(a: PathComponent)
    ensures
        !component_lt(a, a),
{
    if let PathComponent::Normal(x) = a {
        lemma_text_lt_irreflexive(x);
    }
}

/// Of two distinct components, exactly one comes first.
proof fn lemma_component_lt_total(a: PathComponent, b: PathComponent)
    ensures
        a == b || component_lt(a, b) || component_lt(b, a),
        !(component_lt(a, b) && component_lt(b, a)),
{
    if let (PathComponent::Normal(x), PathComponent::Normal(y)) = (a, b) {
        lemma_text_lt_total(x, y);
    }
}

/// The order of components is transitive.
proof fn lemma_component_lt_transitive(a: PathComponent, b: PathComponent, c: PathComponent)
    requires
        component_lt(a, b),
        component_lt(b, c),
    ensures
        component_lt(a, c),
{
    if let (PathComponent::Normal(x), PathComponent::Normal(y), PathComponent::Normal(z)) = (a, b, c) {
        lemma_text_lt_transitive(x, y, z);
    }
}

/// No component list comes before itself.
pub proof fn lemma_components_lt_irreflexive(a: Seq<PathComponent>)
    ensures
        !components_lt(a, a),
    decreases a.len(),
{
    if a.len() > 0 {
        lemma_components_lt_irreflexive(a.drop_first());
    }
}

/// Of two distinct component lists, exactly one comes first.
pub proof fn lemma_components_lt_total(a: Seq<PathComponent>, b: Seq<PathComponent>)
    ensures
        a == b || components_lt(a, b) || components_lt(b, a),
        !(components_lt(a, b) && components_lt(b, a)),
    decreases a.len(),
{
    if a.len() > 0 && b.len() > 0 {
        if a[0] == b[0] {
            lemma_components_lt_total(a.drop_first(), b.drop_first());
            if a.drop_first() == b.drop_first() {
                assert(a =~= seq![a[0]] + a.drop_first());
                assert(b =~= seq![b[0]] + b.drop_first());
            }
        } else {
            lemma_component_lt_total(a[0], b[0]);
        }
    } else if a.len() == 0 && b.len() == 0 {
        assert(a =~= b);
    }
}

/// The order of component lists is transitive.
pub proof fn lemma_components_lt_transitive(a: Seq<PathComponent>, b: Seq<PathComponent>, c: Seq<PathComponent>)
    requires
        components_lt(a, b),
        components_lt(b, c),
    ensures
        components_lt(a, c),
    decreases a.len(),
{
    if a.len() > 0 && b.len() > 0 && c.len() > 0 {
        if a[0] == b[0] && b[0] == c[0] {
            lemma_components_lt_transitive(a.drop_first(), b.drop_first(), c.drop_first());
        } else if a[0] == b[0] {
        } else if b[0] == c[0] {
        } else {
            lemma_component_lt_transitive(a[0], b[0], c[0]);
            if a[0] == c[0] {
                lemma_component_lt_total(a[0], b[0]);
            }
        }
    }
}

/// One component of a Unix path, held as text.
#[derive(Debug)]
pub enum PathPart {
    RootDir,
    CurDir,
    ParentDir,
    Normal(String),
}

impl View for PathPart {
    type V = PathComponent;

    open spec fn view(&self) -> PathComponent {
        match self {
            PathPart::RootDir => PathComponent::RootDir,
            PathPart::CurDir => PathComponent::CurDir,
            PathPart::ParentDir => PathComponent::ParentDir,
            PathPart::Normal(s) => PathComponent::Normal(s@),
        }
    }
}

/// The components of a list of parts.
pub open spec fn parts_view(v: Seq<PathPart>) -> Seq<PathComponent> {
    v.map_values(|p: PathPart| p@)
}

/// The part (if any) that a finished segment gives, appended to `parts`.
fn push_segment(parts: &mut Vec<PathPart>, seg: String)
    ensures
        parts_view(final(parts)@) == parts_view(old(parts)@) + segment_component(seg@),
{
    proof {
        reveal_strlit(".");
        reveal_strlit("..");
        assert("."@ =~= seq!['.']);
        assert(".."@ =~= seq!['.', '.']);
    }
    let ghost before = parts_view(parts@);
    if seg.unicode_len() == 0 || same_text(seg.as_str(), ".") {
        assert(parts_view(parts@) =~= before + segment_component(seg@));
    } else if same_text(seg.as_str(), "..") {
        parts.push(PathPart::ParentDir);
        assert(parts_view(parts@) =~= before + segment_component(seg@));
    } else {
        parts.push(PathPart::Normal(seg));
        assert(parts_view(parts@) =~= before + segment_component(seg@));
    }
}

/// The components of the Unix path `s`.
pub fn path_parts(s: &str) -> (r: Vec<PathPart>)
    ensures
        parts_view(r@) == path_components(s@),
{
    let n = s.unicode_len();
    let mut body: Vec<PathPart> = Vec::new();
    let mut seg_start: usize = 0;
    let mut first_done = false;
    let mut first_dot = false;
    let mut i: usize = 0;
    proof {
        reveal_strlit(".");
        assert("."@ =~= seq!['.']);
        assert(s@.subrange(0, 0) =~= Seq::<char>::empty());
        assert(parts_view(body@) =~= Seq::<PathComponent>::empty());
        assert(path_segments(Seq::<char>::empty()).drop_last() =~= Seq::<Seq<char>>::empty());
    }
    while i < n
        invariant
            n == s@.len(),
            seg_start <= i <= n,
            path_segments(s@.subrange(0, i as int)).len() >= 1,
            parts_view(body@) == segment_components(path_segments(s@.subrange(0, i as int)).drop_last()),
            s@.subrange(seg_start as int, i as int) == path_segments(s@.subrange(0, i as int)).last(),
            first_done == (path_segments(s@.subrange(0, i as int)).len() > 1),
            first_done ==> first_dot == (path_segments(s@.subrange(0, i as int))[0] == seq!['.']),
        decreases n - i,
    {
        let c = s.get_char(i);
        let ghost pre = s@.subrange(0, i as int);
        let ghost next = s@.subrange(0, i + 1);
        let ghost p = path_segments(pre);
        assert(next.drop_last() =~= pre);
        assert(next.last() == c);
        if c == '/' {
            proof {
                reveal_strlit(".");
                assert("."@ =~= seq!['.']);
            }
            let seg = s.substring_char(seg_start, i).to_owned();
            if !first_done {
                first_dot = same_text(seg.as_str(), ".");
                first_done = true;
            }
            push_segment(&mut body, seg);
            proof {
                let q = p.push(Seq::<char>::empty());
                assert(path_segments(next) == q);
                assert(q.drop_last() =~= p);
                assert(p =~= p.drop_last().push(p.last()));
                assert(segment_components(p) == segment_components(p.drop_last()) + segment_component(p.last()));
                assert(q[0] == p[0]);
                assert(s@.subrange(i + 1, i + 1) =~= Seq::<char>::empty());
            }
            seg_start = i + 1;
        } else {
            proof {
                let q = p.update(p.len() - 1, p.last().push(c));
                assert(path_segments(next) == q);
                assert(q.drop_last() =~= p.drop_last());
                assert(s@.subrange(seg_start as int, i + 1) =~= s@.subrange(seg_start as int, i as int).push(c));
                if p.len() > 1 {
                    assert(q[0] == p[0]);
                }
            }
        }
        i = i + 1;
    }
    let ghost segs = path_segments(s@);
    assert(s@.subrange(0, n as int) =~= s@);
    let last = s.substring_char(seg_start, n).to_owned();
    if !first_done {
        first_dot = same_text(last.as_str(), ".");
    }
    push_segment(&mut body, last);
    proof {
        assert(segs =~= segs.drop_last().push(segs.last()));
        assert(segment_components(segs) == segment_components(segs.drop_last()) + segment_component(segs.last()));
        if segs.len() == 1 {
            assert(segs[0] == segs.last());
        }
    }
    let ghost tail = parts_view(body@);
    if n > 0 && s.get_char(0) == '/' {
        body.insert(0, PathPart::RootDir);
        assert(parts_view(body@) =~= seq![PathComponent::RootDir] + tail);
    } else if first_dot {
        body.insert(0, PathPart::CurDir);
        assert(parts_view(body@) =~= seq![PathComponent::CurDir] + tail);
    } else {
        assert(parts_view(body@) =~= Seq::<PathComponent>::empty() + tail);
    }
    body
}

/// Whether component `a` comes before `b`.
fn part_precedes(a: &PathPart, b: &PathPart) -> (r: bool)
    ensures
        r == component_lt(a@, b@),
{
    match (a, b) {
        (PathPart::Normal(x), PathPart::Normal(y)) => text_less(x.as_str(), y.as_str()),
        _ => part_rank(a) < part_rank(b),
    }
}

/// The rank of a component's kind.
fn part_rank(a: &PathPart) -> (r: u8)
    ensures
        r as int == component_rank(a@),
{
    match a {
        PathPart::RootDir => 0,
        PathPart::CurDir => 1,
        PathPart::ParentDir => 2,
        PathPart::Normal(_) => 3,
    }
}

/// Whether two components are equal.
fn same_part(a: &PathPart, b: &PathPart) -> (r: bool)
    ensures
        r == (a@ == b@),
{
    match (a, b) {
        (PathPart::RootDir, PathPart::RootDir) => true,
        (PathPart::CurDir, PathPart::CurDir) => true,
        (PathPart::ParentDir, PathPart::ParentDir) => true,
        (PathPart::Normal(x), PathPart::Normal(y)) => same_text(x.as_str(), y.as_str()),
        _ => false,
    }
}

/// Where path `a` stands relative to path `b`.
#[derive(Debug, Clone, Copy, PartialEq, Eq, Structural)]
pub enum PathPlace {
    Before,
    Same,
    After,
}

/// Compares the Unix paths `a` and `b` by their components.
pub fn path_place(a: &str, b: &str) -> (r: PathPlace)
    ensures
        r == PathPlace::Before <==> path_lt(a@, b@),
        r == PathPlace::Same <==> same_path(a@, b@),
        r == PathPlace::After <==> path_lt(b@, a@),
{
    let pa = path_parts(a);
    let pb = path_parts(b);
    let ghost x = path_components(a@);
    let ghost y = path_components(b@);
    let n = pa.len();
    let m = pb.len();
    let mut i: usize = 0;
    assert(x.skip(0) =~= x);
    assert(y.skip(0) =~= y);
    proof {
        lemma_components_lt_total(x, y);
        lemma_components_lt_irreflexive(x);
    }
    while i < n && i < m
        invariant
            x == path_components(a@),
            y == path_components(b@),
            n == x.len(),
            m == y.len(),
            parts_view(pa@) == x,
            parts_view(pb@) == y,
            i <= n,
            i <= m,
            components_lt(x, y) == components_lt(x.skip(i as int), y.skip(i as int)),
            components_lt(y, x) == components_lt(y.skip(i as int), x.skip(i as int)),
            (x == y) == (x.skip(i as int) == y.skip(i as int)),
        decreases n - i,
    {
        assert(x.skip(i as int)[0] == pa@[i as int]@);
        assert(y.skip(i as int)[0] == pb@[i as int]@);
        if !same_part(&pa[i], &pb[i]) {
            proof {
                let xs = x.skip(i as int);
                let ys = y.skip(i as int);
                lemma_component_lt_total(xs[0], ys[0]);
                assert(xs[0] != ys[0]);
                assert(components_lt(xs, ys) == component_lt(xs[0], ys[0]));
                assert(components_lt(ys, xs) == component_lt(ys[0], xs[0]));
                assert(xs != ys);
            }
            if part_precedes(&pa[i], &pb[i]) {
                return PathPlace::Before;
            } else {
                return PathPlace::After;
            }
        }
        proof {
            assert(x.skip(i as int).drop_first() =~= x.skip(i + 1));
            assert(y.skip(i as int).drop_first() =~= y.skip(i + 1));
            let xs = x.skip(i as int);
            let ys = y.skip(i as int);
            if xs.drop_first() == ys.drop_first() {
                assert(xs =~= seq![xs[0]] + xs.drop_first());
                assert(ys =~= seq![ys[0]] + ys.drop_first());
            }
        }
        i = i + 1;
    }
    proof {
        if i == n && i == m {
            assert(x.skip(i as int) =~= y.skip(i as int));
        }
    }
    if i < m {
        PathPlace::Before
    } else if i < n {
        PathPlace::After
    } else {
        PathPlace::Same
    }
}

} // verus!
