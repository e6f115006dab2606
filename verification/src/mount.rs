use vstd::prelude::*;
use crate::pb;
use crate::text::StrLike;
use crate::utils::{OperationOutput, OutputIdx};
use crate::unixpath::{PathComponent, path_components, path_segments, segment_component, segment_components};

verus! {

/// Operand of a command execution that says how an input is mounted.
#[derive(Debug, Clone)]
pub enum Mount<P> {
    /// Read-only output of another operation.
    ReadOnlyLayer(OperationOutput, P),
    /// Read-only output of another operation with a selector.
    ReadOnlySelector(OperationOutput, P, P),
    /// Writable bind mount of another operation's output; changes are not
    /// kept in the resulting layer (`--mount=type=bind,rw`).
    ReadWriteLayer(OperationOutput, P),
    /// Writable bind mount of another operation's output with a selector.
    ReadWriteSelector(OperationOutput, P, P),
    /// Empty layer that produces an output.
    Scratch(OutputIdx, P),
    /// Writable output of another operation.
    Layer(OutputIdx, OperationOutput, P),
    /// Writable persistent cache.
    SharedCache(P),
    /// Writable persistent cache with explicit options; the flag is read-only.
    Cache(P, pb::CacheOpt, bool),
    /// Persistent cache seeded from another operation's output: input layer,
    /// destination, source selector (empty for the root), cache options and
    /// the read-only flag.
    CacheFrom(OperationOutput, P, P, pb::CacheOpt, bool),
    /// tmpfs mount with options (e.g. a size limit).
    Tmpfs(P, pb::TmpfsOpt),
    /// Secret mount.
    Secret(P, pb::SecretOpt),
    /// Optional SSH agent socket at the given path.
    OptionalSshAgent(P),
    /// SSH agent socket mount with explicit options.
    Ssh(P, pb::SshOpt),
}

/// The abstract content of a [`Mount`]: each path given by its characters.
pub enum MountView {
    ReadOnlyLayer(OperationOutput, Seq<char>),
    ReadOnlySelector(OperationOutput, Seq<char>, Seq<char>),
    ReadWriteLayer(OperationOutput, Seq<char>),
    ReadWriteSelector(OperationOutput, Seq<char>, Seq<char>),
    Scratch(OutputIdx, Seq<char>),
    Layer(OutputIdx, OperationOutput, Seq<char>),
    SharedCache(Seq<char>),
    Cache(Seq<char>, pb::CacheOpt, bool),
    CacheFrom(OperationOutput, Seq<char>, Seq<char>, pb::CacheOpt, bool),
    Tmpfs(Seq<char>, pb::TmpfsOpt),
    Secret(Seq<char>, pb::SecretOpt),
    OptionalSshAgent(Seq<char>),
    Ssh(Seq<char>, pb::SshOpt),
}

impl<P: StrLike> View for Mount<P> {
    type V = MountView;

    open spec fn view(&self) -> MountView {
        match self {
            Mount::ReadOnlyLayer(op, p) => MountView::ReadOnlyLayer(*op, p.str_view()),
            Mount::ReadOnlySelector(op, p, s) => MountView::ReadOnlySelector(*op, p.str_view(), s.str_view()),
            Mount::ReadWriteLayer(op, p) => MountView::ReadWriteLayer(*op, p.str_view()),
            Mount::ReadWriteSelector(op, p, s) => MountView::ReadWriteSelector(*op, p.str_view(), s.str_view()),
            Mount::Scratch(o, p) => MountView::Scratch(*o, p.str_view()),
            Mount::Layer(o, op, p) => MountView::Layer(*o, *op, p.str_view()),
            Mount::SharedCache(p) => MountView::SharedCache(p.str_view()),
            Mount::Cache(p, opt, ro) => MountView::Cache(p.str_view(), *opt, *ro),
            Mount::CacheFrom(op, p, s, opt, ro) => MountView::CacheFrom(*op, p.str_view(), s.str_view(), *opt, *ro),
            Mount::Tmpfs(p, opt) => MountView::Tmpfs(p.str_view(), *opt),
            Mount::Secret(p, opt) => MountView::Secret(p.str_view(), *opt),
            Mount::OptionalSshAgent(p) => MountView::OptionalSshAgent(p.str_view()),
            Mount::Ssh(p, opt) => MountView::Ssh(p.str_view(), *opt),
        }
    }
}

/// Whether path `p` names the root directory: it starts with `/` and every
/// further component is empty or `.` (so `/`, `//` and `/./` do, `/..` and `/a` do not).
pub open spec fn names_root_dir(p: Seq<char>) -> bool {
    &&& p.len() > 0
    &&& p[0] == '/'
    &&& forall|i: int|
        0 < i < p.len() ==> (#[trigger] p[i] == '/' || (p[i] == '.' && p[i - 1] == '/' && (i + 1
            == p.len() || p[i + 1] == '/')))
}

/// Whether a mount lands on the root directory. Secret and SSH mounts never do.
pub open spec fn mount_is_root(m: MountView) -> bool {
    match m {
        MountView::ReadOnlyLayer(_, p) => names_root_dir(p),
        MountView::ReadOnlySelector(_, p, _) => names_root_dir(p),
        MountView::ReadWriteLayer(_, p) => names_root_dir(p),
        MountView::ReadWriteSelector(_, p, _) => names_root_dir(p),
        MountView::Scratch(_, p) => names_root_dir(p),
        MountView::Layer(_, _, p) => names_root_dir(p),
        MountView::SharedCache(p) => names_root_dir(p),
        MountView::Cache(p, _, _) => names_root_dir(p),
        MountView::CacheFrom(_, p, _, _, _) => names_root_dir(p),
        MountView::Tmpfs(p, _) => names_root_dir(p),
        MountView::Secret(_, _) => false,
        MountView::OptionalSshAgent(_) => false,
        MountView::Ssh(_, _) => false,
    }
}

/// Whether `path` names the root directory.
pub fn is_root_dir(path: &str) -> (r: bool)
    ensures
        r == names_root_dir(path@),
{
    let n = path.unicode_len();
    if n == 0 || path.get_char(0) != '/' {
        return false;
    }
    let mut i: usize = 1;
    while i < n
        invariant
            n == path@.len(),
            1 <= i <= n,
            path@[0] == '/',
            forall|j: int|
                0 < j < i ==> (#[trigger] path@[j] == '/' || (path@[j] == '.' && path@[j - 1] == '/'
                    && (j + 1 == path@.len() || path@[j + 1] == '/'))),
        decreases n - i,
    {
        let c = path.get_char(i);
        if c != '/' {
            if c != '.' || path.get_char(i - 1) != '/' {
                return false;
            }
            if i + 1 < n && path.get_char(i + 1) != '/' {
                return false;
            }
        }
        i = i + 1;
    }
    true
}

impl<P: StrLike> Mount<P> {
    /// The same mount with owned path strings.
    pub fn into_owned(self) -> (r: Mount<String>)
        ensures
            r@ == self@,
    {
        match self {
            Mount::ReadOnlySelector(op, path, selector) => Mount::ReadOnlySelector(
                op,
                path.to_owned_string(),
                selector.to_owned_string(),
            ),
            Mount::ReadOnlyLayer(op, path) => Mount::ReadOnlyLayer(op, path.to_owned_string()),
            Mount::ReadWriteSelector(op, path, selector) => Mount::ReadWriteSelector(
                op,
                path.to_owned_string(),
                selector.to_owned_string(),
            ),
            Mount::ReadWriteLayer(op, path) => Mount::ReadWriteLayer(op, path.to_owned_string()),
            Mount::Scratch(output, path) => Mount::Scratch(output, path.to_owned_string()),
            Mount::Layer(output, input, path) => Mount::Layer(output, input, path.to_owned_string()),
            Mount::SharedCache(path) => Mount::SharedCache(path.to_owned_string()),
            Mount::Cache(path, opt, readonly) => Mount::Cache(path.to_owned_string(), opt, readonly),
            Mount::CacheFrom(op, path, selector, opt, readonly) => Mount::CacheFrom(
                op,
                path.to_owned_string(),
                selector.to_owned_string(),
                opt,
                readonly,
            ),
            Mount::Tmpfs(path, opt) => Mount::Tmpfs(path.to_owned_string(), opt),
            Mount::Secret(path, opt) => Mount::Secret(path.to_owned_string(), opt),
            Mount::OptionalSshAgent(path) => Mount::OptionalSshAgent(path.to_owned_string()),
            Mount::Ssh(path, opt) => Mount::Ssh(path.to_owned_string(), opt),
        }
    }

    /// Whether the mount lands on the root directory of the container.
    pub fn is_root(&self) -> (r: bool)
        ensures
            r == mount_is_root(self@),
            self@ matches MountView::ReadOnlyLayer(_, p) ==> r == names_root_dir(p),
            self@ matches MountView::ReadOnlySelector(_, p, _) ==> r == names_root_dir(p),
            self@ matches MountView::ReadWriteLayer(_, p) ==> r == names_root_dir(p),
            self@ matches MountView::ReadWriteSelector(_, p, _) ==> r == names_root_dir(p),
            self@ matches MountView::Scratch(_, p) ==> r == names_root_dir(p),
            self@ matches MountView::Layer(_, _, p) ==> r == names_root_dir(p),
            self@ matches MountView::SharedCache(p) ==> r == names_root_dir(p),
            self@ matches MountView::Cache(p, _, _) ==> r == names_root_dir(p),
            self@ matches MountView::CacheFrom(_, p, _, _, _) ==> r == names_root_dir(p),
            self@ matches MountView::Tmpfs(p, _) ==> r == names_root_dir(p),
            self@ is Secret || self@ is OptionalSshAgent || self@ is Ssh ==> !r,
    {
        let path = match self {
            Mount::ReadOnlySelector(_, path, ..) => path,
            Mount::ReadOnlyLayer(_, path) => path,
            Mount::ReadWriteSelector(_, path, ..) => path,
            Mount::ReadWriteLayer(_, path) => path,
            Mount::Scratch(_, path) => path,
            Mount::Layer(_, _, path) => path,
            Mount::SharedCache(path) => path,
            Mount::Cache(path, ..) => path,
            Mount::CacheFrom(_, path, ..) => path,
            Mount::Tmpfs(path, ..) => path,
            Mount::Secret(_, _) => {
                return false;
            },
            Mount::OptionalSshAgent(_) => {
                return false;
            },
            Mount::Ssh(_, _) => {
                return false;
            },
        };
        is_root_dir(path.as_text())
    }
}

/// A mount lands on the root directory exactly when its destination is the
/// path `/` (compared as paths, component by component: `//` and `/./` are
/// `/` too): for every kind of mount with a destination (every kind but
/// secrets and SSH sockets) its destination decides, and secret and SSH
/// mounts never do.
pub proof fn lemma_mount_is_root(m: MountView)
    ensures
        m matches MountView::ReadOnlyLayer(_, p) ==> mount_is_root(m) == (path_components(p) == seq![PathComponent::RootDir]),
        m matches MountView::ReadOnlySelector(_, p, _) ==> mount_is_root(m) == (path_components(p) == seq![PathComponent::RootDir]),
        m matches MountView::ReadWriteLayer(_, p) ==> mount_is_root(m) == (path_components(p) == seq![PathComponent::RootDir]),
        m matches MountView::ReadWriteSelector(_, p, _) ==> mount_is_root(m) == (path_components(p) == seq![PathComponent::RootDir]),
        m matches MountView::Scratch(_, p) ==> mount_is_root(m) == (path_components(p) == seq![PathComponent::RootDir]),
        m matches MountView::Layer(_, _, p) ==> mount_is_root(m) == (path_components(p) == seq![PathComponent::RootDir]),
        m matches MountView::SharedCache(p) ==> mount_is_root(m) == (path_components(p) == seq![PathComponent::RootDir]),
        m matches MountView::Cache(p, _, _) ==> mount_is_root(m) == (path_components(p) == seq![PathComponent::RootDir]),
        m matches MountView::CacheFrom(_, p, _, _, _) ==> mount_is_root(m) == (path_components(p) == seq![PathComponent::RootDir]),
        m matches MountView::Tmpfs(p, _) ==> mount_is_root(m) == (path_components(p) == seq![PathComponent::RootDir]),
        m is Secret || m is OptionalSshAgent || m is Ssh ==> !mount_is_root(m),
{
    match m {
        MountView::ReadOnlyLayer(_, p) => lemma_names_root_dir_components(p),
        MountView::ReadOnlySelector(_, p, _) => lemma_names_root_dir_components(p),
        MountView::ReadWriteLayer(_, p) => lemma_names_root_dir_components(p),
        MountView::ReadWriteSelector(_, p, _) => lemma_names_root_dir_components(p),
        MountView::Scratch(_, p) => lemma_names_root_dir_components(p),
        MountView::Layer(_, _, p) => lemma_names_root_dir_components(p),
        MountView::SharedCache(p) => lemma_names_root_dir_components(p),
        MountView::Cache(p, _, _) => lemma_names_root_dir_components(p),
        MountView::CacheFrom(_, p, _, _, _) => lemma_names_root_dir_components(p),
        MountView::Tmpfs(p, _) => lemma_names_root_dir_components(p),
        _ => {},
    }
}

/// Whether every character of `p` after the first is a `/`, or a `.` that
/// stands alone between separators.
spec fn root_tail(p: Seq<char>) -> bool {
    forall|i: int|
        0 < i < p.len() ==> (#[trigger] p[i] == '/' || (p[i] == '.' && p[i - 1] == '/' && (i + 1 == p.len()
            || p[i + 1] == '/')))
}

/// Whether every segment is empty or `.`.
spec fn segments_trivial(segs: Seq<Seq<char>>) -> bool {
    forall|i: int| 0 <= i < segs.len() ==> (#[trigger] segs[i]).len() == 0 || segs[i] == seq!['.']
}

/// Segments give no component exactly when each is empty or `.`; the
/// components they give are never the root directory.
proof fn lemma_segment_components_empty(segs: Seq<Seq<char>>)
    ensures
        segment_components(segs).len() == 0 <==> segments_trivial(segs),
        forall|i: int| 0 <= i < segment_components(segs).len() ==> !(#[trigger] segment_components(segs)[i] is RootDir),
    decreases segs.len(),
{
    if segs.len() > 0 {
        let prev = segs.drop_last();
        lemma_segment_components_empty(prev);
        let g = segs.last();
        let sc = segment_components(segs);
        assert(sc == segment_components(prev) + segment_component(g));
        assert(segment_component(g).len() == 0 <==> (g.len() == 0 || g == seq!['.']));
        if segments_trivial(segs) {
            assert forall|i: int| 0 <= i < prev.len() implies (#[trigger] prev[i]).len() == 0 || prev[i] == seq!['.'] by {
                assert(prev[i] == segs[i]);
            }
            assert(segs[segs.len() - 1] == g);
        }
        if segments_trivial(prev) && (g.len() == 0 || g == seq!['.']) {
            assert forall|i: int| 0 <= i < segs.len() implies (#[trigger] segs[i]).len() == 0 || segs[i] == seq!['.'] by {
                if i < prev.len() {
                    assert(prev[i] == segs[i]);
                }
            }
        }
        assert forall|i: int| 0 <= i < sc.len() implies !(#[trigger] sc[i] is RootDir) by {
            if i < segment_components(prev).len() {
                assert(sc[i] == segment_components(prev)[i]);
            } else {
                assert(sc[i] == segment_component(g)[i - segment_components(prev).len()]);
            }
        }
    }
}

/// A text has at least one segment, and its last segment is empty exactly
/// when the text is empty or ends with `/`.
proof fn lemma_last_segment(s: Seq<char>)
    ensures
        path_segments(s).len() >= 1,
        path_segments(s).last().len() == 0 <==> (s.len() == 0 || s.last() == '/'),
    decreases s.len(),
{
    if s.len() > 0 {
        lemma_last_segment(s.drop_last());
    }
}

/// For a text starting with `/`, the characters after the first are
/// separators and lone dots exactly when every segment is empty or `.`.
proof fn lemma_root_tail_segments(s: Seq<char>)
    requires
        s.len() >= 1,
        s[0] == '/',
    ensures
        root_tail(s) <==> segments_trivial(path_segments(s)),
    decreases s.len(),
{
    let segs = path_segments(s);
    if s.len() == 1 {
        assert(s.drop_last() =~= Seq::<char>::empty());
        assert(segs =~= seq![Seq::<char>::empty(), Seq::<char>::empty()]);
    } else {
        let t = s.drop_last();
        let c = s.last();
        let n = s.len() - 1;
        assert(t[0] == '/');
        lemma_root_tail_segments(t);
        lemma_last_segment(t);
        let p = path_segments(t);
        assert forall|i: int| 0 <= i < t.len() implies #[trigger] t[i] == s[i] by {}
        if c == '/' {
            assert(segs == p.push(Seq::<char>::empty()));
            if segments_trivial(p) {
                assert forall|i: int| 0 <= i < segs.len() implies (#[trigger] segs[i]).len() == 0 || segs[i] == seq!['.'] by {
                    if i < p.len() {
                        assert(segs[i] == p[i]);
                    }
                }
            }
            if segments_trivial(segs) {
                assert forall|i: int| 0 <= i < p.len() implies (#[trigger] p[i]).len() == 0 || p[i] == seq!['.'] by {
                    assert(segs[i] == p[i]);
                }
            }
            if root_tail(t) {
                assert forall|i: int| 0 < i < s.len() implies (#[trigger] s[i] == '/' || (s[i] == '.' && s[i - 1] == '/'
                    && (i + 1 == s.len() || s[i + 1] == '/'))) by {
                    if i < n {
                        assert(t[i] == s[i]);
                        assert(t[i] == '/' || (t[i] == '.' && t[i - 1] == '/' && (i + 1 == t.len() || t[i + 1] == '/')));
                    }
                }
            }
            if root_tail(s) {
                assert forall|i: int| 0 < i < t.len() implies (#[trigger] t[i] == '/' || (t[i] == '.' && t[i - 1] == '/'
                    && (i + 1 == t.len() || t[i + 1] == '/'))) by {
                    assert(s[i] == '/' || (s[i] == '.' && s[i - 1] == '/' && (i + 1 == s.len() || s[i + 1] == '/')));
                }
            }
        } else if c == '.' {
            let q = p.last().push(c);
            assert(segs == p.update(p.len() - 1, q));
            let last_empty = p.last().len() == 0;
            assert(q == seq!['.'] <==> last_empty) by {
                if last_empty {
                    assert(q =~= seq!['.']);
                }
                if q == seq!['.'] {
                    assert(q.len() == 1);
                }
            }
            assert(segments_trivial(segs) <==> segments_trivial(p) && last_empty) by {
                if segments_trivial(segs) {
                    assert(segs[p.len() - 1] == q);
                    assert forall|i: int| 0 <= i < p.len() implies (#[trigger] p[i]).len() == 0 || p[i] == seq!['.'] by {
                        if i < p.len() - 1 {
                            assert(segs[i] == p[i]);
                        } else {
                            assert(p[i] == p.last());
                        }
                    }
                }
                if segments_trivial(p) && last_empty {
                    assert forall|i: int| 0 <= i < segs.len() implies (#[trigger] segs[i]).len() == 0 || segs[i] == seq!['.'] by {
                        if i < p.len() - 1 {
                            assert(segs[i] == p[i]);
                        }
                    }
                }
            }
            assert(root_tail(s) <==> root_tail(t) && t.last() == '/') by {
                if root_tail(s) {
                    assert(s[n] == '.');
                    assert(s[n - 1] == '/');
                    assert forall|i: int| 0 < i < t.len() implies (#[trigger] t[i] == '/' || (t[i] == '.' && t[i - 1] == '/'
                        && (i + 1 == t.len() || t[i + 1] == '/'))) by {
                        assert(s[i] == '/' || (s[i] == '.' && s[i - 1] == '/' && (i + 1 == s.len() || s[i + 1] == '/')));
                    }
                }
                if root_tail(t) && t.last() == '/' {
                    assert forall|i: int| 0 < i < s.len() implies (#[trigger] s[i] == '/' || (s[i] == '.' && s[i - 1] == '/'
                        && (i + 1 == s.len() || s[i + 1] == '/'))) by {
                        if i < n {
                            assert(t[i] == '/' || (t[i] == '.' && t[i - 1] == '/' && (i + 1 == t.len() || t[i + 1] == '/')));
                            if i == n - 1 {
                                assert(t[i] == '/');
                            }
                        } else {
                            assert(s[i - 1] == t[n - 1]);
                        }
                    }
                }
            }
        } else {
            let q = p.last().push(c);
            assert(segs == p.update(p.len() - 1, q));
            assert(segs[p.len() - 1] == q);
            assert(q[q.len() - 1] == c);
            assert(q != seq!['.']);
            assert(!root_tail(s)) by {
                assert(s[n] == c);
            }
        }
    }
}

/// `names_root_dir` is what Rust's `Path::new(p) == Path::new("/")` says:
/// the path's only component is the root directory.
pub proof fn lemma_names_root_dir_components(p: Seq<char>)
    ensures
        names_root_dir(p) <==> path_components(p) == seq![PathComponent::RootDir],
{
    let segs = path_segments(p);
    lemma_segment_components_empty(segs);
    lemma_last_segment(p);
    let sc = segment_components(segs);
    if p.len() > 0 && p[0] == '/' {
        lemma_root_tail_segments(p);
        assert(path_components(p) == seq![PathComponent::RootDir] + sc);
        if sc.len() == 0 {
            assert(seq![PathComponent::RootDir] + sc =~= seq![PathComponent::RootDir]);
        } else {
            assert((seq![PathComponent::RootDir] + sc).len() > 1);
        }
        assert(names_root_dir(p) == root_tail(p));
    } else {
        assert(!names_root_dir(p));
        if path_components(p) == seq![PathComponent::RootDir] {
            if segs[0] == seq!['.'] {
                assert(path_components(p)[0] == PathComponent::CurDir);
            } else {
                assert(path_components(p) == sc);
                assert(!(sc[0] is RootDir));
            }
        }
    }
}

} // verus!
