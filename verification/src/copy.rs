use vstd::prelude::*;
use crate::map::{TextMap, text_pairs};
use crate::path::{LayerPath, LayerPathView, UnsetPath, inputs_view};
use crate::pb;
use crate::sequence::{FileOperationItem, SequenceOperation};
use crate::text::StrLike;
use crate::utils::OutputIdx;

verus! {

/// A file copy between layers, built step by step: first the options, then
/// the source (`from`), then the destination (`to`).
#[derive(Debug)]
pub struct CopyOperation<S, D> {
    source: S,
    destination: D,
    follow_symlinks: bool,
    recursive: bool,
    create_path: bool,
    wildcard: bool,
    mode: i32,
    mode_str: String,
    owner: Option<pb::ChownOpt>,
    include_patterns: Vec<String>,
    exclude_patterns: Vec<String>,
    unpack: bool,
    description: TextMap<String>,
    caps: TextMap<bool>,
}

/// A copy that has neither a source nor a destination yet.
pub type OpWithoutSource = CopyOperation<UnsetPath, UnsetPath>;

/// A copy with a source but no destination yet.
pub type OpWithSource = CopyOperation<LayerPath<String>, UnsetPath>;

/// A complete copy: source, and destination with the index of the output it produces.
pub type OpWithDestination = CopyOperation<LayerPath<String>, (OutputIdx, LayerPath<String>)>;

/// The abstract content of a [`CopyOperation`].
pub struct CopyOperationView<S, D> {
    pub source: S,
    pub destination: D,
    pub follow_symlinks: bool,
    pub recursive: bool,
    pub create_path: bool,
    pub wildcard: bool,
    pub mode: i32,
    pub mode_str: Seq<char>,
    pub owner: Option<pb::ChownOpt>,
    pub include_patterns: Seq<Seq<char>>,
    pub exclude_patterns: Seq<Seq<char>>,
    pub unpack: bool,
    pub description: Seq<(Seq<char>, Seq<char>)>,
    pub caps: Seq<(Seq<char>, bool)>,
}

/// The characters of each string of a list.
pub open spec fn strings_view(v: Seq<String>) -> Seq<Seq<char>> {
    v.map_values(|s: String| s@)
}

impl<S, D> CopyOperationView<S, D> {
    /// Whether every option (all but the source and the destination) is the same in `other`.
    pub open spec fn same_options<S2, D2>(self, other: CopyOperationView<S2, D2>) -> bool {
        &&& self.follow_symlinks == other.follow_symlinks
        &&& self.recursive == other.recursive
        &&& self.create_path == other.create_path
        &&& self.wildcard == other.wildcard
        &&& self.mode == other.mode
        &&& self.mode_str == other.mode_str
        &&& self.owner == other.owner
        &&& self.include_patterns == other.include_patterns
        &&& self.exclude_patterns == other.exclude_patterns
        &&& self.unpack == other.unpack
        &&& self.description == other.description
        &&& self.caps == other.caps
    }

    /// The copy with the symlink-following flag replaced.
    pub open spec fn with_follow_symlinks(self, value: bool) -> Self {
        CopyOperationView { follow_symlinks: value, ..self }
    }

    /// The copy with the recursion flag replaced.
    pub open spec fn with_recursive(self, value: bool) -> Self {
        CopyOperationView { recursive: value, ..self }
    }

    /// The copy with the path-creation flag replaced.
    pub open spec fn with_create_path(self, value: bool) -> Self {
        CopyOperationView { create_path: value, ..self }
    }

    /// The copy with the wildcard flag replaced.
    pub open spec fn with_wildcard(self, value: bool) -> Self {
        CopyOperationView { wildcard: value, ..self }
    }

    /// The copy with the mode replaced.
    pub open spec fn with_mode(self, mode: i32) -> Self {
        CopyOperationView { mode, ..self }
    }

    /// The copy with the mode string replaced.
    pub open spec fn with_mode_str(self, mode_str: Seq<char>) -> Self {
        CopyOperationView { mode_str, ..self }
    }

    /// The copy with the owner replaced.
    pub open spec fn with_owner(self, owner: pb::ChownOpt) -> Self {
        CopyOperationView { owner: Some(owner), ..self }
    }

    /// The copy with the include patterns replaced.
    pub open spec fn with_include_patterns(self, patterns: Seq<Seq<char>>) -> Self {
        CopyOperationView { include_patterns: patterns, ..self }
    }

    /// The copy with the exclude patterns replaced.
    pub open spec fn with_exclude_patterns(self, patterns: Seq<Seq<char>>) -> Self {
        CopyOperationView { exclude_patterns: patterns, ..self }
    }

    /// The copy with the unpack flag replaced.
    pub open spec fn with_unpack(self, value: bool) -> Self {
        CopyOperationView { unpack: value, ..self }
    }
}

/// The capabilities that every file operation needs.
pub open spec fn file_base_caps() -> Seq<(Seq<char>, bool)> {
    seq![("file.base"@, true)]
}

impl<S, D> View for CopyOperation<S, D> {
    type V = CopyOperationView<S, D>;

    closed spec fn view(&self) -> CopyOperationView<S, D> {
        CopyOperationView {
            source: self.source,
            destination: self.destination,
            follow_symlinks: self.follow_symlinks,
            recursive: self.recursive,
            create_path: self.create_path,
            wildcard: self.wildcard,
            mode: self.mode,
            mode_str: self.mode_str@,
            owner: self.owner,
            include_patterns: strings_view(self.include_patterns@),
            exclude_patterns: strings_view(self.exclude_patterns@),
            unpack: self.unpack,
            description: text_pairs(self.description.pairs()),
            caps: self.caps.pairs(),
        }
    }
}

/// The owned strings of a list of texts.
fn owned_strings<T: StrLike>(items: Vec<T>) -> (r: Vec<String>)
    ensures
        strings_view(r@) == items@.map_values(|t: T| t.str_view()),
{
    let mut r: Vec<String> = Vec::new();
    let mut i: usize = 0;
    while i < items.len()
        invariant
            i <= items@.len(),
            r@.len() == i,
            forall|j: int| 0 <= j < i ==> #[trigger] r@[j]@ == items@[j].str_view(),
        decreases items@.len() - i,
    {
        r.push(items[i].to_owned_string());
        i = i + 1;
    }
    assert(strings_view(r@) =~= items@.map_values(|t: T| t.str_view()));
    r
}

impl CopyOperation<UnsetPath, UnsetPath> {
    /// A copy with default options: no symlink following, no recursion, no
    /// path creation, no wildcards, source mode kept (`-1`), no owner
    /// override, no patterns, no unpacking; it needs the `file.base` capability.
    pub fn new() -> (r: OpWithoutSource)
        ensures
            r@.source == UnsetPath,
            r@.destination == UnsetPath,
            !r@.follow_symlinks,
            !r@.recursive,
            !r@.create_path,
            !r@.wildcard,
            r@.mode == -1,
            r@.mode_str == Seq::<char>::empty(),
            r@.owner == None::<pb::ChownOpt>,
            r@.include_patterns == Seq::<Seq<char>>::empty(),
            r@.exclude_patterns == Seq::<Seq<char>>::empty(),
            !r@.unpack,
            r@.description == Seq::<(Seq<char>, Seq<char>)>::empty(),
            r@.caps == file_base_caps(),
    {
        let mut caps: TextMap<bool> = TextMap::new();
        caps.insert("file.base".to_owned(), true);
        let r = CopyOperation {
            source: UnsetPath,
            destination: UnsetPath,
            follow_symlinks: false,
            recursive: false,
            create_path: false,
            wildcard: false,
            mode: -1,
            mode_str: String::new(),
            owner: None,
            include_patterns: Vec::new(),
            exclude_patterns: Vec::new(),
            unpack: false,
            description: TextMap::new(),
            caps,
        };
        proof {
            reveal_strlit("file.base");
            assert(r@.caps =~= file_base_caps());
            assert(r@.include_patterns =~= Seq::<Seq<char>>::empty());
            assert(r@.exclude_patterns =~= Seq::<Seq<char>>::empty());
            assert(r@.description =~= Seq::<(Seq<char>, Seq<char>)>::empty());
        }
        r
    }

    /// Chooses the source of the copy; every option is kept.
    pub fn from<P: StrLike>(self, source: LayerPath<P>) -> (r: OpWithSource)
        ensures
            r@.source@ == source@,
            r@.destination == UnsetPath,
            r@.same_options(self@),
    {
        CopyOperation {
            source: source.into_owned(),
            destination: UnsetPath,
            follow_symlinks: self.follow_symlinks,
            recursive: self.recursive,
            create_path: self.create_path,
            wildcard: self.wildcard,
            mode: self.mode,
            mode_str: self.mode_str,
            owner: self.owner,
            include_patterns: self.include_patterns,
            exclude_patterns: self.exclude_patterns,
            unpack: self.unpack,
            description: self.description,
            caps: self.caps,
        }
    }
}

impl CopyOperation<LayerPath<String>, UnsetPath> {
    /// Chooses the destination of the copy and the index of the output it
    /// produces; the source and every option are kept.
    pub fn to<P: StrLike>(self, output: OutputIdx, destination: LayerPath<P>) -> (r: OpWithDestination)
        ensures
            r@.source == self@.source,
            r@.destination.0 == output,
            r@.destination.1@ == destination@,
            r@.same_options(self@),
    {
        CopyOperation {
            source: self.source,
            destination: (output, destination.into_owned()),
            follow_symlinks: self.follow_symlinks,
            recursive: self.recursive,
            create_path: self.create_path,
            wildcard: self.wildcard,
            mode: self.mode,
            mode_str: self.mode_str,
            owner: self.owner,
            include_patterns: self.include_patterns,
            exclude_patterns: self.exclude_patterns,
            unpack: self.unpack,
            description: self.description,
            caps: self.caps,
        }
    }
}

/// Index of the layer a copy reads from: `-1` for scratch, the first input
/// slot of this action for another operation's output, and the own output
/// shifted past the `inputs_count` inputs of the sequence for an own output.
pub open spec fn copy_source_index(src: LayerPathView, inputs_count: int, inputs_offset: int) -> int {
    match src {
        LayerPathView::Scratch { .. } => -1,
        LayerPathView::Other { .. } => inputs_offset,
        LayerPathView::Own { output, .. } => inputs_count + output,
    }
}

/// Index of the layer a copy writes into. Another operation's output takes
/// the input slot after the source's, if the source took one.
pub open spec fn copy_destination_index(
    dst: LayerPathView,
    src: LayerPathView,
    inputs_count: int,
    inputs_offset: int,
) -> int {
    match dst {
        LayerPathView::Scratch { .. } => -1,
        LayerPathView::Other { .. } => inputs_offset + (if src is Other { 1int } else { 0int }),
        LayerPathView::Own { output, .. } => inputs_count + output,
    }
}

/// Whether the index arithmetic of a copy's action stays within protobuf's integer fields.
pub open spec fn copy_indices_fit(
    src: LayerPathView,
    dst: LayerPathView,
    inputs_count: int,
    inputs_offset: int,
) -> bool {
    &&& (src is Other ==> inputs_offset <= i64::MAX)
    &&& (src matches LayerPathView::Own { output, .. } ==> inputs_count + output <= i64::MAX)
    &&& (dst is Other ==> inputs_offset + (if src is Other { 1int } else { 0int }) <= i32::MAX)
    &&& (dst matches LayerPathView::Own { output, .. } ==> inputs_count + output <= i32::MAX)
}

/// A copy's action names its inputs where its `serialize_inputs` put them:
/// when those inputs sit at `offset` among the inputs of the whole sequence,
/// the source index of the action picks the source layer's input and the
/// destination index the destination layer's.
pub proof fn lemma_copy_action_addresses_inputs(
    src: LayerPathView,
    dst: LayerPathView,
    inputs: Seq<(Seq<char>, int)>,
    count: int,
    offset: int,
)
    requires
        0 <= offset,
        offset + (src.node_inputs() + dst.node_inputs()).len() <= inputs.len(),
        inputs.subrange(offset, offset + (src.node_inputs() + dst.node_inputs()).len())
            == src.node_inputs() + dst.node_inputs(),
    ensures
        src is Other ==> inputs[copy_source_index(src, count, offset)] == src.node_inputs()[0],
        dst is Other ==> inputs[copy_destination_index(dst, src, count, offset)] == dst.node_inputs()[0],
{
    let own = src.node_inputs() + dst.node_inputs();
    let n = own.len() as int;
    assert forall|j: int| 0 <= j < n implies #[trigger] inputs[offset + j] == own[j] by {
        assert(inputs.subrange(offset, offset + n)[j] == inputs[offset + j]);
    }
    if src is Other {
        assert(own[0] == src.node_inputs()[0]);
        assert(inputs[offset + 0] == own[0]);
    }
    if dst is Other {
        let k = src.node_inputs().len() as int;
        assert(own[k] == dst.node_inputs()[0]);
        assert(inputs[offset + k] == own[k]);
    }
}

impl CopyOperation<LayerPath<String>, (OutputIdx, LayerPath<String>)> {
    /// A sequence whose only step is this copy.
    pub fn into_operation(self) -> (r: SequenceOperation)
        ensures
            r.items() == seq![FileOperationItem::Copy(self)],
    {
        SequenceOperation::new().append(FileOperationItem::Copy(self))
    }

    /// Index of the output the copy produces.
    pub fn output(&self) -> (r: i32)
        requires
            self@.destination.0.0 <= i32::MAX,
        ensures
            r == self@.destination.0.0,
    {
        self.destination.0.as_i32()
    }

    /// The definition inputs the copy needs: the source layer's (if it is
    /// another operation's output), then the destination layer's.
    pub fn serialize_inputs(&self) -> (r: Vec<pb::Input>)
        ensures
            inputs_view(r@) == self@.source@.node_inputs() + self@.destination.1@.node_inputs(),
    {
        let mut inputs: Vec<pb::Input> = Vec::new();
        assert(inputs_view(inputs@) =~= Seq::empty());
        self.source.push_node_input(&mut inputs);
        self.destination.1.push_node_input(&mut inputs);
        inputs
    }

    /// The file action of the copy, inside a sequence whose actions take
    /// `inputs_count` inputs in all, this action's first input being at
    /// `inputs_offset`.
    pub fn serialize_action(&self, inputs_count: usize, inputs_offset: usize) -> (r: pb::FileAction)
        requires
            self@.destination.0.0 <= i32::MAX,
            copy_indices_fit(self@.source@, self@.destination.1@, inputs_count as int, inputs_offset as int),
        ensures
            r.input == copy_destination_index(
                self@.destination.1@,
                self@.source@,
                inputs_count as int,
                inputs_offset as int,
            ),
            r.secondary_input == copy_source_index(self@.source@, inputs_count as int, inputs_offset as int),
            self@.source@ is Scratch ==> r.secondary_input == -1,
            self@.source@ is Other ==> r.secondary_input == inputs_offset,
            self@.source@ matches LayerPathView::Own { output, .. } ==> r.secondary_input == inputs_count + output,
            self@.destination.1@ is Scratch ==> r.input == -1,
            self@.destination.1@ is Other ==> r.input == inputs_offset + (if self@.source@ is Other { 1int } else { 0int }),
            self@.destination.1@ matches LayerPathView::Own { output, .. } ==> r.input == inputs_count + output,
            r.output == self@.destination.0.0,
            r.action matches Some(pb::FileActionKind::Copy(c)) && {
                &&& c.src@ == self@.source@.path()
                &&& c.dest@ == self@.destination.1@.path()
                &&& c.follow_symlink == self@.follow_symlinks
                &&& c.dir_copy_contents == self@.recursive
                &&& c.create_dest_path == self@.create_path
                &&& c.allow_wildcard == self@.wildcard
                &&& c.owner == self@.owner
                &&& c.mode == self@.mode
                &&& c.mode_str@ == self@.mode_str
                &&& c.attempt_unpack_docker_compatibility == self@.unpack
                &&& strings_view(c.include_patterns@) == self@.include_patterns
                &&& strings_view(c.exclude_patterns@) == self@.exclude_patterns
                &&& c.timestamp == -1
                &&& !c.allow_empty_wildcard
                &&& !c.always_replace_existing_dest_paths
            },
    {
        let (src_idx, src_offset, src): (i64, i32, String) = match &self.source {
            LayerPath::Scratch(path) => (-1, 0, path.clone()),
            LayerPath::Other(_, path) => (inputs_offset as i64, 1, path.clone()),
            LayerPath::Own(output, path) => {
                let output: i64 = output.as_i64();
                (inputs_count as i64 + output, 0, path.clone())
            },
        };
        let (dest_idx, dest): (i32, String) = match &self.destination.1 {
            LayerPath::Scratch(path) => (-1, path.clone()),
            LayerPath::Other(_, path) => (inputs_offset as i32 + src_offset, path.clone()),
            LayerPath::Own(output, path) => {
                let output: i32 = output.as_i32();
                (inputs_count as i32 + output, path.clone())
            },
        };
        pb::FileAction {
            input: dest_idx as i64,
            secondary_input: src_idx,
            output: self.output() as i64,
            action: Some(
                pb::FileActionKind::Copy(
                    pb::FileActionCopy {
                        src,
                        dest,
                        owner: pb::duplicate_owner(&self.owner),
                        mode: self.mode,
                        follow_symlink: self.follow_symlinks,
                        dir_copy_contents: self.recursive,
                        attempt_unpack_docker_compatibility: self.unpack,
                        create_dest_path: self.create_path,
                        allow_wildcard: self.wildcard,
                        allow_empty_wildcard: false,
                        timestamp: -1,
                        include_patterns: pb::duplicate_strings(&self.include_patterns),
                        exclude_patterns: pb::duplicate_strings(&self.exclude_patterns),
                        always_replace_existing_dest_paths: false,
                        mode_str: self.mode_str.clone(),
                    },
                ),
            ),
        }
    }
}

impl<S, D> CopyOperation<S, D> {
    /// Whether symlinks in the source are followed.
    pub fn follow_symlinks(self, value: bool) -> (r: Self)
        ensures
            r@ == self@.with_follow_symlinks(value),
    {
        CopyOperation { follow_symlinks: value, ..self }
    }

    /// Whether the contents of a source directory are copied.
    pub fn recursive(self, value: bool) -> (r: Self)
        ensures
            r@ == self@.with_recursive(value),
    {
        CopyOperation { recursive: value, ..self }
    }

    /// Whether missing parent directories of the destination are created.
    pub fn create_path(self, value: bool) -> (r: Self)
        ensures
            r@ == self@.with_create_path(value),
    {
        CopyOperation { create_path: value, ..self }
    }

    /// Whether the source path may hold wildcards.
    pub fn wildcard(self, value: bool) -> (r: Self)
        ensures
            r@ == self@.with_wildcard(value),
    {
        CopyOperation { wildcard: value, ..self }
    }

    /// Overrides the permission bits of the copied files (`COPY --chmod`),
    /// e.g. `0o755`; `-1` keeps the source mode.
    pub fn chmod(self, mode: i32) -> (r: Self)
        ensures
            r@ == self@.with_mode(mode),
    {
        CopyOperation { mode, ..self }
    }

    /// Overrides the permissions of the copied files with a non-octal mode string.
    pub fn chmod_str<T: StrLike>(self, mode: T) -> (r: Self)
        ensures
            r@ == self@.with_mode_str(mode.str_view()),
    {
        CopyOperation { mode_str: mode.to_owned_string(), ..self }
    }

    /// Overrides the owner of the copied files (`COPY --chown`).
    pub fn chown(self, owner: pb::ChownOpt) -> (r: Self)
        ensures
            r@ == self@.with_owner(owner),
    {
        CopyOperation { owner: Some(owner), ..self }
    }

    /// Only copies files and directories matching at least one of these patterns.
    pub fn include_patterns<T: StrLike>(self, patterns: Vec<T>) -> (r: Self)
        ensures
            r@ == self@.with_include_patterns(patterns@.map_values(|t: T| t.str_view())),
    {
        CopyOperation { include_patterns: owned_strings(patterns), ..self }
    }

    /// Excludes files and directories matching any of these patterns (`COPY --exclude`).
    pub fn exclude_patterns<T: StrLike>(self, patterns: Vec<T>) -> (r: Self)
        ensures
            r@ == self@.with_exclude_patterns(patterns@.map_values(|t: T| t.str_view())),
    {
        CopyOperation { exclude_patterns: owned_strings(patterns), ..self }
    }

    /// Whether a source archive is unpacked into the destination (`ADD` behaviour).
    pub fn unpack(self, value: bool) -> (r: Self)
        ensures
            r@ == self@.with_unpack(value),
    {
        CopyOperation { unpack: value, ..self }
    }
}

} // verus!
