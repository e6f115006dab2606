use vstd::prelude::*;
use crate::path::{LayerPath, LayerPathView, inputs_view};
use crate::pb;
use crate::sequence::{FileOperationItem, SequenceOperation};
use crate::text::StrLike;
use crate::utils::OutputIdx;

verus! {

/// Creation of a directory inside a layer.
#[derive(Debug)]
pub struct MakeDirOperation {
    path: LayerPath<String>,
    output: OutputIdx,
    make_parents: bool,
    mode: i32,
    owner: Option<pb::ChownOpt>,
}

/// The abstract content of a [`MakeDirOperation`].
pub struct MakeDirOperationView {
    pub path: LayerPathView,
    pub output: OutputIdx,
    pub make_parents: bool,
    pub mode: i32,
    pub owner: Option<pb::ChownOpt>,
}

impl View for MakeDirOperation {
    type V = MakeDirOperationView;

    closed spec fn view(&self) -> MakeDirOperationView {
        MakeDirOperationView {
            path: self.path@,
            output: self.output,
            make_parents: self.make_parents,
            mode: self.mode,
            owner: self.owner,
        }
    }
}

/// Index of the layer a directory is created in: `-1` for scratch, the
/// action's input slot for another operation's output, and the own output
/// shifted past the `inputs_count` inputs of the sequence for an own output.
pub open spec fn mkdir_input_index(path: LayerPathView, inputs_count: int, inputs_offset: int) -> int {
    match path {
        LayerPathView::Scratch { .. } => -1,
        LayerPathView::Other { .. } => inputs_offset,
        LayerPathView::Own { output, .. } => inputs_count + output,
    }
}

/// The action of a directory creation names its input where its
/// `serialize_inputs` put it: when that input sits at `offset` among the
/// inputs of the whole sequence, the action's input index picks it.
pub proof fn lemma_mkdir_action_addresses_input(
    path: LayerPathView,
    inputs: Seq<(Seq<char>, int)>,
    count: int,
    offset: int,
)
    requires
        0 <= offset,
        offset + path.node_inputs().len() <= inputs.len(),
        inputs.subrange(offset, offset + path.node_inputs().len()) == path.node_inputs(),
    ensures
        path is Other ==> inputs[mkdir_input_index(path, count, offset)] == path.node_inputs()[0],
{
    if path is Other {
        assert(inputs.subrange(offset, offset + 1)[0] == inputs[offset]);
    }
}

impl MakeDirOperation {
    /// Creates directory `path`, producing output `output`; parents are not
    /// created, the mode is BuildKit's default (`-1`) and the owner is not overridden.
    pub fn new<P: StrLike>(output: OutputIdx, path: LayerPath<P>) -> (r: MakeDirOperation)
        ensures
            r@ == (MakeDirOperationView {
                path: path@,
                output,
                make_parents: false,
                mode: -1i32,
                owner: None,
            }),
    {
        MakeDirOperation {
            path: path.into_owned(),
            output,
            make_parents: false,
            mode: -1,
            owner: None,
        }
    }

    /// Whether missing parent directories are created too.
    pub fn make_parents(self, value: bool) -> (r: MakeDirOperation)
        ensures
            r@ == (MakeDirOperationView { make_parents: value, ..self@ }),
    {
        MakeDirOperation { make_parents: value, ..self }
    }

    /// Overrides the permission bits of the created directory, e.g. `0o755`;
    /// `-1` uses the BuildKit default.
    pub fn chmod(self, mode: i32) -> (r: MakeDirOperation)
        ensures
            r@ == (MakeDirOperationView { mode, ..self@ }),
    {
        MakeDirOperation { mode, ..self }
    }

    /// Overrides the owner of the created directory.
    pub fn chown(self, owner: pb::ChownOpt) -> (r: MakeDirOperation)
        ensures
            r@ == (MakeDirOperationView { owner: Some(owner), ..self@ }),
    {
        MakeDirOperation { owner: Some(owner), ..self }
    }

    /// A sequence whose only step is this directory creation.
    pub fn into_operation(self) -> (r: SequenceOperation)
        ensures
            r.items() == seq![FileOperationItem::MakeDir(self)],
    {
        SequenceOperation::new().append(FileOperationItem::MakeDir(self))
    }

    /// Index of the output the operation produces.
    pub fn output(&self) -> (r: i32)
        requires
            self@.output.0 <= i32::MAX,
        ensures
            r == self@.output.0,
    {
        self.output.as_i32()
    }

    /// The definition inputs the operation needs: the layer's, if it is
    /// another operation's output.
    pub fn serialize_inputs(&self) -> (r: Vec<pb::Input>)
        ensures
            inputs_view(r@) == self@.path.node_inputs(),
    {
        let mut inputs: Vec<pb::Input> = Vec::new();
        assert(inputs_view(inputs@) =~= Seq::empty());
        self.path.push_node_input(&mut inputs);
        inputs
    }

    /// The file action of the operation, inside a sequence whose actions take
    /// `inputs_count` inputs in all, this action's first input being at `inputs_offset`.
    pub fn serialize_action(&self, inputs_count: usize, inputs_offset: usize) -> (r: pb::FileAction)
        requires
            self@.output.0 <= i32::MAX,
            self@.path is Other ==> inputs_offset <= i64::MAX,
            self@.path matches LayerPathView::Own { output, .. } ==> inputs_count + output <= i64::MAX,
        ensures
            r.input == mkdir_input_index(self@.path, inputs_count as int, inputs_offset as int),
            self@.path is Scratch ==> r.input == -1,
            self@.path is Other ==> r.input == inputs_offset,
            self@.path matches LayerPathView::Own { output, .. } ==> r.input == inputs_count + output,
            r.secondary_input == -1,
            r.output == self@.output.0,
            r.action matches Some(pb::FileActionKind::Mkdir(m)) && {
                &&& m.path@ == self@.path.path()
                &&& m.make_parents == self@.make_parents
                &&& m.mode == self@.mode
                &&& m.owner == self@.owner
                &&& m.timestamp == -1
            },
    {
        let (src_idx, path): (i64, String) = match &self.path {
            LayerPath::Scratch(path) => (-1, path.clone()),
            LayerPath::Other(_, path) => (inputs_offset as i64, path.clone()),
            LayerPath::Own(output, path) => {
                let output: i64 = output.as_i64();
                (inputs_count as i64 + output, path.clone())
            },
        };
        pb::FileAction {
            input: src_idx,
            secondary_input: -1,
            output: self.output() as i64,
            action: Some(
                pb::FileActionKind::Mkdir(
                    pb::FileActionMkDir {
                        path,
                        mode: self.mode,
                        make_parents: self.make_parents,
                        owner: pb::duplicate_owner(&self.owner),
                        timestamp: -1,
                    },
                ),
            ),
        }
    }
}

} // verus!
