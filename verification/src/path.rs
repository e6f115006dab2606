use vstd::prelude::*;
use crate::pb;
use crate::text::StrLike;
use crate::utils::{OperationOutput, OwnOutputIdx};

verus! {

/// Marker for a copy endpoint that has not been chosen yet.
#[derive(Debug, Clone, Copy, PartialEq, Eq, Structural)]
pub struct UnsetPath;

/// A path inside a layer: the output of another operation, an output of the
/// operation itself, or an empty scratch layer.
#[derive(Debug, Clone)]
pub enum LayerPath<P> {
    Other(OperationOutput, P),
    Own(OwnOutputIdx, P),
    Scratch(P),
}

/// The abstract content of a [`LayerPath`].
pub enum LayerPathView {
    Other { digest: Seq<char>, output: u32, path: Seq<char> },
    Own { output: u32, path: Seq<char> },
    Scratch { path: Seq<char> },
}

impl<P: StrLike> View for LayerPath<P> {
    type V = LayerPathView;

    open spec fn view(&self) -> LayerPathView {
        match self {
            LayerPath::Other(op, p) => LayerPathView::Other {
                digest: op.digest@,
                output: op.output.0,
                path: p.str_view(),
            },
            LayerPath::Own(idx, p) => LayerPathView::Own { output: idx.0, path: p.str_view() },
            LayerPath::Scratch(p) => LayerPathView::Scratch { path: p.str_view() },
        }
    }
}

impl LayerPathView {
    /// The path inside the layer.
    pub open spec fn path(self) -> Seq<char> {
        match self {
            LayerPathView::Other { path, .. } => path,
            LayerPathView::Own { path, .. } => path,
            LayerPathView::Scratch { path } => path,
        }
    }
}

impl LayerPathView {
    /// The definition inputs that reading this layer needs: the output of the
    /// other operation for `Other`, nothing otherwise. Each is a node digest and an output index.
    pub open spec fn node_inputs(self) -> Seq<(Seq<char>, int)> {
        match self {
            LayerPathView::Other { digest, output, .. } => seq![(digest, output as int)],
            _ => Seq::empty(),
        }
    }
}

/// The abstract content of a definition input: node digest and output index.
pub open spec fn input_view(i: pb::Input) -> (Seq<char>, int) {
    (i.digest@, i.index as int)
}

/// The abstract content of a list of definition inputs.
pub open spec fn inputs_view(v: Seq<pb::Input>) -> Seq<(Seq<char>, int)> {
    v.map_values(|i: pb::Input| input_view(i))
}

impl<P: StrLike> LayerPath<P> {
    /// Appends to `inputs` the definition input that reading this layer needs, if any.
    pub fn push_node_input(&self, inputs: &mut Vec<pb::Input>)
        ensures
            inputs_view(final(inputs)@) == inputs_view(old(inputs)@) + self@.node_inputs(),
    {
        let ghost before = inputs@;
        match self {
            LayerPath::Other(op, _) => {
                inputs.push(pb::Input { digest: op.digest.clone(), index: op.output.as_i64() });
            },
            _ => {},
        }
        assert(inputs_view(inputs@) =~= inputs_view(before) + self@.node_inputs());
    }

    /// The same layer path with an owned path string.
    pub fn into_owned(self) -> (r: LayerPath<String>)
        ensures
            r@ == self@,
    {
        match self {
            LayerPath::Other(op, p) => LayerPath::Other(op, p.to_owned_string()),
            LayerPath::Own(idx, p) => LayerPath::Own(idx, p.to_owned_string()),
            LayerPath::Scratch(p) => LayerPath::Scratch(p.to_owned_string()),
        }
    }
}

} // verus!
