use vstd::prelude::*;
use crate::map::{TextMap, pairs_insert, text_pairs, lemma_text_pairs_insert};
use crate::path::inputs_view;
use crate::pb;
use crate::text::StrLike;
use crate::utils::OperationOutput;

verus! {

/// Merges the layers of several operations into a single output. This is
/// what a Dockerfile's `COPY --link` becomes: the copy runs on an independent
/// layer which is then merged on top of the previous state, so that layer
/// stays cacheable independently of the base.
#[derive(Debug)]
pub struct MergeOperation {
    inputs: Vec<OperationOutput>,
    description: TextMap<String>,
    ignore_cache: bool,
}

/// The abstract content of a [`MergeOperation`].
pub struct MergeOperationView {
    /// Each merged layer: the digest of its node and its output index.
    pub inputs: Seq<(Seq<char>, int)>,
    pub description: Seq<(Seq<char>, Seq<char>)>,
    pub ignore_cache: bool,
}

/// The node digest and output index of each operation output.
pub open spec fn outputs_view(v: Seq<OperationOutput>) -> Seq<(Seq<char>, int)> {
    v.map_values(|o: OperationOutput| (o.digest@, o.output.0 as int))
}

impl View for MergeOperation {
    type V = MergeOperationView;

    closed spec fn view(&self) -> MergeOperationView {
        MergeOperationView {
            inputs: outputs_view(self.inputs@),
            description: text_pairs(self.description.pairs()),
            ignore_cache: self.ignore_cache,
        }
    }
}

/// Whether `m` merges the operation's inputs in their order: entry `i` names input `i`.
pub open spec fn merges_inputs_in_order(m: pb::MergeOp, n: int) -> bool {
    &&& m.inputs@.len() == n
    &&& forall|i: int| 0 <= i < n ==> #[trigger] m.inputs@[i].input == i
}

impl MergeOperation {
    /// A merge of the given outputs, in order: later inputs are layered on
    /// top of earlier ones. No description, cache not ignored.
    pub fn new(inputs: Vec<OperationOutput>) -> (r: MergeOperation)
        ensures
            r@.inputs == outputs_view(inputs@),
            r@.description == Seq::<(Seq<char>, Seq<char>)>::empty(),
            !r@.ignore_cache,
    {
        MergeOperation { inputs, description: TextMap::new(), ignore_cache: false }
    }

    /// Sets the name shown for the operation (description key `llb.customname`).
    pub fn custom_name<T: StrLike>(self, name: T) -> (r: MergeOperation)
        ensures
            r@.inputs == self@.inputs,
            r@.ignore_cache == self@.ignore_cache,
            r@.description == pairs_insert(self@.description, "llb.customname"@, name.str_view()),
    {
        let mut description = self.description;
        let value = name.to_owned_string();
        let key = "llb.customname".to_owned();
        proof {
            lemma_text_pairs_insert(description.pairs(), key@, value);
        }
        description.insert(key, value);
        MergeOperation { inputs: self.inputs, description, ignore_cache: self.ignore_cache }
    }

    /// Whether the build cache is bypassed for this operation.
    pub fn ignore_cache(self, ignore: bool) -> (r: MergeOperation)
        ensures
            r@.inputs == self@.inputs,
            r@.description == self@.description,
            r@.ignore_cache == ignore,
    {
        MergeOperation { ignore_cache: ignore, ..self }
    }

    /// The definition node of the merge: one input per merged output, in
    /// order, a merge op naming them by position, and metadata carrying the
    /// description, the cache flag and the `mergeop` capability.
    pub fn serialize(&self) -> (r: pb::Node)
        requires
            self@.inputs.len() <= i64::MAX,
        ensures
            inputs_view(r.head.inputs@) == self@.inputs,
            r.head.op matches Some(pb::OpKind::Merge(m)) && merges_inputs_in_order(m, self@.inputs.len() as int),
            r.head.platform is None,
            text_pairs(r.metadata.description.pairs()) == self@.description,
            r.metadata.ignore_cache == self@.ignore_cache,
            r.metadata.caps.pairs() == seq![("mergeop"@, true)],
    {
        let mut inputs: Vec<pb::Input> = Vec::new();
        let mut merge_inputs: Vec<pb::MergeInput> = Vec::new();
        let mut index: usize = 0;
        while index < self.inputs.len()
            invariant
                index <= self.inputs@.len(),
                self.inputs@.len() <= i64::MAX,
                inputs@.len() == index,
                forall|i: int| 0 <= i < index ==> #[trigger] inputs@[i].digest@ == self.inputs@[i].digest@
                    && inputs@[i].index == self.inputs@[i].output.0,
                merge_inputs@.len() == index,
                forall|i: int| 0 <= i < index ==> #[trigger] merge_inputs@[i].input == i,
            decreases self.inputs@.len() - index,
        {
            let input = &self.inputs[index];
            inputs.push(pb::Input { digest: input.digest.clone(), index: input.output.as_i64() });
            merge_inputs.push(pb::MergeInput { input: index as i64 });
            assert(inputs@[index as int].digest@ == self.inputs@[index as int].digest@);
            assert(inputs@[index as int].index == self.inputs@[index as int].output.0);
            index = index + 1;
        }
        assert(inputs_view(inputs@) =~= outputs_view(self.inputs@));
        let head = pb::Op {
            inputs,
            op: Some(pb::OpKind::Merge(pb::MergeOp { inputs: merge_inputs })),
            platform: None,
        };
        let mut caps: TextMap<bool> = TextMap::new();
        caps.insert("mergeop".to_owned(), true);
        proof {
            reveal_strlit("mergeop");
            assert(caps.pairs() =~= seq![("mergeop"@, true)]);
        }
        let metadata = pb::OpMetadata {
            ignore_cache: self.ignore_cache,
            description: self.description.duplicate(),
            caps,
        };
        pb::Node { head, metadata }
    }
}

} // verus!
