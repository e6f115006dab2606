use vstd::prelude::*;
use crate::copy::{OpWithDestination, copy_destination_index, copy_source_index};
use crate::mkdir::{MakeDirOperation, mkdir_input_index};
use crate::path::LayerPathView;

verus! {

/// One step of a sequence of file operations.
#[derive(Debug)]
pub enum FileOperationItem {
    Copy(OpWithDestination),
    MakeDir(MakeDirOperation),
}

/// A sequence of file operations that run one after the other in a single node.
#[derive(Debug)]
pub struct SequenceOperation {
    items: Vec<FileOperationItem>,
}

impl SequenceOperation {
    /// The steps, in order.
    pub closed spec fn items(&self) -> Seq<FileOperationItem> {
        self.items@
    }

    /// The empty sequence.
    pub fn new() -> (r: SequenceOperation)
        ensures
            r.items() == Seq::<FileOperationItem>::empty(),
    {
        SequenceOperation { items: Vec::new() }
    }

    /// The sequence with `item` added as its last step.
    pub fn append(self, item: FileOperationItem) -> (r: SequenceOperation)
        ensures
            r.items() == self.items().push(item),
    {
        let mut items = self.items;
        items.push(item);
        SequenceOperation { items }
    }

    /// The number of steps.
    pub fn len(&self) -> (n: usize)
        ensures
            n == self.items().len(),
    {
        self.items.len()
    }

    /// The step at position `i`.
    pub fn item(&self, i: usize) -> (r: &FileOperationItem)
        requires
            i < self.items().len(),
        ensures
            *r == self.items()[i as int],
    {
        &self.items[i]
    }
}

/// An own output of the sequence has one index, the same in every action
/// that names it: `inputs_count + output`, past the sequence's inputs. It
/// does not depend on where the action's own inputs start, on which other
/// layer a copy reads or writes, or on whether the action is a copy source,
/// a copy destination or a directory creation.
pub proof fn lemma_own_output_index(
    output: u32,
    path_a: Seq<char>,
    path_b: Seq<char>,
    other: LayerPathView,
    inputs_count: int,
    offset_a: int,
    offset_b: int,
)
    ensures
        copy_source_index(LayerPathView::Own { output, path: path_a }, inputs_count, offset_a) == inputs_count + output,
        copy_destination_index(LayerPathView::Own { output, path: path_a }, other, inputs_count, offset_a)
            == inputs_count + output,
        mkdir_input_index(LayerPathView::Own { output, path: path_a }, inputs_count, offset_a) == inputs_count + output,
        copy_destination_index(LayerPathView::Own { output, path: path_a }, other, inputs_count, offset_a)
            == mkdir_input_index(LayerPathView::Own { output, path: path_b }, inputs_count, offset_b),
        copy_source_index(LayerPathView::Own { output, path: path_a }, inputs_count, offset_a)
            == copy_destination_index(LayerPathView::Own { output, path: path_b }, other, inputs_count, offset_b),
{
}

} // verus!
