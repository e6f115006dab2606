use vstd::prelude::*;

verus! {

/// Index of an output of another operation.
#[derive(Clone, Copy, Debug, PartialEq, Eq, Structural)]
pub struct OutputIdx(pub u32);

/// Index of an output produced by the operation itself.
#[derive(Clone, Copy, Debug, PartialEq, Eq, Structural)]
pub struct OwnOutputIdx(pub u32);

impl OutputIdx {
    /// The index as a protobuf `int64`.
    pub fn as_i64(self) -> (r: i64)
        ensures
            r == self.0,
    {
        self.0 as i64
    }

    /// The index as a protobuf `int32`.
    pub fn as_i32(self) -> (r: i32)
        requires
            self.0 <= i32::MAX,
        ensures
            r == self.0,
    {
        self.0 as i32
    }
}

impl OwnOutputIdx {
    /// The index as a protobuf `int64`.
    pub fn as_i64(self) -> (r: i64)
        ensures
            r == self.0,
    {
        self.0 as i64
    }

    /// The index as a protobuf `int32`.
    pub fn as_i32(self) -> (r: i32)
        requires
            self.0 <= i32::MAX,
        ensures
            r == self.0,
    {
        self.0 as i32
    }
}

/// One output of an operation of the graph. The operation is identified by
/// the digest of its serialized definition node.
#[derive(Clone, Debug)]
pub struct OperationOutput {
    pub digest: String,
    pub output: OutputIdx,
}

impl OperationOutput {
    /// Output `output` of the operation whose node has digest `digest`.
    pub fn new(digest: String, output: OutputIdx) -> (r: Self)
        ensures
            r.digest@ == digest@,
            r.output == output,
    {
        OperationOutput { digest, output }
    }

    /// Which output of the operation this is.
    pub fn output(&self) -> (r: OutputIdx)
        ensures
            r == self.output,
    {
        self.output
    }
}

} // verus!
