use vstd::prelude::*;

verus! {

/// Is this Data or a Hole?
#[derive(Clone, Copy, Debug, PartialEq, Eq, Structural)]
pub enum ItemKind {
    /// Represents actual bytes (as far as the file system knows)
    Data,
    /// The absence of bytes, taken to equal a zeroed area
    Hole,
}

impl ItemKind {
    /// The kind that follows this one in an alternating sequence.
    pub open spec fn spec_other(self) -> ItemKind {
        match self {
            ItemKind::Data => ItemKind::Hole,
            ItemKind::Hole => ItemKind::Data,
        }
    }

    /// The kind that follows this one in an alternating sequence.
    pub fn other(self) -> (r: ItemKind)
        ensures
            r == self.spec_other(),
            r != self,
    {
        match self {
            ItemKind::Data => ItemKind::Hole,
            ItemKind::Hole => ItemKind::Data,
        }
    }
}

/// A boundary observed in the file: from `offset` on, the file is of `kind` until the
/// next point.
#[derive(Clone, Copy, Debug, PartialEq, Eq, Structural)]
pub struct SparseItem {
    /// The kind of this point
    pub kind: ItemKind,
    /// The byte offset in the file where this point is located
    pub offset: u64,
}

/// A range of one kind, `[start, end)`.
#[derive(Clone, Copy, Debug, PartialEq, Eq, Structural)]
pub struct SparseRangeItem {
    /// The kind of this range
    pub kind: ItemKind,
    /// The byte offset in the file where this range begins (including this offset)
    pub start: u64,
    /// The byte offset in the file 1 after this range ends (ie: excluding this offset)
    pub end: u64,
}

/// Why an iteration stopped early.
#[derive(Clone, Copy, Debug, PartialEq, Eq, Structural)]
pub enum SparseError {
    /// The operating system reported this error code.
    Os(i32),
    /// An offset does not fit the signed offset type of the seek call.
    OffsetOverflow,
    /// An answer broke the seek contract: an offset that did not move forward, or no
    /// hole before end-of-file.
    Protocol,
}

} // verus!
