//! Heights of a tracked chain, ordered by revision and then by block.

use vstd::prelude::*;

verus! {

/// A position in a chain's history: a revision number and a block height
/// within that revision.
#[derive(Clone, Copy, Debug, PartialEq, Eq, Structural, Hash)]
pub struct Height {
    pub revision_number: u64,
    pub revision_height: u64,
}

/// Why a height could not be built.
#[derive(Clone, Copy, Debug, PartialEq, Eq, Structural)]
pub enum HeightError {
    /// A height's block number within its revision starts at one.
    ZeroHeight,
}

/// The strict order on heights: by revision number, then by block height.
pub open spec fn height_lt(a: Height, b: Height) -> bool {
    a.revision_number < b.revision_number || (a.revision_number == b.revision_number
        && a.revision_height < b.revision_height)
}

/// The order on heights with equality included.
pub open spec fn height_le(a: Height, b: Height) -> bool {
    height_lt(a, b) || a == b
}

impl Height {
    /// A height with a nonzero block number; zero is refused.
    pub fn new(revision_number: u64, revision_height: u64) -> (r: Result<Height, HeightError>)
        ensures
            revision_height == 0 ==> r == Err::<Height, HeightError>(HeightError::ZeroHeight),
            revision_height != 0 ==> r == Ok::<Height, HeightError>(
                Height { revision_number, revision_height },
            ),
    {
        if revision_height == 0 {
            Err(HeightError::ZeroHeight)
        } else {
            Ok(Height { revision_number, revision_height })
        }
    }

    /// Whether this height comes strictly before `other`.
    pub fn is_before(&self, other: &Height) -> (r: bool)
        ensures
            r == height_lt(*self, *other),
    {
        self.revision_number < other.revision_number || (self.revision_number
            == other.revision_number && self.revision_height < other.revision_height)
    }

    /// Whether this height comes before `other` or equals it.
    pub fn is_at_or_before(&self, other: &Height) -> (r: bool)
        ensures
            r == height_le(*self, *other),
    {
        self.is_before(other) || (self.revision_number == other.revision_number
            && self.revision_height == other.revision_height)
    }
}

} // verus!
