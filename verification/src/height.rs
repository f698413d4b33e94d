//! Chain heights: a (revision number, revision height) pair, totally ordered
//! lexicographically. The revision height of a well-formed height is never
//! zero.

use vstd::prelude::*;

use crate::client_error::ClientError;

verus! {

#[derive(Clone, Copy, Debug, PartialEq, Eq, Structural)]
pub struct Height {
    pub revision_number: u64,
    pub revision_height: u64,
}

impl Height {
    /// A height is well formed when its revision height is positive.
    pub open spec fn well_formed(self) -> bool {
        self.revision_height >= 1
    }

    /// Strict lexicographic order: revision number first, then revision
    /// height within a revision.
    pub open spec fn spec_lt(self, other: Height) -> bool {
        self.revision_number < other.revision_number
            || (self.revision_number == other.revision_number
                && self.revision_height < other.revision_height)
    }

    /// Builds a height, rejecting a zero revision height.
    pub fn new(revision_number: u64, revision_height: u64) -> (r: Result<Height, ClientError>)
        ensures
            revision_height == 0 <==> r == Err::<Height, ClientError>(ClientError::InvalidHeight),
            revision_height >= 1 ==> r == Ok::<Height, ClientError>(Height {
                revision_number,
                revision_height,
            }),
            r is Ok ==> r->Ok_0.well_formed(),
    {
        if revision_height == 0 {
            Err(ClientError::InvalidHeight)
        } else {
            Ok(Height { revision_number, revision_height })
        }
    }

    /// The least well-formed height of a revision.
    pub fn min(revision_number: u64) -> (r: Height)
        ensures
            r == (Height { revision_number, revision_height: 1u64 }),
            r.well_formed(),
    {
        Height { revision_number, revision_height: 1 }
    }

    /// Decides the strict order `self < other`.
    pub fn lt(&self, other: &Height) -> (r: bool)
        ensures
            r == self.spec_lt(*other),
    {
        self.revision_number < other.revision_number
            || (self.revision_number == other.revision_number
                && self.revision_height < other.revision_height)
    }

    /// Decides `self >= other`, the reflexive complement of the strict order.
    pub fn gte(&self, other: &Height) -> (r: bool)
        ensures
            r == !self.spec_lt(*other),
    {
        !self.lt(other)
    }
}

/// The strict order on heights is transitive, so a chain of verified updates
/// can never revisit a height.
pub proof fn lemma_height_lt_transitive(a: Height, b: Height, c: Height)
    requires
        a.spec_lt(b),
        b.spec_lt(c),
    ensures
        a.spec_lt(c),
{
}

/// The strict order on heights is irreflexive and asymmetric.
pub proof fn lemma_height_lt_strict(a: Height, b: Height)
    requires
        a.spec_lt(b),
    ensures
        a != b,
        !b.spec_lt(a),
{
}

} // verus!
