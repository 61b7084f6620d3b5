//! Plain values shared by every module.

use vstd::prelude::*;

verus! {

/// Length in bytes of a [Digest].
pub const DIGEST_SIZE: usize = 32;

/// A 32-byte digest: the identity of a block, or the root that commits to its coded chunks.
#[derive(Clone, Copy, Debug)]
pub struct Digest(pub [u8; 32]);

impl View for Digest {
    type V = Seq<u8>;

    open spec fn view(&self) -> Seq<u8> {
        self.0@
    }
}

impl PartialEq for Digest {
    fn eq(&self, other: &Self) -> (r: bool) {
        let mut i: usize = 0;
        while i < DIGEST_SIZE
            invariant
                i <= DIGEST_SIZE,
                forall|j: int| 0 <= j < i ==> self@[j] == other@[j],
            decreases DIGEST_SIZE - i,
        {
            if self.0[i] != other.0[i] {
                assert(self@[i as int] != other@[i as int]);
                return false;
            }
            i += 1;
        }
        assert(self@ =~= other@);
        true
    }
}

impl vstd::std_specs::cmp::PartialEqSpecImpl for Digest {
    open spec fn obeys_eq_spec() -> bool {
        true
    }

    open spec fn eq_spec(&self, other: &Self) -> bool {
        self@ == other@
    }
}

impl Eq for Digest {

}

/// A consensus round: a view within an epoch.
#[derive(Clone, Copy, Debug, PartialEq, Eq, Structural)]
pub struct Round {
    /// The epoch of the round.
    pub epoch: u64,
    /// The view of the round, within its epoch.
    pub view: u64,
}

impl Round {
    /// Creates a round from its epoch and view.
    pub fn new(epoch: u64, view: u64) -> (r: Self)
        ensures
            r == (Round { epoch, view }),
    {
        Round { epoch, view }
    }
}

/// What consensus knows when it asks for a proposal, or for the verification of one.
#[derive(Clone, Copy, Debug, PartialEq, Eq)]
pub struct Context {
    /// The round to propose in.
    pub round: Round,
    /// The view of the parent and the commitment of the parent.
    pub parent: (u64, Digest),
}

} // verus!
