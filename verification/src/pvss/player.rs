use vstd::prelude::*;

verus! {

/// An identifier from 0 to `n - 1` for the `n` players involved in the PVSS
/// protocol. Created only by a secret sharing configuration; equality is by
/// index.
#[derive(PartialEq, Eq, Structural, Clone, Copy)]
pub struct Player {
    pub(crate) id: usize,
}

impl Player {
    /// The index of this player.
    pub closed spec fn id_spec(&self) -> nat {
        self.id as nat
    }

    /// Builds the player with the given index; only configurations hand
    /// players out.
    pub(crate) fn from_index(id: usize) -> (r: Player)
        ensures
            r.id_spec() == id,
    {
        Player { id }
    }

    /// The index of this player.
    pub fn get_id(&self) -> (r: usize)
        ensures
            r as nat == self.id_spec(),
    {
        self.id
    }
}

} // verus!
