//! The people at the table.

use vstd::prelude::*;

verus! {

/// A participant, known by name.
#[derive(Debug)]
pub struct Player {
    /// The name the player entered.
    pub name: String,
}

impl Player {
    /// A player called `name`.
    pub fn new(name: String) -> (player: Self)
        ensures
            player.name == name,
    {
        Player { name }
    }
}

} // verus!
