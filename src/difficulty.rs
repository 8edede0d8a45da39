use vstd::prelude::*;

verus! {

/// How far ahead the automated player looks.
#[derive(Debug, Clone, Copy, PartialEq, Eq, Structural)]
pub enum Difficulty {
    Test,
    Easy,
    Normal,
    Hard,
    VeryHard,
    NoChance,
}

/// The number of plies searched at each difficulty.
pub open spec fn depth_of(d: Difficulty) -> int {
    match d {
        Difficulty::Test => 1,
        Difficulty::Easy => 2,
        Difficulty::Normal => 3,
        Difficulty::Hard => 5,
        Difficulty::VeryHard => 6,
        Difficulty::NoChance => 10,
    }
}

/// The search depth of a difficulty.
pub fn difficulty_to_depth(difficulty: Difficulty) -> (r: u8)
    ensures
        r == depth_of(difficulty),
        1 <= r <= 10,
{
    match difficulty {
        Difficulty::Test => 1,
        Difficulty::Easy => 2,
        Difficulty::Normal => 3,
        Difficulty::Hard => 5,
        Difficulty::VeryHard => 6,
        Difficulty::NoChance => 10,
    }
}

} // verus!
