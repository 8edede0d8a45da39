use vstd::prelude::*;

verus! {

/// A token identity: one of the two competing roles, or the automated one.
#[derive(Debug, Clone, Copy, PartialEq, Eq, Structural)]
pub enum Player {
    One,
    Two,
    AI,
}

/// A short display name for a player.
pub fn player_to_str(player: &Player) -> (r: String)
    ensures
        r@ == player_name(*player),
{
    match player {
        Player::One => String::from_str("one"),
        Player::Two => String::from_str("two"),
        Player::AI => String::from_str("AI"),
    }
}

pub open spec fn player_name(p: Player) -> Seq<char> {
    match p {
        Player::One => "one"@,
        Player::Two => "two"@,
        Player::AI => "AI"@,
    }
}

} // verus!
