use vstd::prelude::*;

verus! {

/// The state of a field in the [Grid](crate::Grid).
/// This defines whether a field is either blank, occupied by player X or occupied by player O.
#[derive(Debug, Copy, Clone, PartialEq, Eq, Structural)]
pub enum FieldState {
    /// The field is blank and therefore not occupied by any player.
    Blank,
    /// The field is occupied by player X.
    PlayerX,
    /// The field is occupied by player O.
    PlayerO,
}

impl FieldState {
    /// The base-3 digit that stands for this state in a packed grid.
    pub open spec fn digit(self) -> nat {
        match self {
            FieldState::Blank => 0,
            FieldState::PlayerX => 1,
            FieldState::PlayerO => 2,
        }
    }

    /// The state that a base-3 digit stands for; meaningful for `d < 3`.
    pub open spec fn from_digit(d: nat) -> FieldState {
        if d == 0 {
            FieldState::Blank
        } else if d == 1 {
            FieldState::PlayerX
        } else {
            FieldState::PlayerO
        }
    }

    /// The digit of this state as an integer.
    pub fn to_digit(self) -> (r: u16)
        ensures
            r as nat == self.digit(),
    {
        match self {
            FieldState::Blank => 0,
            FieldState::PlayerX => 1,
            FieldState::PlayerO => 2,
        }
    }
}

} // verus!
