use vstd::prelude::*;

verus! {

/// A position on the grid, numbered `0..=8` in row-major order.
///
/// Each variant is one of the nine fields, so an index can never be out of range.
#[derive(Debug, Copy, Clone, PartialEq, Eq, Structural, PartialOrd, Ord)]
pub enum GridIndex {
    /// The top left field, position 0.
    TopLeft,
    /// The top field, position 1.
    Top,
    /// The top right field, position 2.
    TopRight,
    /// The left field, position 3.
    Left,
    /// The middle field, position 4.
    Middle,
    /// The right field, position 5.
    Right,
    /// The bottom left field, position 6.
    BottomLeft,
    /// The bottom field, position 7.
    Bottom,
    /// The bottom right field, position 8.
    BottomRight,
}

/// The index for the top left field of a grid.
pub const TOP_LEFT: GridIndex = GridIndex::TopLeft;

/// The index for the top field of a grid.
pub const TOP: GridIndex = GridIndex::Top;

/// The index for the top right field of a grid.
pub const TOP_RIGHT: GridIndex = GridIndex::TopRight;

/// The index for the left field of a grid.
pub const LEFT: GridIndex = GridIndex::Left;

/// The index for the middle field of a grid.
pub const MIDDLE: GridIndex = GridIndex::Middle;

/// The index for the right field of a grid.
pub const RIGHT: GridIndex = GridIndex::Right;

/// The index for the bottom left field of a grid.
pub const BOTTOM_LEFT: GridIndex = GridIndex::BottomLeft;

/// The index for the bottom field of a grid.
pub const BOTTOM: GridIndex = GridIndex::Bottom;

/// The index for the bottom right field of a grid.
pub const BOTTOM_RIGHT: GridIndex = GridIndex::BottomRight;

/// A value that is too big to be a [GridIndex].
pub type TooBigIndex = u8;

/// The number of fields on a grid.
pub const FIELD_COUNT: u8 = 9;

impl GridIndex {
    /// The position of the field, in `0..=8`.
    pub open spec fn pos(self) -> nat {
        match self {
            GridIndex::TopLeft => 0,
            GridIndex::Top => 1,
            GridIndex::TopRight => 2,
            GridIndex::Left => 3,
            GridIndex::Middle => 4,
            GridIndex::Right => 5,
            GridIndex::BottomLeft => 6,
            GridIndex::Bottom => 7,
            GridIndex::BottomRight => 8,
        }
    }

    /// The index at position `n`; meaningful for `n < 9`.
    pub open spec fn at_pos(n: nat) -> GridIndex {
        if n == 0 {
            GridIndex::TopLeft
        } else if n == 1 {
            GridIndex::Top
        } else if n == 2 {
            GridIndex::TopRight
        } else if n == 3 {
            GridIndex::Left
        } else if n == 4 {
            GridIndex::Middle
        } else if n == 5 {
            GridIndex::Right
        } else if n == 6 {
            GridIndex::BottomLeft
        } else if n == 7 {
            GridIndex::Bottom
        } else {
            GridIndex::BottomRight
        }
    }

    /// What `try_new` returns for `value`.
    pub open spec fn try_new_spec(value: u8) -> Result<GridIndex, TooBigIndex> {
        if value < FIELD_COUNT {
            Ok(GridIndex::at_pos(value as nat))
        } else {
            Err(value)
        }
    }

    /// An index converts to its position and back to itself, and every value
    /// below 9 converts to an index and back to itself.
    pub proof fn lemma_round_trip(self, value: u8)
        ensures
            self.pos() < 9,
            GridIndex::try_new_spec(self.pos() as u8) == Ok::<GridIndex, TooBigIndex>(self),
            value < 9 ==> (GridIndex::try_new_spec(value) matches Ok(i) && i.pos() == value),
    {
    }

    /// Tries to create a GridIndex with the given value.
    /// A value in the range `[0, 8]` gives the index at that position;
    /// a larger value is handed back as the error.
    pub fn try_new(value: u8) -> (r: Result<GridIndex, TooBigIndex>)
        ensures
            r == GridIndex::try_new_spec(value),
            value < 9 ==> (r matches Ok(i) && i.pos() == value),
            value >= 9 ==> r == Err::<GridIndex, TooBigIndex>(value),
    {
        match value {
            0 => Ok(GridIndex::TopLeft),
            1 => Ok(GridIndex::Top),
            2 => Ok(GridIndex::TopRight),
            3 => Ok(GridIndex::Left),
            4 => Ok(GridIndex::Middle),
            5 => Ok(GridIndex::Right),
            6 => Ok(GridIndex::BottomLeft),
            7 => Ok(GridIndex::Bottom),
            8 => Ok(GridIndex::BottomRight),
            _ => Err(value),
        }
    }

    /// The position of the field as an integer in `0..=8`.
    pub fn value(self) -> (r: u8)
        ensures
            r as nat == self.pos(),
    {
        match self {
            GridIndex::TopLeft => 0,
            GridIndex::Top => 1,
            GridIndex::TopRight => 2,
            GridIndex::Left => 3,
            GridIndex::Middle => 4,
            GridIndex::Right => 5,
            GridIndex::BottomLeft => 6,
            GridIndex::Bottom => 7,
            GridIndex::BottomRight => 8,
        }
    }
}

impl From<GridIndex> for u8 {
    fn from(index: GridIndex) -> (r: u8)
        ensures
            r as nat == index.pos(),
    {
        index.value()
    }
}

impl vstd::std_specs::convert::FromSpecImpl<GridIndex> for u8 {
    open spec fn obeys_from_spec() -> bool {
        true
    }

    open spec fn from_spec(index: GridIndex) -> u8 {
        index.pos() as u8
    }
}

impl TryFrom<u8> for GridIndex {
    type Error = TooBigIndex;

    fn try_from(value: u8) -> (r: Result<GridIndex, TooBigIndex>)
        ensures
            r == GridIndex::try_new_spec(value),
    {
        GridIndex::try_new(value)
    }
}

impl vstd::std_specs::convert::TryFromSpecImpl<u8> for GridIndex {
    open spec fn obeys_try_from_spec() -> bool {
        true
    }

    open spec fn try_from_spec(value: u8) -> Result<GridIndex, TooBigIndex> {
        GridIndex::try_new_spec(value)
    }
}

} // verus!
