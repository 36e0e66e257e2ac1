use vstd::prelude::*;

use crate::encoding::{
    cells_of, digit_at, lemma_digits_determine, lemma_pow3_nine, lemma_pow3_positive,
    lemma_replace_digit, power_of_three, GRID_COUNT,
};
use crate::field_state::FieldState;
use crate::grid_state::GridState;
use crate::index::GridIndex;

verus! {

/// The base of the packed number: each field has three states.
const BASE: u16 = 3;

/// The field of play for a tic-tac-toe game, packed into two bytes.
///
/// The nine fields are the digits of a base-3 number below `3^9`, the
/// top left field being the least significant digit.
#[derive(Debug, Clone, Copy, PartialEq, Eq, Structural)]
pub struct Grid {
    grid: u16,
}

/// A value that is too big to represent a [Grid].
pub type TooBigValue = u16;

/// Whether player `p` occupies the fields `a`, `b` and `c`.
pub open spec fn holds_line(cells: Seq<FieldState>, p: FieldState, a: int, b: int, c: int) -> bool {
    cells[a] == p && cells[b] == p && cells[c] == p
}

/// Whether player `p` occupies a whole row, column or diagonal.
pub open spec fn has_line(cells: Seq<FieldState>, p: FieldState) -> bool {
    ||| holds_line(cells, p, 0, 1, 2)
    ||| holds_line(cells, p, 3, 4, 5)
    ||| holds_line(cells, p, 6, 7, 8)
    ||| holds_line(cells, p, 0, 3, 6)
    ||| holds_line(cells, p, 1, 4, 7)
    ||| holds_line(cells, p, 2, 5, 8)
    ||| holds_line(cells, p, 0, 4, 8)
    ||| holds_line(cells, p, 2, 4, 6)
}

/// Whether one of the nine fields is blank.
pub open spec fn has_blank(cells: Seq<FieldState>) -> bool {
    exists|k: int| 0 <= k < 9 && #[trigger] cells[k] == FieldState::Blank
}

/// The state of a grid with the fields `cells`.
pub open spec fn outcome(cells: Seq<FieldState>) -> GridState {
    let x_win = has_line(cells, FieldState::PlayerX);
    let o_win = has_line(cells, FieldState::PlayerO);
    if x_win && o_win {
        GridState::BothWin
    } else if x_win {
        GridState::XWins
    } else if o_win {
        GridState::OWins
    } else if has_blank(cells) {
        GridState::Unfinished
    } else {
        GridState::Draw
    }
}

impl Grid {
    #[verifier::type_invariant]
    spec fn in_range(self) -> bool {
        self.grid < GRID_COUNT
    }

    /// The packed value of the grid.
    pub closed spec fn raw(self) -> nat {
        self.grid as nat
    }

    /// Creates a new Grid where every field has the state [Blank](FieldState::Blank).
    pub fn blank_grid() -> (r: Grid)
        ensures
            r.raw() == 0,
            forall|k: int| 0 <= k < 9 ==> #[trigger] r@[k] == FieldState::Blank,
            outcome(r@) == GridState::Unfinished,
    {
        let r = Grid { grid: 0 };
        assert forall|k: int| 0 <= k < 9 implies #[trigger] r@[k] == FieldState::Blank by {
            lemma_pow3_positive(k as nat);
        }
        // the top left field witnesses a blank
        assert(r@[0] == FieldState::Blank);
        r
    }

    /// Returns the [FieldState] of the grid at the given [GridIndex].
    pub fn get(&self, index: GridIndex) -> (r: FieldState)
        ensures
            r == self@[index.pos() as int],
    {
        proof {
            use_type_invariant(self);
        }
        let divisor = power_of_three(index.value());
        let value = (self.grid / divisor) % BASE;
        match value {
            0 => FieldState::Blank,
            1 => FieldState::PlayerX,
            _ => {
                // a remainder modulo 3
                assert(value == 2);
                FieldState::PlayerO
            },
        }
    }

    /// Sets the [FieldState] of the grid at the given [GridIndex] to the given field state,
    /// leaving the other fields as they were.
    pub fn set(&mut self, index: GridIndex, value: FieldState)
        ensures
            final(self)@ == old(self)@.update(index.pos() as int, value),
            final(self).raw() < GRID_COUNT,
    {
        proof {
            use_type_invariant(&*self);
            lemma_pow3_nine();
        }
        let ghost before = self.grid as nat;
        let new_value = value.to_digit();
        let divisor = power_of_three(index.value());
        let lower_part = self.grid % divisor;
        let upper_part = self.grid / (divisor * BASE);
        proof {
            lemma_replace_digit(before, index.pos(), new_value as nat);
        }
        self.grid = lower_part + (divisor * new_value) + (upper_part * (divisor * BASE));
        proof {
            let after = self.grid as nat;
            assert forall|k: int| 0 <= k < 9 implies #[trigger] cells_of(after)[k] == cells_of(
                before,
            ).update(index.pos() as int, value)[k] by {
                if k != index.pos() {
                    assert(digit_at(after, k as nat) == digit_at(before, k as nat));
                }
            }
            assert(cells_of(after) =~= cells_of(before).update(index.pos() as int, value));
        }
    }

    /// Evaluates the [GridState] of the grid: who holds a row, a column or a
    /// diagonal, and otherwise whether a blank field is left.
    pub fn evaluate(&self) -> (r: GridState)
        ensures
            r == outcome(self@),
    {
        let top_left = self.get(GridIndex::TopLeft);
        let top = self.get(GridIndex::Top);
        let top_right = self.get(GridIndex::TopRight);
        let left = self.get(GridIndex::Left);
        let middle = self.get(GridIndex::Middle);
        let right = self.get(GridIndex::Right);
        let bottom_left = self.get(GridIndex::BottomLeft);
        let bottom = self.get(GridIndex::Bottom);
        let bottom_right = self.get(GridIndex::BottomRight);

        let x = FieldState::PlayerX;
        let o = FieldState::PlayerO;
        let x_win = (top_left == x && top == x && top_right == x)
            || (left == x && middle == x && right == x)
            || (bottom_left == x && bottom == x && bottom_right == x)
            || (top_left == x && left == x && bottom_left == x)
            || (top == x && middle == x && bottom == x)
            || (top_right == x && right == x && bottom_right == x)
            || (top_left == x && middle == x && bottom_right == x)
            || (top_right == x && middle == x && bottom_left == x);
        let o_win = (top_left == o && top == o && top_right == o)
            || (left == o && middle == o && right == o)
            || (bottom_left == o && bottom == o && bottom_right == o)
            || (top_left == o && left == o && bottom_left == o)
            || (top == o && middle == o && bottom == o)
            || (top_right == o && right == o && bottom_right == o)
            || (top_left == o && middle == o && bottom_right == o)
            || (top_right == o && middle == o && bottom_left == o);

        if x_win && o_win {
            GridState::BothWin
        } else if x_win {
            GridState::XWins
        } else if o_win {
            GridState::OWins
        } else {
            let b = FieldState::Blank;
            if top_left == b || top == b || top_right == b || left == b || middle == b || right
                == b || bottom_left == b || bottom == b || bottom_right == b {
                GridState::Unfinished
            } else {
                GridState::Draw
            }
        }
    }
}

impl Default for Grid {
    /// The blank grid.
    fn default() -> (r: Grid)
        ensures
            r.raw() == 0,
    {
        Grid::blank_grid()
    }
}

impl View for Grid {
    type V = Seq<FieldState>;

    /// The nine fields, in row-major order.
    open spec fn view(&self) -> Seq<FieldState> {
        cells_of(self.raw())
    }
}

impl From<&Grid> for u16 {
    /// The packed value of the grid.
    fn from(grid: &Grid) -> (r: u16)
        ensures
            r as nat == grid.raw(),
            r < GRID_COUNT,
    {
        proof {
            use_type_invariant(grid);
        }
        grid.grid
    }
}

impl vstd::std_specs::convert::FromSpecImpl<&Grid> for u16 {
    open spec fn obeys_from_spec() -> bool {
        true
    }

    open spec fn from_spec(grid: &Grid) -> u16 {
        grid.raw() as u16
    }
}

impl TryFrom<u16> for Grid {
    type Error = TooBigValue;

    /// The grid packed as `value`, or `value` itself when it is `3^9` or more.
    fn try_from(value: u16) -> (r: Result<Grid, TooBigValue>)
        ensures
            value < GRID_COUNT ==> (r matches Ok(g) && g.raw() == value),
            value >= GRID_COUNT ==> r == Err::<Grid, TooBigValue>(value),
    {
        if value < GRID_COUNT {
            Ok(Grid { grid: value })
        } else {
            Err(value)
        }
    }
}

impl vstd::std_specs::convert::TryFromSpecImpl<u16> for Grid {
    open spec fn obeys_try_from_spec() -> bool {
        true
    }

    closed spec fn try_from_spec(value: u16) -> Result<Grid, TooBigValue> {
        if value < GRID_COUNT {
            Ok(Grid { grid: value })
        } else {
            Err(value)
        }
    }
}

/// Converting any value below `3^9` into a grid succeeds, and the grid converts
/// back to that same value; converting any larger value fails and hands the
/// value back.
pub proof fn lemma_round_trip(value: u16)
    ensures
        value < GRID_COUNT ==> ({
            let r = <Grid as vstd::std_specs::convert::TryFromSpec<u16>>::try_from_spec(value);
            &&& r is Ok
            &&& <u16 as vstd::std_specs::convert::FromSpec<&Grid>>::from_spec(&r->Ok_0) == value
        }),
        value >= GRID_COUNT ==> <Grid as vstd::std_specs::convert::TryFromSpec<u16>>::try_from_spec(
            value,
        ) == Err::<Grid, TooBigValue>(value),
{
}

/// A grid is determined by its nine fields.
pub proof fn lemma_view_determines(a: Grid, b: Grid)
    requires
        a.raw() < GRID_COUNT,
        b.raw() < GRID_COUNT,
        a@ == b@,
    ensures
        a == b,
{
    lemma_pow3_nine();
    assert forall|j: nat| j < 9 implies digit_at(a.raw(), j) == digit_at(b.raw(), j) by {
        assert(a@[j as int] == b@[j as int]);
        assert(cells_of(a.raw())[j as int] == cells_of(b.raw())[j as int]);
        let da = digit_at(a.raw(), j);
        let db = digit_at(b.raw(), j);
        assert(FieldState::from_digit(da) == FieldState::from_digit(db));
        assert(da < 3 && db < 3);
    }
    lemma_digits_determine(a.raw(), b.raw(), 9);
}

/// After setting field `i` to `s`, field `i` reads `s` and every other field
/// reads what it read before.
pub proof fn lemma_set_then_get(before: Grid, after: Grid, i: GridIndex, s: FieldState)
    requires
        after@ == before@.update(i.pos() as int, s),
    ensures
        after@[i.pos() as int] == s,
        forall|j: GridIndex| j != i ==> after@[j.pos() as int] == before@[j.pos() as int],
{
    assert forall|j: GridIndex| j != i implies after@[j.pos() as int] == before@[j.pos() as int] by {
        assert(j.pos() != i.pos());
    }
}

/// Setting field `i` to `s` a second time leaves the grid as the first time did.
pub proof fn lemma_set_idempotent(grid: Grid, once: Grid, twice: Grid, i: GridIndex, s: FieldState)
    requires
        once.raw() < GRID_COUNT,
        twice.raw() < GRID_COUNT,
        once@ == grid@.update(i.pos() as int, s),
        twice@ == once@.update(i.pos() as int, s),
    ensures
        twice == once,
{
    assert(twice@ =~= once@);
    lemma_view_determines(twice, once);
}

} // verus!
