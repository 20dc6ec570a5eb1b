//! Unit directions, sampled once per angle tick.
//!
//! The library computes no cosine or sine. It is handed a table with one
//! direction for each of the [`TURN`] ticks of a full turn and checks what
//! whole numbers can check of it: that every entry is a unit vector up to
//! rounding, that the table starts along the x axis and reaches the y axis
//! after a quarter turn, that a quarter turn on every direction is turned by
//! a right angle, that the cosine falls over the first half turn, and that
//! neighbouring ticks lie no further apart than one tick's chord. From then
//! on it looks directions up.

use vstd::prelude::*;
use crate::arith::{distance, NORM_SLACK, TURN, UNIT};
use crate::error::SpiroError;

verus! {

/// A direction in the plane: the cosine and the sine of an angle, each
/// multiplied by [`UNIT`].
#[derive(Clone, Copy, PartialEq, Eq, Structural, Debug)]
pub struct Direction {
    pub cos: i64,
    pub sin: i64,
}

impl Direction {
    /// Both components lie in `[-UNIT, UNIT]`, and the squared norm differs
    /// from `UNIT * UNIT` by at most [`NORM_SLACK`].
    pub open spec fn is_unit(self) -> bool {
        &&& -UNIT <= self.cos <= UNIT
        &&& -UNIT <= self.sin <= UNIT
        &&& UNIT * UNIT - NORM_SLACK <= self.cos * self.cos + self.sin * self.sin
        &&& self.cos * self.cos + self.sin * self.sin <= UNIT * UNIT + NORM_SLACK
    }

    /// The direction of angle zero.
    pub open spec fn east() -> Direction {
        Direction { cos: UNIT, sin: 0 }
    }

    /// The direction of a quarter turn.
    pub open spec fn north() -> Direction {
        Direction { cos: 0, sin: UNIT }
    }

    pub fn new(cos: i64, sin: i64) -> (d: Direction)
        ensures
            d.cos == cos,
            d.sin == sin,
    {
        Direction { cos, sin }
    }

    /// Decides [`Direction::is_unit`].
    pub fn check_unit(&self) -> (b: bool)
        ensures
            b == self.is_unit(),
    {
        if self.cos < -UNIT || self.cos > UNIT || self.sin < -UNIT || self.sin > UNIT {
            return false;
        }
        let c: i64 = self.cos;
        let s: i64 = self.sin;
        assert(0 <= c * c <= UNIT * UNIT && 0 <= s * s <= UNIT * UNIT) by (nonlinear_arith)
            requires
                -UNIT <= c <= UNIT,
                -UNIT <= s <= UNIT,
        ;
        let norm: i64 = c * c + s * s;
        UNIT * UNIT - NORM_SLACK <= norm && norm <= UNIT * UNIT + NORM_SLACK
    }
}

/// The largest squared distance between the directions of two neighbouring
/// ticks: the square of one tick's chord, `2 * UNIT * sin(pi / TURN)`, with
/// two units of room for rounding.
pub const STEP_CHORD_SQ: i64 = 10_597_818_803;

/// The cosine falls from tick `i` to the next.
pub open spec fn steps_down(dirs: Seq<Direction>, i: int) -> bool {
    dirs[i].cos > dirs[i + 1].cos
}

/// The direction a quarter turn after tick `i` is the direction of tick `i`
/// turned by a right angle, `(-sin, cos)`, up to one unit of rounding in
/// each component.
pub open spec fn quarter_turned(dirs: Seq<Direction>, i: int) -> bool {
    let j = (i + TURN / 4) % (TURN as int);
    &&& -1 <= dirs[j].cos + dirs[i].sin <= 1
    &&& -1 <= dirs[j].sin - dirs[i].cos <= 1
}

/// The direction of the tick after `i` lies within one tick's chord of the
/// direction of tick `i`.
pub open spec fn one_tick_apart(dirs: Seq<Direction>, i: int) -> bool {
    let j = (i + 1) % (TURN as int);
    let dc = dirs[j].cos - dirs[i].cos;
    let ds = dirs[j].sin - dirs[i].sin;
    dc * dc + ds * ds <= STEP_CHORD_SQ
}

/// What is asked of tick `i` of a table: a unit direction, a falling cosine
/// over the first half turn, the right angle to the tick a quarter turn on,
/// and no more than one tick's chord to the next tick.
pub open spec fn valid_tick(dirs: Seq<Direction>, i: int) -> bool {
    &&& dirs[i].is_unit()
    &&& i < TURN / 2 ==> steps_down(dirs, i)
    &&& quarter_turned(dirs, i)
    &&& one_tick_apart(dirs, i)
}

/// Whether `dirs` can serve as a table: one direction per tick, angle zero
/// pointing along the positive x axis and the quarter turn along the
/// positive y axis, and every tick valid.
pub open spec fn valid_directions(dirs: Seq<Direction>) -> bool {
    &&& dirs.len() == TURN
    &&& dirs[0] == Direction::east()
    &&& dirs[TURN / 4] == Direction::north()
    &&& forall|i: int| 0 <= i < TURN ==> #[trigger] valid_tick(dirs, i)
}

/// Decides [`valid_tick`].
pub fn check_tick(dirs: &Vec<Direction>, i: usize) -> (b: bool)
    requires
        dirs@.len() == TURN,
        i < TURN,
    ensures
        b == valid_tick(dirs@, i as int),
{
    let d: Direction = dirs[i];
    if !d.check_unit() {
        return false;
    }
    let next: Direction = dirs[(i + 1) % (TURN as usize)];
    if i < (TURN / 2) as usize && d.cos <= next.cos {
        return false;
    }
    let turned: Direction = dirs[(i + (TURN / 4) as usize) % (TURN as usize)];
    let off_cos: i128 = (turned.cos as i128) + (d.sin as i128);
    let off_sin: i128 = (turned.sin as i128) - (d.cos as i128);
    if off_cos < -1 || off_cos > 1 || off_sin < -1 || off_sin > 1 {
        return false;
    }
    let dc: i128 = distance(next.cos, d.cos);
    let ds: i128 = distance(next.sin, d.sin);
    proof {
        let sc = next.cos - d.cos;
        let ss = next.sin - d.sin;
        assert(sc * sc == dc * dc && ss * ss == ds * ds && ss * ss >= 0 && sc * sc >= 0)
            by (nonlinear_arith)
            requires
                dc == sc || dc == -sc,
                ds == ss || ds == -ss,
        ;
        assert(dc > 200_000 ==> dc * dc > 10_597_818_803) by (nonlinear_arith);
        assert(ds > 200_000 ==> ds * ds > 10_597_818_803) by (nonlinear_arith);
        assert(0 <= dc <= 200_000 && 0 <= ds <= 200_000 ==> dc * dc + ds * ds
            <= 80_000_000_000) by (nonlinear_arith);
    }
    if dc > 200_000 || ds > 200_000 {
        return false;
    }
    dc * dc + ds * ds <= STEP_CHORD_SQ as i128
}

/// A checked table of directions, indexed by angle ticks.
#[derive(Debug)]
pub struct TrigTable {
    dirs: Vec<Direction>,
}

impl View for TrigTable {
    type V = Seq<Direction>;

    closed spec fn view(&self) -> Seq<Direction> {
        self.dirs@
    }
}

impl TrigTable {
    /// The table holds valid directions. Every table that executable code can
    /// hold satisfies this.
    #[verifier::type_invariant]
    pub open spec fn wf(&self) -> bool {
        valid_directions(self@)
    }

    /// The direction of `angle`, which may be negative or exceed a full turn.
    pub open spec fn at(&self, angle: int) -> Direction {
        self@[angle % (TURN as int)]
    }

    /// Checks `dirs` and wraps it. The table is refused exactly when
    /// `valid_directions` fails.
    pub fn new(dirs: Vec<Direction>) -> (r: Result<TrigTable, SpiroError>)
        ensures
            valid_directions(dirs@) ==> (r matches Ok(t) && t@ == dirs@ && t.wf()),
            !valid_directions(dirs@) ==> r == Err::<TrigTable, SpiroError>(
                SpiroError::InvalidDirections,
            ),
    {
        if dirs.len() != TURN as usize {
            return Err(SpiroError::InvalidDirections);
        }
        let first: Direction = dirs[0];
        let quarter: Direction = dirs[(TURN / 4) as usize];
        if first.cos != UNIT || first.sin != 0 || quarter.cos != 0 || quarter.sin != UNIT {
            return Err(SpiroError::InvalidDirections);
        }
        let mut i: usize = 0;
        while i < dirs.len()
            invariant
                dirs.len() == TURN,
                i <= dirs.len(),
                forall|j: int| 0 <= j < i ==> #[trigger] valid_tick(dirs@, j),
            decreases dirs.len() - i,
        {
            if !check_tick(&dirs, i) {
                return Err(SpiroError::InvalidDirections);
            }
            i += 1;
        }
        Ok(TrigTable { dirs })
    }

    /// Looks up the direction of `angle`.
    pub fn direction(&self, angle: i64) -> (d: Direction)
        ensures
            d == self.at(angle as int),
            d.is_unit(),
    {
        proof {
            use_type_invariant(self);
        }
        let rem: i64 = angle % TURN;
        let index: i64 = if rem < 0 {
            rem + TURN
        } else {
            rem
        };
        assert(valid_tick(self@, index as int));
        self.dirs[index as usize]
    }
}

/// Angles that differ by whole turns have the same direction.
pub proof fn lemma_direction_periodic(table: TrigTable, angle: int, turns: int)
    ensures
        table.at(angle + turns * TURN) == table.at(angle),
{
    assert((angle + turns * 65536) % 65536 == angle % 65536);
}

/// Every direction of a valid table is a unit direction.
pub proof fn lemma_direction_unit(table: TrigTable, angle: int)
    requires
        table.wf(),
    ensures
        table.at(angle).is_unit(),
{
    assert(valid_tick(table@, angle % (TURN as int)));
}

/// Over the first half turn the cosine falls: a later tick has the smaller
/// cosine.
pub proof fn lemma_cos_descends(table: TrigTable, a: int, b: int)
    requires
        table.wf(),
        0 <= a <= b <= TURN / 2,
    ensures
        table.at(a).cos >= table.at(b).cos,
        a < b ==> table.at(a).cos > table.at(b).cos,
    decreases b - a,
{
    if a < b {
        lemma_cos_descends(table, a, b - 1);
        assert(valid_tick(table@, b - 1));
    }
}

/// No two ticks of the first half turn share a direction, so a valid table
/// does not stand still.
pub proof fn lemma_directions_differ(table: TrigTable, a: int, b: int)
    requires
        table.wf(),
        0 <= a < b <= TURN / 2,
    ensures
        table.at(a) != table.at(b),
{
    lemma_cos_descends(table, a, b);
}

/// A quarter turn further on, the direction is turned by a right angle, up
/// to one unit of rounding in each component; this holds of every angle.
pub proof fn lemma_quarter_turn(table: TrigTable, angle: int)
    requires
        table.wf(),
    ensures
        -1 <= table.at(angle + TURN / 4).cos + table.at(angle).sin <= 1,
        -1 <= table.at(angle + TURN / 4).sin - table.at(angle).cos <= 1,
{
    let i = angle % (TURN as int);
    assert(valid_tick(table@, i));
    assert((angle + 16384) % 65536 == (i + 16384) % 65536);
}

} // verus!
