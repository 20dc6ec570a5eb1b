//! The rolling simulation: a small circle rolls inside a large one and a pen
//! on it traces a curve until the curve closes.

use vstd::prelude::*;
use crate::arith::{
    abs, distance, lemma_scaled_identities, lemma_trunc_div_bounds, lemma_trunc_div_neg,
    magnitude, trunc_div, wide_mul, TURN,
};
use crate::canvas::{Canvas, ShapeModel, StrokeStyle};
use crate::circle::{about, lemma_ray_point_distance, ray_point, Circle};
use crate::color::Color;
use crate::error::SpiroError;
use crate::geom::{dist_sq, near, Origin, Point, Vec2};
use crate::path::Polyline;
use crate::trig::{lemma_direction_unit, TrigTable};

verus! {

/// An outer circle and the inner circle that rolls inside it.
#[derive(Debug)]
pub struct SpiroGraph {
    outer: Circle,
    inner: Circle,
}

/// Where a trace ended.
#[derive(Clone, Copy, PartialEq, Eq, Structural, Debug)]
pub struct TraceReport {
    /// The number of simulation steps taken.
    pub steps: u64,
    /// The inner circle's angle at the last step.
    pub inner_angle: i64,
    /// The outer circle's angle at the last step; divided by `TURN` it is
    /// the number of rotations.
    pub outer_angle: i64,
}

impl TraceReport {
    /// The number of whole turns that the outer circle has made, negative
    /// because it turns against the inner circle.
    pub fn rotations(&self) -> (turns: i64)
        ensures
            turns == trunc_div(self.outer_angle as int, TURN as int),
    {
        self.outer_angle / TURN
    }
}

/// A finished trace.
#[derive(PartialEq, Eq, Debug)]
pub struct Trace {
    /// The pen positions, from the start through the last step.
    pub path: Polyline,
    /// Where the trace ended.
    pub report: TraceReport,
}

impl SpiroGraph {
    /// The outer circle as it was configured.
    pub closed spec fn outer(&self) -> Circle {
        self.outer
    }

    /// The inner circle as it was configured.
    pub closed spec fn inner(&self) -> Circle {
        self.inner
    }

    /// Both radii are positive. Every spirograph that executable code can
    /// hold satisfies this.
    #[verifier::type_invariant]
    pub open spec fn wf(&self) -> bool {
        self.outer().wf() && self.inner().wf()
    }

    /// The outer circle's angle when the inner circle has turned through
    /// `inner_angle`. Rolling without slipping makes the two arcs equal in
    /// length and opposite in sense.
    pub open spec fn outer_angle(&self, inner_angle: int) -> int {
        -trunc_div(inner_angle * self.inner().radius, self.outer().radius as int)
    }

    /// The center of the inner circle when it has turned through
    /// `inner_angle`: one inner radius inside the outer rim, at the outer
    /// circle's angle.
    pub open spec fn inner_center(&self, table: TrigTable, inner_angle: int) -> Vec2 {
        ray_point(
            self.outer().center@,
            table.at(self.outer_angle(inner_angle)),
            self.outer().radius - self.inner().radius,
        )
    }

    /// The pen position when the inner circle has turned through
    /// `inner_angle`: `pen_off` inside the inner rim at the inner circle's
    /// angle, placed in the frame that lies at the outer center as seen from
    /// `origin`.
    pub open spec fn pen(&self, table: TrigTable, origin: Vec2, pen_off: int, inner_angle: int)
        -> Vec2 {
        origin.plus(self.outer().center@).plus(
            ray_point(
                self.inner_center(table, inner_angle),
                table.at(inner_angle),
                self.inner().radius - pen_off,
            ),
        )
    }

    /// The curve counts as closed at `inner_angle`: the outer circle has
    /// completed more than one full turn in its rolling sense, and the pen is
    /// within `range` of where it started.
    pub open spec fn closed_at(
        &self,
        table: TrigTable,
        origin: Vec2,
        pen_off: int,
        range: int,
        inner_angle: int,
    ) -> bool {
        &&& self.outer_angle(inner_angle) < -TURN
        &&& near(
            self.pen(table, origin, pen_off, inner_angle),
            self.pen(table, origin, pen_off, 0),
            range,
        )
    }

    /// The curve counts as closed at step `k` of a trace that advances by
    /// `incr` a step.
    pub open spec fn closed_at_step(
        &self,
        table: TrigTable,
        origin: Vec2,
        pen_off: int,
        incr: int,
        range: int,
        k: int,
    ) -> bool {
        self.closed_at(table, origin, pen_off, range, k * incr)
    }

    /// Step `k` is the first step at which the curve is closed.
    pub open spec fn closing_step(
        &self,
        table: TrigTable,
        origin: Vec2,
        pen_off: int,
        incr: int,
        range: int,
        k: int,
    ) -> bool {
        &&& k >= 1
        &&& self.closed_at_step(table, origin, pen_off, incr, range, k)
        &&& forall|j: int|
            1 <= j < k ==> !#[trigger] self.closed_at_step(table, origin, pen_off, incr, range, j)
    }

    /// The pen positions of the first `k` steps, preceded by the start.
    pub open spec fn trace_points(
        &self,
        table: TrigTable,
        origin: Vec2,
        pen_off: int,
        incr: int,
        k: int,
    ) -> Seq<Vec2> {
        Seq::new((k + 1) as nat, |j: int| self.pen(table, origin, pen_off, j * incr))
    }

    /// `report` describes a trace that closed within `max_steps` steps: its
    /// step is the first at which the curve is closed, and its angles are
    /// those of that step.
    pub open spec fn closes_with(
        &self,
        table: TrigTable,
        origin: Vec2,
        pen_off: int,
        incr: int,
        range: int,
        max_steps: int,
        report: TraceReport,
    ) -> bool {
        &&& report.steps <= max_steps
        &&& self.closing_step(table, origin, pen_off, incr, range, report.steps as int)
        &&& report.inner_angle == report.steps * incr
        &&& report.outer_angle == self.outer_angle(report.steps * incr)
    }

    /// At none of the first `max_steps` steps is the curve closed.
    pub open spec fn never_closes(
        &self,
        table: TrigTable,
        origin: Vec2,
        pen_off: int,
        incr: int,
        range: int,
        max_steps: int,
    ) -> bool {
        forall|k: int|
            1 <= k <= max_steps ==> !#[trigger] self.closed_at_step(
                table,
                origin,
                pen_off,
                incr,
                range,
                k,
            )
    }

    /// Every pen position has `i64` coordinates, whatever the angles.
    pub open spec fn reach_fits(&self, origin: Origin, pen_off: int) -> bool {
        let arm = abs(self.outer().radius - self.inner().radius) + abs(
            self.inner().radius - pen_off,
        );
        &&& abs(origin.x as int) + 2 * abs(self.outer().center.x as int) + arm <= i64::MAX
        &&& abs(origin.y as int) + 2 * abs(self.outer().center.y as int) + arm <= i64::MAX
    }

    /// Both circles' angles stay within `i64` when the inner circle turns
    /// through `inner_angle`.
    pub open spec fn angle_fits(&self, inner_angle: int) -> bool {
        &&& i64::MIN <= inner_angle <= i64::MAX
        &&& i64::MIN <= self.outer_angle(inner_angle) <= i64::MAX
    }

    /// Both circles' angles stay within `i64` for `max_steps` steps of
    /// `incr`.
    pub open spec fn steps_fit(&self, incr: int, max_steps: int) -> bool {
        incr > 0 ==> self.angle_fits(max_steps * incr)
    }

    /// Makes a spirograph around `center`. Either radius being zero or
    /// negative is refused. Both circles start with a sweep of one full turn.
    pub fn new(center: Point, outer_radius: i64, inner_radius: i64) -> (r: Result<
        SpiroGraph,
        SpiroError,
    >)
        ensures
            outer_radius > 0 && inner_radius > 0 ==> (r matches Ok(g) && g.wf()
                && g.outer() == Circle { radius: outer_radius, angle: TURN, center }
                && g.inner() == Circle { radius: inner_radius, angle: TURN, center }),
            outer_radius <= 0 || inner_radius <= 0 ==> (r matches Err(e)
                && e == SpiroError::InvalidGeometry),
    {
        let outer = Circle::new(center, TURN, outer_radius);
        let inner = Circle::new(center, TURN, inner_radius);
        match (outer, inner) {
            (Ok(outer), Ok(inner)) => Ok(SpiroGraph { outer, inner }),
            _ => Err(SpiroError::InvalidGeometry),
        }
    }

    /// The outer circle as it was configured.
    pub fn outer_circle(&self) -> (c: Circle)
        ensures
            c == self.outer(),
            c.wf(),
    {
        proof {
            use_type_invariant(self);
        }
        self.outer
    }

    /// The inner circle as it was configured.
    pub fn inner_circle(&self) -> (c: Circle)
        ensures
            c == self.inner(),
            c.wf(),
    {
        proof {
            use_type_invariant(self);
        }
        self.inner
    }

    /// Decides [`SpiroGraph::reach_fits`].
    pub fn check_reach(&self, origin: &Origin, pen_off: i64) -> (b: bool)
        ensures
            b == self.reach_fits(*origin, pen_off as int),
    {
        let arm: i128 = distance(self.outer.radius, self.inner.radius) + distance(
            self.inner.radius,
            pen_off,
        );
        magnitude(origin.x) + 2 * magnitude(self.outer.center.x) + arm <= i64::MAX as i128
            && magnitude(origin.y) + 2 * magnitude(self.outer.center.y) + arm <= i64::MAX as i128
    }

    /// Decides [`SpiroGraph::angle_fits`].
    pub fn check_angle(&self, inner_angle: i64) -> (b: bool)
        ensures
            b == self.angle_fits(inner_angle as int),
    {
        proof {
            use_type_invariant(self);
        }
        let arc: i128 = wide_mul(inner_angle, self.inner.radius);
        let turned: i128 = arc / (self.outer.radius as i128);
        proof {
            lemma_trunc_div_bounds(arc as int, self.outer.radius as int);
        }
        i64::MIN as i128 <= -turned && -turned <= i64::MAX as i128
    }

    /// Decides [`SpiroGraph::steps_fit`].
    pub fn check_steps(&self, incr: i64, max_steps: u64) -> (b: bool)
        ensures
            b == self.steps_fit(incr as int, max_steps as int),
    {
        if incr <= 0 {
            return true;
        }
        assert(0 <= max_steps * incr <= 0xffff_ffff_ffff_ffff * 0x7fff_ffff_ffff_ffff)
            by (nonlinear_arith)
            requires
                0 <= max_steps <= 0xffff_ffff_ffff_ffff,
                0 < incr <= 0x7fff_ffff_ffff_ffff,
        ;
        let last: u128 = (max_steps as u128) * (incr as u128);
        if last > i64::MAX as u128 {
            return false;
        }
        self.check_angle(last as i64)
    }

    /// Decides [`SpiroGraph::sweep_fits`].
    pub fn check_sweep(&self, incr: i64, sweep: i64) -> (b: bool)
        ensures
            b == self.sweep_fits(incr as int, sweep as int),
    {
        if incr <= 0 || sweep <= 0 {
            return true;
        }
        proof {
            use_type_invariant(self);
            self.lemma_inner_sweep(sweep as int, 0);
        }
        let target: i128 = wide_mul(sweep, self.outer.radius);
        let need: i128 = (target + (self.inner.radius as i128) - 1) / (self.inner.radius as i128);
        let last: i128 = need + (incr as i128);
        if last > i64::MAX as i128 {
            return false;
        }
        self.check_angle(last as i64)
    }

    /// The state of the simulation when the inner circle has turned through
    /// `inner_angle`. It depends on nothing but the arguments, so a step can
    /// be computed, and checked, on its own.
    pub fn state_at(&self, table: &TrigTable, origin: &Origin, pen_off: i64, inner_angle: i64)
        -> (s: PenState)
        requires
            self.reach_fits(*origin, pen_off as int),
            self.angle_fits(inner_angle as int),
        ensures
            s.inner_angle == inner_angle,
            s.outer_angle == self.outer_angle(inner_angle as int),
            s.inner_center@ == self.inner_center(*table, inner_angle as int),
            s.pen@ == self.pen(*table, origin@, pen_off as int, inner_angle as int),
    {
        proof {
            use_type_invariant(self);
        }
        let mut circ_out: Circle = self.outer;
        let mut circ_in: Circle = self.inner;
        circ_in.angle = inner_angle;
        let arc: i128 = circ_in.get_arc_len();
        proof {
            lemma_trunc_div_neg(arc as int, self.outer.radius as int);
        }
        circ_out.set_angle_by_arc(-arc);
        circ_in.center = circ_out.get_offset_point(table, self.inner.radius);
        let frame: Origin = origin.offset(circ_out.center);
        let pen: Point = circ_in.get_offset_point(table, pen_off);
        PenState {
            inner_angle,
            outer_angle: circ_out.angle,
            inner_center: circ_in.center,
            pen: frame.offset(pen),
        }
    }

    /// Runs the simulation from angle zero in steps of `incr` until the curve
    /// closes, for at most `max_steps` steps.
    ///
    /// A step that is zero or negative is refused before anything is
    /// computed. Otherwise the trace ends at the first step at which the
    /// outer circle has passed one full turn and the pen is within `range` of
    /// its start; if no step up to `max_steps` is such a step, the trace is
    /// given up.
    pub fn trace(
        &self,
        table: &TrigTable,
        origin: &Origin,
        pen_off: i64,
        incr: i64,
        range: i64,
        max_steps: u64,
    ) -> (r: Result<Trace, SpiroError>)
        requires
            incr > 0 ==> self.reach_fits(*origin, pen_off as int),
            self.steps_fit(incr as int, max_steps as int),
        ensures
            incr <= 0 ==> (r matches Err(e) && e == SpiroError::NonProgressing),
            incr > 0 ==> (match r {
                Ok(t) => {
                    &&& self.closes_with(
                        *table,
                        origin@,
                        pen_off as int,
                        incr as int,
                        range as int,
                        max_steps as int,
                        t.report,
                    )
                    &&& t.path@ == self.trace_points(
                        *table,
                        origin@,
                        pen_off as int,
                        incr as int,
                        t.report.steps as int,
                    )
                    &&& t.report.outer_angle < -TURN
                    &&& near(t.path@.last(), t.path@.first(), range as int)
                },
                Err(e) => {
                    &&& e == SpiroError::DidNotClose
                    &&& self.never_closes(
                        *table,
                        origin@,
                        pen_off as int,
                        incr as int,
                        range as int,
                        max_steps as int,
                    )
                },
            }),
    {
        if incr <= 0 {
            return Err(SpiroError::NonProgressing);
        }
        proof {
            use_type_invariant(self);
            self.lemma_steps_fit(incr as int, max_steps as int, 0);
            assert(0 * (incr as int) == 0) by (nonlinear_arith);
        }
        let begin: Origin = self.state_at(table, origin, pen_off, 0).pen;
        let mut path: Polyline = Polyline::new(Point::new(begin.x, begin.y));
        let mut steps: u64 = 0;
        let mut angle: i64 = 0;
        proof {
            assert(path@ =~= self.trace_points(*table, origin@, pen_off as int, incr as int, 0));
        }
        while steps < max_steps
            invariant
                incr > 0,
                self.wf(),
                self.reach_fits(*origin, pen_off as int),
                self.steps_fit(incr as int, max_steps as int),
                steps <= max_steps,
                angle == steps * incr,
                begin@ == self.pen(*table, origin@, pen_off as int, 0),
                path@ == self.trace_points(
                    *table,
                    origin@,
                    pen_off as int,
                    incr as int,
                    steps as int,
                ),
                self.never_closes(
                    *table,
                    origin@,
                    pen_off as int,
                    incr as int,
                    range as int,
                    steps as int,
                ),
            decreases max_steps - steps,
        {
            proof {
                self.lemma_steps_fit(incr as int, max_steps as int, steps + 1);
                assert((steps + 1) * incr == steps * incr + incr) by (nonlinear_arith);
            }
            steps += 1;
            angle += incr;
            let state: PenState = self.state_at(table, origin, pen_off, angle);
            path.line_to(Point::new(state.pen.x, state.pen.y));
            proof {
                assert(path@ =~= self.trace_points(
                    *table,
                    origin@,
                    pen_off as int,
                    incr as int,
                    steps as int,
                ));
            }
            if state.outer_angle < -TURN && state.pen.within_range(&begin, range) {
                proof {
                    assert(path@.last() == state.pen@);
                    assert(path@.first() == begin@);
                }
                return Ok(
                    Trace {
                        path,
                        report: TraceReport {
                            steps,
                            inner_angle: angle,
                            outer_angle: state.outer_angle,
                        },
                    },
                );
            }
        }
        Err(SpiroError::DidNotClose)
    }

    /// At step `k` of a trace that advances by `incr` a step, the outer
    /// circle has turned through `sweep` or more.
    pub open spec fn swept_at_step(&self, incr: int, sweep: int, k: int) -> bool {
        self.outer_angle(k * incr) <= -sweep
    }

    /// Step `k` is the first step at which the outer circle has turned
    /// through `sweep` or more.
    pub open spec fn sweep_step(&self, incr: int, sweep: int, k: int) -> bool {
        &&& k >= 0
        &&& self.swept_at_step(incr, sweep, k)
        &&& forall|j: int| 0 <= j < k ==> !#[trigger] self.swept_at_step(incr, sweep, j)
    }

    /// The least inner angle at which the outer circle has turned through a
    /// positive `sweep`.
    pub open spec fn inner_sweep(&self, sweep: int) -> int {
        (sweep * self.outer().radius + self.inner().radius - 1) / (self.inner().radius as int)
    }

    /// Both circles' angles stay within `i64` until the outer circle has
    /// turned through `sweep`, and for one step more.
    pub open spec fn sweep_fits(&self, incr: int, sweep: int) -> bool {
        incr > 0 && sweep > 0 ==> self.angle_fits(self.inner_sweep(sweep) + incr)
    }

    /// Runs the simulation from angle zero in steps of `incr` until the outer
    /// circle has turned through `sweep`, whether or not the curve has
    /// closed by then.
    ///
    /// A sweep that is zero or negative is covered at once and gives the
    /// start alone. A step that is zero or negative is refused where the
    /// sweep is positive, since it would never cover it.
    pub fn trace_sweep(
        &self,
        table: &TrigTable,
        origin: &Origin,
        pen_off: i64,
        incr: i64,
        sweep: i64,
    ) -> (r: Result<Trace, SpiroError>)
        requires
            incr > 0 || sweep <= 0 ==> self.reach_fits(*origin, pen_off as int),
            self.sweep_fits(incr as int, sweep as int),
        ensures
            incr <= 0 && sweep > 0 ==> (r matches Err(e) && e == SpiroError::NonProgressing),
            incr > 0 || sweep <= 0 ==> (r matches Ok(t) && {
                &&& self.sweep_step(incr as int, sweep as int, t.report.steps as int)
                &&& t.report.inner_angle == t.report.steps * incr
                &&& t.report.outer_angle == self.outer_angle(t.report.steps * incr)
                &&& t.path@ == self.trace_points(
                    *table,
                    origin@,
                    pen_off as int,
                    incr as int,
                    t.report.steps as int,
                )
            }),
    {
        if incr <= 0 && sweep > 0 {
            return Err(SpiroError::NonProgressing);
        }
        proof {
            use_type_invariant(self);
            self.lemma_outer_angle_monotone(0, 0);
            assert(0 * (incr as int) == 0) by (nonlinear_arith);
        }
        let mut state: PenState = self.state_at(table, origin, pen_off, 0);
        let mut path: Polyline = Polyline::new(Point::new(state.pen.x, state.pen.y));
        let mut steps: u64 = 0;
        proof {
            assert(path@ =~= self.trace_points(*table, origin@, pen_off as int, incr as int, 0));
        }
        while sweep > 0 && state.outer_angle > -sweep
            invariant
                incr > 0 || sweep <= 0,
                self.wf(),
                self.reach_fits(*origin, pen_off as int),
                self.sweep_fits(incr as int, sweep as int),
                0 <= steps <= state.inner_angle,
                state.inner_angle == steps * incr,
                state.outer_angle == self.outer_angle(steps * incr),
                state.outer_angle <= 0,
                path@ == self.trace_points(
                    *table,
                    origin@,
                    pen_off as int,
                    incr as int,
                    steps as int,
                ),
                forall|j: int|
                    0 <= j < steps ==> !#[trigger] self.swept_at_step(
                        incr as int,
                        sweep as int,
                        j,
                    ),
            decreases
                    (if state.inner_angle < self.inner_sweep(sweep as int) {
                        self.inner_sweep(sweep as int) - state.inner_angle
                    } else {
                        0
                    }),
        {
            proof {
                let need = self.inner_sweep(sweep as int);
                self.lemma_inner_sweep(sweep as int, state.inner_angle as int);
                self.lemma_outer_angle_monotone(0, need + incr);
                self.lemma_outer_angle_monotone(state.inner_angle + incr, need + incr);
                assert((steps + 1) * incr == steps * incr + incr) by (nonlinear_arith);
            }
            steps += 1;
            state = self.state_at(table, origin, pen_off, state.inner_angle + incr);
            path.line_to(Point::new(state.pen.x, state.pen.y));
            proof {
                assert(path@ =~= self.trace_points(
                    *table,
                    origin@,
                    pen_off as int,
                    incr as int,
                    steps as int,
                ));
            }
        }
        Ok(
            Trace {
                path,
                report: TraceReport {
                    steps,
                    inner_angle: state.inner_angle,
                    outer_angle: state.outer_angle,
                },
            },
        )
    }

    /// Traces until the curve closes and, where it does not close within
    /// `max_steps` steps, traces over the fixed `sweep` of the outer circle
    /// instead. Closure comes first; the sweep is the fallback.
    pub fn trace_or_sweep(
        &self,
        table: &TrigTable,
        origin: &Origin,
        pen_off: i64,
        incr: i64,
        range: i64,
        max_steps: u64,
        sweep: i64,
    ) -> (r: Result<Trace, SpiroError>)
        requires
            incr > 0 ==> self.reach_fits(*origin, pen_off as int),
            self.steps_fit(incr as int, max_steps as int),
            self.sweep_fits(incr as int, sweep as int),
        ensures
            incr <= 0 ==> (r matches Err(e) && e == SpiroError::NonProgressing),
            incr > 0 ==> (r matches Ok(t) && {
                &&& t.path@ == self.trace_points(
                    *table,
                    origin@,
                    pen_off as int,
                    incr as int,
                    t.report.steps as int,
                )
                &&& t.report.inner_angle == t.report.steps * incr
                &&& t.report.outer_angle == self.outer_angle(t.report.steps * incr)
                &&& self.closes_with(
                    *table,
                    origin@,
                    pen_off as int,
                    incr as int,
                    range as int,
                    max_steps as int,
                    t.report,
                ) || (self.never_closes(
                    *table,
                    origin@,
                    pen_off as int,
                    incr as int,
                    range as int,
                    max_steps as int,
                ) && self.sweep_step(incr as int, sweep as int, t.report.steps as int))
            }),
    {
        match self.trace(table, origin, pen_off, incr, range, max_steps) {
            Ok(trace) => Ok(trace),
            Err(SpiroError::DidNotClose) => self.trace_sweep(table, origin, pen_off, incr, sweep),
            Err(e) => Err(e),
        }
    }

    /// The further the inner circle has turned forward, the further the outer
    /// circle has turned back.
    pub proof fn lemma_outer_angle_monotone(&self, a: int, b: int)
        requires
            self.wf(),
            0 <= a <= b,
        ensures
            self.outer_angle(b) <= self.outer_angle(a) <= 0,
            self.outer_angle(0) == 0,
    {
        let r = self.inner().radius as int;
        let big = self.outer().radius as int;
        assert(0 <= a * r <= b * r && 0 * r == 0) by (nonlinear_arith)
            requires
                0 <= a <= b,
                r > 0,
        ;
        assert(0 <= (a * r) / big <= (b * r) / big && 0int / big == 0) by (nonlinear_arith)
            requires
                0 <= a * r <= b * r,
                big > 0,
        ;
    }

    /// The outer circle has turned through a positive `sweep` exactly when
    /// the inner circle has turned through `inner_sweep(sweep)` or more.
    pub proof fn lemma_inner_sweep(&self, sweep: int, inner_angle: int)
        requires
            self.wf(),
            sweep > 0,
            inner_angle >= 0,
        ensures
            self.outer_angle(inner_angle) <= -sweep <==> inner_angle >= self.inner_sweep(sweep),
            self.inner_sweep(sweep) > 0,
    {
        let r = self.inner().radius as int;
        let big = self.outer().radius as int;
        let arc = inner_angle * r;
        let need = self.inner_sweep(sweep);
        let target = sweep * big;
        assert(arc >= 0 && target > 0) by (nonlinear_arith)
            requires
                arc == inner_angle * r,
                target == sweep * big,
                inner_angle >= 0,
                r > 0,
                sweep > 0,
                big > 0,
        ;
        assert(arc / big >= sweep <==> arc >= target) by (nonlinear_arith)
            requires
                arc >= 0,
                big > 0,
                target == sweep * big,
        ;
        assert(need > 0 && (inner_angle >= need <==> inner_angle * r >= target))
            by (nonlinear_arith)
            requires
                need == (target + r - 1) / r,
                r > 0,
                target > 0,
        ;
    }

    /// Strokes the outer circle's border on `canvas`, sampled every `incr`
    /// ticks. A refusal leaves the canvas as it was.
    pub fn draw_border(
        &self,
        canvas: &mut Canvas,
        table: &TrigTable,
        stroke: &StrokeStyle,
        color: Color,
        incr: i64,
    ) -> (r: Result<(), SpiroError>)
        requires
            incr > 0 || self.outer().angle <= 0 ==> self.outer().border_fits(
                old(canvas).origin,
                incr as int,
            ),
        ensures
            (match self.outer().border_outcome(*table, old(canvas).origin@, incr as int) {
                Ok(points) => r is Ok && final(canvas).strokes() == old(canvas).strokes().push(
                    ShapeModel { path: points, color, stroke: stroke@ },
                ),
                Err(e) => r == Err::<(), SpiroError>(e) && final(canvas).strokes() == old(
                    canvas,
                ).strokes(),
            }),
            final(canvas).width == old(canvas).width,
            final(canvas).height == old(canvas).height,
            final(canvas).background == old(canvas).background,
            final(canvas).origin == old(canvas).origin,
    {
        let origin: Origin = canvas.origin;
        match self.outer.create_path(table, &origin, incr) {
            Ok(path) => {
                canvas.draw(path, color, stroke);
                Ok(())
            },
            Err(e) => Err(e),
        }
    }

    /// Traces the curve and strokes it on `canvas`. The trace is that of
    /// [`SpiroGraph::trace`] in the canvas's frame; a refusal leaves the
    /// canvas as it was.
    pub fn draw(
        &self,
        canvas: &mut Canvas,
        table: &TrigTable,
        stroke: &StrokeStyle,
        color: Color,
        pen_off: i64,
        incr: i64,
        range: i64,
        max_steps: u64,
    ) -> (r: Result<TraceReport, SpiroError>)
        requires
            incr > 0 ==> self.reach_fits(old(canvas).origin, pen_off as int),
            self.steps_fit(incr as int, max_steps as int),
        ensures
            incr <= 0 ==> r == Err::<TraceReport, SpiroError>(SpiroError::NonProgressing),
            incr > 0 ==> (match r {
                Ok(report) => {
                    &&& self.closes_with(
                        *table,
                        old(canvas).origin@,
                        pen_off as int,
                        incr as int,
                        range as int,
                        max_steps as int,
                        report,
                    )
                    &&& final(canvas).strokes() == old(canvas).strokes().push(
                        ShapeModel {
                            path: self.trace_points(
                                *table,
                                old(canvas).origin@,
                                pen_off as int,
                                incr as int,
                                report.steps as int,
                            ),
                            color,
                            stroke: stroke@,
                        },
                    )
                },
                Err(e) => {
                    &&& e == SpiroError::DidNotClose
                    &&& self.never_closes(
                        *table,
                        old(canvas).origin@,
                        pen_off as int,
                        incr as int,
                        range as int,
                        max_steps as int,
                    )
                },
            }),
            r is Err ==> final(canvas).strokes() == old(canvas).strokes(),
            final(canvas).width == old(canvas).width,
            final(canvas).height == old(canvas).height,
            final(canvas).background == old(canvas).background,
            final(canvas).origin == old(canvas).origin,
    {
        let origin: Origin = canvas.origin;
        match self.trace(table, &origin, pen_off, incr, range, max_steps) {
            Ok(trace) => {
                let report: TraceReport = trace.report;
                canvas.draw(trace.path, color, stroke);
                Ok(report)
            },
            Err(e) => Err(e),
        }
    }

    /// If the angles fit after `max_steps` steps, they fit after every
    /// smaller number of steps.
    pub proof fn lemma_steps_fit(&self, incr: int, max_steps: int, k: int)
        requires
            self.wf(),
            incr > 0,
            0 <= k <= max_steps,
            self.steps_fit(incr, max_steps),
        ensures
            self.angle_fits(k * incr),
            0 <= k * incr <= max_steps * incr,
            self.outer_angle(k * incr) <= 0,
    {
        let r = self.inner().radius as int;
        let big = self.outer().radius as int;
        let a = k * incr;
        let m = max_steps * incr;
        assert(0 <= a <= m) by (nonlinear_arith)
            requires
                a == k * incr,
                m == max_steps * incr,
                incr > 0,
                0 <= k <= max_steps,
        ;
        assert(0 <= a * r <= m * r) by (nonlinear_arith)
            requires
                0 <= a <= m,
                r > 0,
        ;
        assert(0 <= (a * r) / big <= (m * r) / big) by (nonlinear_arith)
            requires
                0 <= a * r <= m * r,
                big > 0,
        ;
    }
}

/// The state of the simulation at one inner angle.
#[derive(Clone, Copy, PartialEq, Eq, Structural, Debug)]
pub struct PenState {
    /// How far the inner circle has turned.
    pub inner_angle: i64,
    /// How far the outer circle has turned, in the opposite sense.
    pub outer_angle: i64,
    /// Where the inner circle's center lies.
    pub inner_center: Point,
    /// Where the pen lies, in the frame of the drawing.
    pub pen: Origin,
}

/// Rolling without slipping: the arcs that the two circles have turned
/// through cancel, up to the rounding of the outer angle to a whole tick,
/// and the outer circle turns against the inner one.
pub proof fn lemma_no_slip(g: SpiroGraph, inner_angle: int)
    requires
        g.wf(),
    ensures
        ({
            let slip = g.outer_angle(inner_angle) * g.outer().radius + inner_angle
                * g.inner().radius;
            &&& -g.outer().radius < slip < g.outer().radius
            &&& inner_angle >= 0 ==> g.outer_angle(inner_angle) <= 0 && slip >= 0
            &&& inner_angle <= 0 ==> g.outer_angle(inner_angle) >= 0 && slip <= 0
        }),
{
    let big = g.outer().radius as int;
    let r = g.inner().radius as int;
    let arc = inner_angle * r;
    assert(inner_angle >= 0 ==> arc >= 0) by (nonlinear_arith)
        requires
            arc == inner_angle * r,
            r > 0,
    ;
    assert(inner_angle <= 0 ==> arc <= 0) by (nonlinear_arith)
        requires
            arc == inner_angle * r,
            r > 0,
    ;
    lemma_trunc_div_bounds(arc, big);
    let q = trunc_div(arc, big);
    assert((-q) * big == -(q * big)) by (nonlinear_arith);
}

/// Whenever both circles have made whole turns, the inner circle's center
/// and the pen are exactly where they started. For radii in a whole-number
/// ratio this happens again and again, which is why such curves close.
pub proof fn lemma_whole_turns_return(
    g: SpiroGraph,
    table: TrigTable,
    origin: Vec2,
    pen_off: int,
    inner_angle: int,
)
    requires
        g.wf(),
        inner_angle % (TURN as int) == 0,
        g.outer_angle(inner_angle) % (TURN as int) == 0,
    ensures
        g.outer_angle(0) == 0,
        g.inner_center(table, inner_angle) == g.inner_center(table, 0),
        g.pen(table, origin, pen_off, inner_angle) == g.pen(table, origin, pen_off, 0),
{
    g.lemma_outer_angle_monotone(0, 0);
}

/// With the pen mounted at the inner circle's center, every pen position is
/// that center, whatever the inner circle's angle; with the pen on the rim,
/// every pen position is the rim point at the inner circle's angle.
pub proof fn lemma_pen_mounting(g: SpiroGraph, table: TrigTable, origin: Vec2, inner_angle: int)
    ensures
        g.pen(table, origin, g.inner().radius as int, inner_angle) == origin.plus(
            g.outer().center@,
        ).plus(g.inner_center(table, inner_angle)),
        g.pen(table, origin, 0, inner_angle) == origin.plus(g.outer().center@).plus(
            ray_point(
                g.inner_center(table, inner_angle),
                table.at(inner_angle),
                g.inner().radius as int,
            ),
        ),
{
    let dir = table.at(inner_angle);
    lemma_scaled_identities(dir.cos as int, 0);
    lemma_scaled_identities(dir.sin as int, 0);
}

/// Where the pen and the inner circle lie: the inner circle's center lies
/// about `R - r` from the outer center, and the pen lies about `r - pen_off`
/// from the inner circle's center. With the pen mounted at that center the
/// whole trace therefore runs about `R - r` from the outer center, in the
/// frame of the drawing.
pub proof fn lemma_pen_distances(
    g: SpiroGraph,
    table: TrigTable,
    origin: Vec2,
    pen_off: int,
    inner_angle: int,
)
    requires
        table.wf(),
        g.wf(),
    ensures
        ({
            let frame = origin.plus(g.outer().center@);
            let center = g.inner_center(table, inner_angle);
            let pen = g.pen(table, origin, pen_off, inner_angle);
            &&& g.inner().radius <= g.outer().radius ==> about(
                dist_sq(g.outer().center@, center),
                g.outer().radius - g.inner().radius,
            )
            &&& pen_off <= g.inner().radius ==> about(
                dist_sq(frame.plus(center), pen),
                g.inner().radius - pen_off,
            )
            &&& pen_off == g.inner().radius && g.inner().radius <= g.outer().radius ==> about(
                dist_sq(frame.plus(g.outer().center@), pen),
                g.outer().radius - g.inner().radius,
            )
        }),
{
    let frame = origin.plus(g.outer().center@);
    let center = g.inner_center(table, inner_angle);
    let pen = g.pen(table, origin, pen_off, inner_angle);
    let outer_dir = table.at(g.outer_angle(inner_angle));
    let inner_dir = table.at(inner_angle);
    lemma_direction_unit(table, g.outer_angle(inner_angle));
    lemma_direction_unit(table, inner_angle);
    if g.inner().radius <= g.outer().radius {
        lemma_ray_point_distance(
            g.outer().center@,
            outer_dir,
            g.outer().radius - g.inner().radius,
        );
    }
    if pen_off <= g.inner().radius {
        lemma_ray_point_distance(center, inner_dir, g.inner().radius - pen_off);
        let p = ray_point(center, inner_dir, g.inner().radius - pen_off);
        assert(pen == frame.plus(p));
        assert(dist_sq(frame.plus(center), frame.plus(p)) == dist_sq(center, p));
    }
    if pen_off == g.inner().radius && g.inner().radius <= g.outer().radius {
        lemma_pen_mounting(g, table, origin, inner_angle);
        assert(pen == frame.plus(center));
        assert(dist_sq(frame.plus(g.outer().center@), frame.plus(center)) == dist_sq(
            g.outer().center@,
            center,
        ));
    }
}

/// The simulation is deterministic: the parameters fix the closing step, and
/// with it the whole trace. Two traces of the same parameters agree vertex
/// for vertex.
pub proof fn lemma_trace_deterministic(
    g: SpiroGraph,
    table: TrigTable,
    origin: Vec2,
    pen_off: int,
    incr: int,
    range: int,
    k1: int,
    k2: int,
)
    requires
        g.closing_step(table, origin, pen_off, incr, range, k1),
        g.closing_step(table, origin, pen_off, incr, range, k2),
    ensures
        k1 == k2,
        g.trace_points(table, origin, pen_off, incr, k1) == g.trace_points(
            table,
            origin,
            pen_off,
            incr,
            k2,
        ),
{
    if k1 < k2 {
        assert(!g.closed_at_step(table, origin, pen_off, incr, range, k1));
    } else if k2 < k1 {
        assert(!g.closed_at_step(table, origin, pen_off, incr, range, k2));
    }
}

/// A trace that closed ends within `range` of its start, after the outer
/// circle has passed one full turn.
pub proof fn lemma_trace_closes(
    g: SpiroGraph,
    table: TrigTable,
    origin: Vec2,
    pen_off: int,
    incr: int,
    range: int,
    k: int,
)
    requires
        g.closing_step(table, origin, pen_off, incr, range, k),
    ensures
        ({
            let points = g.trace_points(table, origin, pen_off, incr, k);
            &&& points.len() == k + 1
            &&& near(points.last(), points.first(), range)
            &&& g.outer_angle(k * incr) < -TURN
        }),
{
    assert(0 * incr == 0) by (nonlinear_arith);
}

} // verus!
