//! Circles with an angular state, and the points on and inside them.

use vstd::prelude::*;
use crate::arith::{
    abs, distance, lemma_scaled_bound, lemma_scaled_identities, lemma_trunc_div_bounds,
    lemma_trunc_div_cancel, magnitude, scale, scaled, trunc_div, wide_mul, TURN, UNIT,
};
use crate::error::SpiroError;
use crate::geom::{dist_sq, Origin, Point, Vec2};
use crate::path::Polyline;
use crate::trig::{
    lemma_cos_descends, lemma_direction_periodic, lemma_direction_unit, Direction, TrigTable,
};

verus! {

/// The point at the distance `reach` from `center` in the direction `dir`.
/// A negative `reach` lies on the opposite ray.
pub open spec fn ray_point(center: Vec2, dir: Direction, reach: int) -> Vec2 {
    Vec2 {
        x: center.x + scaled(dir.cos as int, reach),
        y: center.y + scaled(dir.sin as int, reach),
    }
}

/// The number of steps of size `incr` that it takes to cover `sweep`: the
/// least `k >= 0` with `k * incr >= sweep`.
pub open spec fn steps_to_cover(sweep: int, incr: int) -> int {
    if sweep <= 0 {
        0
    } else {
        (sweep + incr - 1) / incr
    }
}

/// A circle: where it is, how large it is, and how far it has turned.
///
/// `angle` counts ticks and is not reduced to one turn: it accumulates over
/// many turns, and a negative value is a rotation in the opposite sense.
#[derive(Clone, Copy, PartialEq, Eq, Structural, Debug)]
pub struct Circle {
    pub radius: i64,
    pub angle: i64,
    pub center: Point,
}

impl Circle {
    /// The radius is positive.
    pub open spec fn wf(&self) -> bool {
        self.radius > 0
    }

    /// The signed length of the arc that the circle has turned through.
    pub open spec fn arc_len(&self) -> int {
        self.angle * self.radius
    }

    /// The angle at which the arc turned through has the signed length
    /// `arc_len`, rounded toward zero.
    pub open spec fn angle_of_arc(&self, arc_len: int) -> int {
        trunc_div(arc_len, self.radius as int)
    }

    /// The point on the ray at the circle's current angle that lies
    /// `off_rad` inside the rim.
    pub open spec fn offset_point(&self, table: TrigTable, off_rad: int) -> Vec2 {
        ray_point(self.center@, table.at(self.angle as int), self.radius - off_rad)
    }

    /// Every point within `radius - off_rad` of the center, along either
    /// axis, has `i64` coordinates.
    pub open spec fn reach_fits(&self, off_rad: int) -> bool {
        let reach = abs(self.radius - off_rad);
        abs(self.center.x as int) + reach <= i64::MAX && abs(self.center.y as int) + reach
            <= i64::MAX
    }

    /// The rim point at `angle`, placed in the frame that lies at `origin`:
    /// a point of the circle about `origin + center`.
    pub open spec fn rim_vertex(&self, table: TrigTable, origin: Vec2, angle: int) -> Vec2 {
        origin.plus(ray_point(self.center@, table.at(angle), self.radius as int))
    }

    /// The border as a vertex sequence: the rim points at the multiples of
    /// `incr`, from angle 0 up to the first multiple that reaches the
    /// circle's own angle, which serves as the total sweep.
    pub open spec fn border_path(&self, table: TrigTable, origin: Vec2, incr: int) -> Seq<Vec2> {
        Seq::new(
            (steps_to_cover(self.angle as int, incr) + 1) as nat,
            |k: int| self.rim_vertex(table, origin, k * incr),
        )
    }

    /// What `create_path` returns: the border, or a refusal when a step that
    /// is zero or negative would never cover a positive sweep.
    pub open spec fn border_outcome(&self, table: TrigTable, origin: Vec2, incr: int) -> Result<
        Seq<Vec2>,
        SpiroError,
    > {
        if incr <= 0 && self.angle > 0 {
            Err(SpiroError::NonProgressing)
        } else {
            Ok(self.border_path(table, origin, incr))
        }
    }

    /// The number of steps that `steps_per_turn` steps a turn make of the
    /// circle's own sweep.
    pub open spec fn sweep_steps(&self, steps_per_turn: int) -> int {
        trunc_div(steps_per_turn * self.angle, TURN as int)
    }

    /// What `create_path_steps` returns: a refusal when the sweep holds no
    /// whole step, else the border sampled in `sweep_steps` equal steps.
    pub open spec fn stepped_outcome(&self, table: TrigTable, origin: Vec2, steps_per_turn: int)
        -> Result<Seq<Vec2>, SpiroError> {
        let n = self.sweep_steps(steps_per_turn);
        if n <= 0 {
            Err(SpiroError::NonProgressing)
        } else {
            self.border_outcome(table, origin, (self.angle as int) / n)
        }
    }

    /// Every border vertex has `i64` coordinates, and so has the sweep angle
    /// after one step too many.
    pub open spec fn border_fits(&self, origin: Origin, incr: int) -> bool {
        &&& abs(origin.x as int) + abs(self.center.x as int) + abs(self.radius as int)
            <= i64::MAX
        &&& abs(origin.y as int) + abs(self.center.y as int) + abs(self.radius as int)
            <= i64::MAX
        &&& self.angle + incr <= i64::MAX
    }

    /// Makes a circle. A radius that is zero or negative is refused.
    pub fn new(center: Point, angle: i64, radius: i64) -> (r: Result<Circle, SpiroError>)
        ensures
            radius > 0 ==> r == Ok::<Circle, SpiroError>(Circle { radius, angle, center }),
            radius <= 0 ==> r == Err::<Circle, SpiroError>(SpiroError::InvalidGeometry),
    {
        if radius <= 0 {
            Err(SpiroError::InvalidGeometry)
        } else {
            Ok(Circle { radius, angle, center })
        }
    }

    /// A copy of the circle in its current state.
    pub fn clone(&self) -> (c: Circle)
        ensures
            c == *self,
    {
        *self
    }

    /// Decides [`Circle::reach_fits`].
    pub fn check_reach(&self, off_rad: i64) -> (b: bool)
        ensures
            b == self.reach_fits(off_rad as int),
    {
        let reach: i128 = distance(self.radius, off_rad);
        magnitude(self.center.x) + reach <= i64::MAX as i128 && magnitude(self.center.y) + reach
            <= i64::MAX as i128
    }

    /// Decides [`Circle::border_fits`].
    pub fn check_border(&self, origin: &Origin, incr: i64) -> (b: bool)
        ensures
            b == self.border_fits(*origin, incr as int),
    {
        let radius: i128 = magnitude(self.radius);
        magnitude(origin.x) + magnitude(self.center.x) + radius <= i64::MAX as i128
            && magnitude(origin.y) + magnitude(self.center.y) + radius <= i64::MAX as i128
            && (self.angle as i128) + (incr as i128) <= i64::MAX as i128
    }

    /// The signed arc length `angle * radius`. It is wide enough for every
    /// angle and radius, and it can always be negated.
    pub fn get_arc_len(&self) -> (arc: i128)
        ensures
            arc == self.arc_len(),
            i128::MIN < arc,
    {
        wide_mul(self.angle, self.radius)
    }

    /// Turns the circle to the angle at which its arc has length `arc_len`.
    pub fn set_angle_by_arc(&mut self, arc_len: i128)
        requires
            old(self).wf(),
            i64::MIN <= old(self).angle_of_arc(arc_len as int) <= i64::MAX,
        ensures
            final(self).angle == old(self).angle_of_arc(arc_len as int),
            final(self).radius == old(self).radius,
            final(self).center == old(self).center,
    {
        let q: i128 = arc_len / (self.radius as i128);
        self.angle = q as i64;
    }

    /// The point on the ray at the current angle, `off_rad` inside the rim.
    pub fn get_offset_point(&self, table: &TrigTable, off_rad: i64) -> (p: Point)
        requires
            self.reach_fits(off_rad as int),
        ensures
            p@ == self.offset_point(*table, off_rad as int),
            abs(p.x - self.center.x) <= abs(self.radius - off_rad),
            abs(p.y - self.center.y) <= abs(self.radius - off_rad),
    {
        let dir: Direction = table.direction(self.angle);
        let reach: i64 = self.radius - off_rad;
        proof {
            lemma_scaled_bound(dir.cos as int, reach as int);
            lemma_scaled_bound(dir.sin as int, reach as int);
        }
        let dx: i64 = scale(dir.cos, reach);
        let dy: i64 = scale(dir.sin, reach);
        Point::new(self.center.x + dx, self.center.y + dy)
    }

    /// Samples the border into a polyline, one rim point every `incr` ticks.
    pub fn create_path(&self, table: &TrigTable, origin: &Origin, incr: i64) -> (r: Result<
        Polyline,
        SpiroError,
    >)
        requires
            incr > 0 || self.angle <= 0 ==> self.border_fits(*origin, incr as int),
        ensures
            (match r {
                Ok(path) => Ok::<Seq<Vec2>, SpiroError>(path@) == self.border_outcome(
                    *table,
                    origin@,
                    incr as int,
                ),
                Err(e) => Err::<Seq<Vec2>, SpiroError>(e) == self.border_outcome(
                    *table,
                    origin@,
                    incr as int,
                ),
            }),
    {
        if incr <= 0 && self.angle > 0 {
            return Err(SpiroError::NonProgressing);
        }
        let mut circ: Circle = *self;
        circ.angle = 0;
        let start: Point = circ.get_offset_point(table, 0);
        let first: Origin = origin.offset(start);
        let mut path: Polyline = Polyline::new(Point::new(first.x, first.y));
        let mut turned: i64 = 0;
        let ghost mut k: int = 0;
        proof {
            assert(0 * (incr as int) == 0) by (nonlinear_arith);
            assert(path@ =~= Seq::new(1, |j: int| self.rim_vertex(*table, origin@, j * incr)));
        }
        while turned < self.angle
            invariant
                self.border_fits(*origin, incr as int),
                incr > 0 || self.angle <= 0,
                k >= 0,
                k > 0 ==> incr > 0,
                turned == k * incr,
                k > 0 ==> (k - 1) * incr < self.angle,
                path@ == Seq::new(
                    (k + 1) as nat,
                    |j: int| self.rim_vertex(*table, origin@, j * incr),
                ),
            decreases (if turned < self.angle { self.angle - turned } else { 0 }),
        {
            proof {
                assert(k == 0 ==> k * incr == 0) by (nonlinear_arith);
                assert((k + 1) * incr == k * incr + incr) by (nonlinear_arith);
            }
            turned += incr;
            circ = Circle { radius: self.radius, angle: turned, center: self.center };
            let p: Point = circ.get_offset_point(table, 0);
            let current: Origin = origin.offset(p);
            path.line_to(Point::new(current.x, current.y));
            proof {
                k = k + 1;
                assert(path@ =~= Seq::new(
                    (k + 1) as nat,
                    |j: int| self.rim_vertex(*table, origin@, j * incr),
                ));
            }
        }
        proof {
            lemma_steps_to_cover(self.angle as int, incr as int, k);
        }
        Ok(path)
    }

    /// Samples the border into a polyline, dividing each full turn into
    /// `steps_per_turn` steps.
    pub fn create_path_steps(&self, table: &TrigTable, origin: &Origin, steps_per_turn: u32) -> (r:
        Result<Polyline, SpiroError>)
        requires
            self.sweep_steps(steps_per_turn as int) > 0 && (self.angle as int) / self.sweep_steps(
                steps_per_turn as int,
            ) > 0 ==> self.border_fits(
                *origin,
                (self.angle as int) / self.sweep_steps(steps_per_turn as int),
            ),
        ensures
            (match r {
                Ok(path) => Ok::<Seq<Vec2>, SpiroError>(path@) == self.stepped_outcome(
                    *table,
                    origin@,
                    steps_per_turn as int,
                ),
                Err(e) => Err::<Seq<Vec2>, SpiroError>(e) == self.stepped_outcome(
                    *table,
                    origin@,
                    steps_per_turn as int,
                ),
            }),
    {
        let product: i128 = wide_mul(steps_per_turn as i64, self.angle);
        let n: i128 = product / (TURN as i128);
        if n <= 0 {
            return Err(SpiroError::NonProgressing);
        }
        proof {
            let a = self.angle as int;
            assert(n == self.sweep_steps(steps_per_turn as int));
            assert(a > 0) by (nonlinear_arith)
                requires
                    steps_per_turn >= 0,
                    steps_per_turn * a > 0,
            ;
            assert(0 <= a / (n as int) <= a) by (nonlinear_arith)
                requires
                    a > 0,
                    n > 0,
            ;
        }
        let incr: i128 = (self.angle as i128) / n;
        self.create_path(table, origin, incr as i64)
    }
}

/// `steps_to_cover` is the least number of steps that reach the sweep.
pub proof fn lemma_steps_to_cover(sweep: int, incr: int, k: int)
    requires
        k >= 0,
        incr > 0 || sweep <= 0,
        k * incr >= sweep,
        k > 0 ==> (k - 1) * incr < sweep,
    ensures
        k == steps_to_cover(sweep, incr),
{
    if sweep <= 0 {
        if k > 0 {
            assert(false) by (nonlinear_arith)
                requires
                    k > 0,
                    incr > 0 || sweep <= 0,
                    sweep <= 0,
                    (k - 1) * incr < sweep,
                    k * incr >= sweep,
            ;
        }
    } else {
        assert(k > 0) by (nonlinear_arith)
            requires
                k >= 0,
                k * incr >= sweep,
                sweep > 0,
        ;
        let n = sweep + incr - 1;
        assert((k - 1) * incr == k * incr - incr && (k + 1) * incr == k * incr + incr)
            by (nonlinear_arith);
        assert(incr > 0);
        assert(n / incr == k) by (nonlinear_arith)
            requires
                incr > 0,
                k * incr <= n,
                n < (k + 1) * incr,
        ;
    }
}

/// The arc length and the angle determine each other: the angle that
/// belongs to a circle's own arc length is the angle it already has.
pub proof fn lemma_arc_round_trip(c: Circle)
    requires
        c.wf(),
    ensures
        c.angle_of_arc(c.arc_len()) == c.angle,
{
    lemma_trunc_div_cancel(c.angle as int, c.radius as int);
}

/// In the other direction the two are inverse up to rounding: the arc that
/// belongs to the angle of an arc length differs from that length by less
/// than one radius, and not at all where the radius divides the length.
pub proof fn lemma_arc_of_angle(c: Circle, arc_len: int)
    requires
        c.wf(),
    ensures
        abs(c.angle_of_arc(arc_len) * c.radius - arc_len) < c.radius,
        arc_len % (c.radius as int) == 0 ==> c.angle_of_arc(arc_len) * c.radius == arc_len,
{
    let r = c.radius as int;
    lemma_trunc_div_bounds(arc_len, r);
    if arc_len % r == 0 {
        let q = arc_len / r;
        assert(q * r == arc_len) by (nonlinear_arith)
            requires
                r > 0,
                arc_len % r == 0,
                q == arc_len / r,
        ;
        lemma_trunc_div_cancel(q, r);
    }
}

/// How far, in length units, the distance of an offset point from the
/// center may differ from the intended `reach`: a few units of rounding, and
/// a share that grows with the reach because directions are quantised.
pub open spec fn tolerance(reach: int) -> int {
    6 + 2 * (reach / (UNIT as int))
}

/// The squared distance `d2` belongs to a distance of `reach`, up to
/// `tolerance`: it is at most the square of the reach plus the tolerance
/// and, where the reach exceeds the tolerance, at least the square of the
/// reach minus the tolerance.
pub open spec fn about(d2: int, reach: int) -> bool {
    let t = tolerance(reach);
    &&& d2 <= (reach + t) * (reach + t)
    &&& reach >= t ==> (reach - t) * (reach - t) <= d2
}

/// A point at the distance `reach` along a unit direction lies about
/// `reach` from where the ray starts.
pub proof fn lemma_ray_point_distance(center: Vec2, dir: Direction, reach: int)
    requires
        dir.is_unit(),
        reach >= 0,
    ensures
        about(dist_sq(center, ray_point(center, dir, reach)), reach),
{
    let u = UNIT as int;
    let cs = dir.cos as int;
    let sn = dir.sin as int;
    let dx = scaled(cs, reach);
    let dy = scaled(sn, reach);
    let p = ray_point(center, dir, reach);
    assert(p.x - center.x == dx && p.y - center.y == dy);
    let d2 = dx * dx + dy * dy;
    assert(dist_sq(center, p) == d2);
    let q = reach / u;
    assert(0 <= q && q * u <= reach < q * u + u) by (nonlinear_arith)
        requires
            reach >= 0,
            u > 0,
            q == reach / u,
    ;
    let n2 = cs * cs + sn * sn;
    assert(u * u - 2 * u <= n2 <= u * u + 2 * u);
    lemma_trunc_square(cs * reach, u);
    lemma_trunc_square(sn * reach, u);
    lemma_scaled_square_sum(cs, sn, reach, u, dx, dy);
    lemma_distance_within(u, reach, q, d2);
}

/// An offset point lies about `radius - off_rad` from the center, for every
/// offset up to the radius.
pub proof fn lemma_offset_point_distance(table: TrigTable, c: Circle, off_rad: int)
    requires
        table.wf(),
        c.wf(),
        off_rad <= c.radius,
    ensures
        about(dist_sq(c.center@, c.offset_point(table, off_rad)), c.radius - off_rad),
{
    lemma_direction_unit(table, c.angle as int);
    lemma_ray_point_distance(c.center@, table.at(c.angle as int), c.radius - off_rad);
}

/// Every vertex of a border lies about one radius from `origin + center`,
/// and the first vertex is the rim point along the positive x axis,
/// `origin + center + (radius, 0)`.
pub proof fn lemma_border_on_circle(c: Circle, table: TrigTable, origin: Vec2, incr: int, k: int)
    requires
        table.wf(),
        c.wf(),
        0 <= k <= steps_to_cover(c.angle as int, incr),
    ensures
        ({
            let path = c.border_path(table, origin, incr);
            &&& about(dist_sq(origin.plus(c.center@), path[k]), c.radius as int)
            &&& path[0] == origin.plus(c.center@).plus(Vec2 { x: c.radius as int, y: 0 })
        }),
{
    let path = c.border_path(table, origin, incr);
    lemma_direction_unit(table, k * incr);
    lemma_ray_point_distance(c.center@, table.at(k * incr), c.radius as int);
    let p = ray_point(c.center@, table.at(k * incr), c.radius as int);
    assert(path[k] == origin.plus(p));
    assert(dist_sq(origin.plus(c.center@), origin.plus(p)) == dist_sq(c.center@, p));
    assert(0 * incr == 0) by (nonlinear_arith);
    lemma_scaled_identities(0, c.radius as int);
}

/// The square of a truncated quotient, scaled back up, lies below the square
/// of the dividend by less than `2 * u * |a|`.
proof fn lemma_trunc_square(a: int, u: int)
    requires
        u > 0,
    ensures
        ({
            let e = trunc_div(a, u) * u;
            e * e <= a * a && a * a - 2 * u * abs(a) <= e * e
        }),
{
    lemma_trunc_div_bounds(a, u);
    let e = trunc_div(a, u) * u;
    let m = abs(a);
    let f = abs(e);
    assert(0 <= f <= m < f + u);
    assert(f * f <= m * m && m * m - 2 * u * m <= f * f) by (nonlinear_arith)
        requires
            0 <= f <= m < f + u,
            u > 0,
    ;
    assert(f * f == e * e && m * m == a * a) by (nonlinear_arith)
        requires
            f == e || f == -e,
            m == a || m == -a,
    ;
}

/// Bounds on the squared length of a scaled unit direction, multiplied by
/// `u * u` to stay within the integers.
proof fn lemma_scaled_square_sum(cs: int, sn: int, reach: int, u: int, dx: int, dy: int)
    requires
        u > 0,
        reach >= 0,
        -u <= cs <= u,
        -u <= sn <= u,
        u * u - 2 * u <= cs * cs + sn * sn <= u * u + 2 * u,
        dx == trunc_div(cs * reach, u),
        dy == trunc_div(sn * reach, u),
        ({
            let e = dx * u;
            e * e <= (cs * reach) * (cs * reach) && (cs * reach) * (cs * reach) - 2 * u * abs(
                cs * reach,
            ) <= e * e
        }),
        ({
            let e = dy * u;
            e * e <= (sn * reach) * (sn * reach) && (sn * reach) * (sn * reach) - 2 * u * abs(
                sn * reach,
            ) <= e * e
        }),
    ensures
        u * u * (dx * dx + dy * dy) <= reach * reach * (u * u + 2 * u),
        u * u * (dx * dx + dy * dy) >= reach * reach * (u * u - 2 * u) - 4 * u * u * reach,
{
    let a = cs * reach;
    let b = sn * reach;
    let ex = dx * u;
    let ey = dy * u;
    let n2 = cs * cs + sn * sn;
    assert(a * a + b * b == reach * reach * n2) by (nonlinear_arith)
        requires
            a == cs * reach,
            b == sn * reach,
            n2 == cs * cs + sn * sn,
    ;
    assert(abs(a) <= u * reach && abs(b) <= u * reach) by (nonlinear_arith)
        requires
            a == cs * reach,
            b == sn * reach,
            -u <= cs <= u,
            -u <= sn <= u,
            reach >= 0,
    ;
    assert(ex * ex + ey * ey == u * u * (dx * dx + dy * dy)) by (nonlinear_arith)
        requires
            ex == dx * u,
            ey == dy * u,
    ;
    let r2 = reach * reach;
    assert(r2 >= 0) by (nonlinear_arith)
        requires
            r2 == reach * reach,
    ;
    assert(r2 * n2 <= r2 * (u * u + 2 * u) && r2 * n2 >= r2 * (u * u - 2 * u)) by (nonlinear_arith)
        requires
            r2 >= 0,
            u * u - 2 * u <= n2 <= u * u + 2 * u,
    ;
    assert(2 * u * abs(a) + 2 * u * abs(b) <= 4 * u * u * reach) by (nonlinear_arith)
        requires
            0 <= abs(a) <= u * reach,
            0 <= abs(b) <= u * reach,
            u > 0,
    ;
}

/// The last step of `lemma_offset_point_distance`: from the scaled bounds to
/// the bounds in terms of the tolerance.
proof fn lemma_distance_within(u: int, reach: int, q: int, d2: int)
    requires
        u > 0,
        reach >= 0,
        0 <= q,
        q * u <= reach < q * u + u,
        u * u * d2 <= reach * reach * (u * u + 2 * u),
        u * u * d2 >= reach * reach * (u * u - 2 * u) - 4 * u * u * reach,
    ensures
        ({
            let t = 6 + 2 * q;
            &&& d2 <= (reach + t) * (reach + t)
            &&& reach >= t ==> (reach - t) * (reach - t) <= d2
        }),
{
    let t = 6 + 2 * q;
    let r2 = reach * reach;
    // Divide the scaled bounds by u.
    assert(u * d2 <= r2 * u + 2 * r2) by (nonlinear_arith)
        requires
            u > 0,
            u * u * d2 <= r2 * (u * u + 2 * u),
    ;
    assert(u * d2 >= r2 * u - 2 * r2 - 4 * u * reach) by (nonlinear_arith)
        requires
            u > 0,
            u * u * d2 >= r2 * (u * u - 2 * u) - 4 * u * u * reach,
    ;
    // The reach is below (q + 1) * u, so reach * reach is below (q + 1) * u * reach.
    assert(r2 <= (q + 1) * u * reach) by (nonlinear_arith)
        requires
            r2 == reach * reach,
            0 <= reach < q * u + u,
    ;
    let up = (reach + t) * (reach + t);
    assert(u * up >= r2 * u + 2 * r2) by (nonlinear_arith)
        requires
            up == (reach + t) * (reach + t),
            r2 == reach * reach,
            t == 6 + 2 * q,
            q >= 0,
            reach >= 0,
            u > 0,
            r2 <= (q + 1) * u * reach,
    ;
    assert(d2 <= up) by (nonlinear_arith)
        requires
            u > 0,
            u * d2 <= r2 * u + 2 * r2,
            u * up >= r2 * u + 2 * r2,
    ;
    if reach >= t {
        let low = (reach - t) * (reach - t);
        assert(u * low <= r2 * u - 2 * r2 - 4 * u * reach) by (nonlinear_arith)
            requires
                low == (reach - t) * (reach - t),
                r2 == reach * reach,
                t == 6 + 2 * q,
                q >= 0,
                reach >= t,
                u > 0,
                r2 <= (q + 1) * u * reach,
        ;
        assert(low <= d2) by (nonlinear_arith)
            requires
                u > 0,
                u * low <= r2 * u - 2 * r2 - 4 * u * reach,
                u * d2 >= r2 * u - 2 * r2 - 4 * u * reach,
        ;
    }
}

/// A border that sweeps one full turn ends less than one step past its
/// start: its last vertex is the rim point at an angle in `[0, incr)`, where
/// its first vertex is the rim point at angle 0. When the step divides the
/// turn, the two coincide.
pub proof fn lemma_border_closes(c: Circle, table: TrigTable, origin: Vec2, incr: int)
    requires
        c.angle == TURN,
        incr > 0,
    ensures
        ({
            let path = c.border_path(table, origin, incr);
            let excess = steps_to_cover(TURN as int, incr) * incr - TURN;
            &&& path.first() == c.rim_vertex(table, origin, 0)
            &&& 0 <= excess < incr
            &&& path.last() == c.rim_vertex(table, origin, excess)
            &&& (TURN as int) % incr == 0 ==> path.last() == path.first()
        }),
{
    let turn = TURN as int;
    let k = steps_to_cover(turn, incr);
    let n = turn + incr - 1;
    assert(k * incr <= n < k * incr + incr && k >= 1) by (nonlinear_arith)
        requires
            k == n / incr,
            incr > 0,
            n >= incr,
    ;
    let excess = k * incr - turn;
    assert(0 * incr == 0) by (nonlinear_arith);
    lemma_direction_periodic(table, excess, 1);
    assert(table.at(k * incr) == table.at(excess));
    if turn % incr == 0 {
        assert(excess == 0) by (nonlinear_arith)
            requires
                turn % incr == 0,
                incr > 0,
                excess == k * incr - turn,
                0 <= excess < incr,
        ;
    }
}

/// How much the squared distance between the ends of a full-turn border
/// may exceed the squared length of one step's chord: the width of the band
/// in which `lemma_offset_point_distance` confines the squared distance of a
/// rim point from the center.
pub open spec fn chord_slack(radius: int) -> int {
    let t = tolerance(radius);
    let outer = (radius + t) * (radius + t);
    if radius >= t {
        outer - (radius - t) * (radius - t)
    } else {
        outer
    }
}

/// The ends of a border that sweeps one full turn, in steps of at most half
/// a turn, are within one step's chord length of each other: the squared
/// distance from the first vertex to the last exceeds the squared distance
/// from the first vertex to the second by no more than `chord_slack`.
pub proof fn lemma_border_chord(c: Circle, table: TrigTable, origin: Vec2, incr: int)
    requires
        table.wf(),
        c.wf(),
        c.angle == TURN,
        0 < incr <= TURN / 2,
    ensures
        ({
            let path = c.border_path(table, origin, incr);
            &&& path.len() >= 3
            &&& dist_sq(path.first(), path.last()) <= dist_sq(
                path[0],
                path[1],
            ) + chord_slack(c.radius as int)
        }),
{
    let turn = TURN as int;
    let radius = c.radius as int;
    let path = c.border_path(table, origin, incr);
    let k = steps_to_cover(turn, incr);
    let excess = k * incr - turn;
    lemma_border_closes(c, table, origin, incr);
    assert(k >= 2) by (nonlinear_arith)
        requires
            k * incr - turn >= 0,
            0 < incr,
            2 * incr <= turn,
            turn > 0,
    ;
    assert(1 * incr == incr) by (nonlinear_arith);
    assert(path[1] == c.rim_vertex(table, origin, incr));
    // The three directions involved.
    let east = table.at(0);
    let near_dir = table.at(excess);
    let step_dir = table.at(incr);
    lemma_cos_descends(table, excess, incr);
    lemma_scaled_identities(0, radius);
    lemma_scaled_monotone(step_dir.cos as int, near_dir.cos as int, radius);
    let dx_e = scaled(near_dir.cos as int, radius);
    let dy_e = scaled(near_dir.sin as int, radius);
    let dx_i = scaled(step_dir.cos as int, radius);
    let dy_i = scaled(step_dir.sin as int, radius);
    // Both rim points keep their distance from the center.
    let c_e = Circle { radius: c.radius, angle: excess as i64, center: c.center };
    let c_i = Circle { radius: c.radius, angle: incr as i64, center: c.center };
    lemma_offset_point_distance(table, c_e, 0);
    lemma_offset_point_distance(table, c_i, 0);
    let t = tolerance(radius);
    let n_e = dx_e * dx_e + dy_e * dy_e;
    let n_i = dx_i * dx_i + dy_i * dy_i;
    assert(dist_sq(c.center@, c_e.offset_point(table, 0)) == n_e);
    assert(dist_sq(c.center@, c_i.offset_point(table, 0)) == n_i);
    assert(n_i >= 0) by (nonlinear_arith)
        requires
            n_i == dx_i * dx_i + dy_i * dy_i,
    ;
    assert(n_e <= n_i + chord_slack(radius));
    // Distances from the first vertex.
    let d_last = dist_sq(path.first(), path.last());
    let d_step = dist_sq(path[0], path[1]);
    assert(d_last == (dx_e - radius) * (dx_e - radius) + dy_e * dy_e);
    assert(d_step == (dx_i - radius) * (dx_i - radius) + dy_i * dy_i);
    assert(d_last <= d_step + chord_slack(radius)) by (nonlinear_arith)
        requires
            d_last == (dx_e - radius) * (dx_e - radius) + dy_e * dy_e,
            d_step == (dx_i - radius) * (dx_i - radius) + dy_i * dy_i,
            n_e == dx_e * dx_e + dy_e * dy_e,
            n_i == dx_i * dx_i + dy_i * dy_i,
            n_e <= n_i + chord_slack(radius),
            dx_e >= dx_i,
            radius > 0,
    ;
}

/// Scaling a non-negative length preserves the order of the factors.
proof fn lemma_scaled_monotone(c1: int, c2: int, len: int)
    requires
        c1 <= c2,
        len >= 0,
    ensures
        scaled(c1, len) <= scaled(c2, len),
{
    let u = UNIT as int;
    let a = c1 * len;
    let b = c2 * len;
    assert(a <= b) by (nonlinear_arith)
        requires
            a == c1 * len,
            b == c2 * len,
            c1 <= c2,
            len >= 0,
    ;
    lemma_trunc_div_bounds(a, u);
    lemma_trunc_div_bounds(b, u);
    let qa = trunc_div(a, u);
    let qb = trunc_div(b, u);
    assert(qa <= qb) by (nonlinear_arith)
        requires
            u > 0,
            a <= b,
            a >= 0 ==> 0 <= qa * u <= a < qa * u + u,
            a <= 0 ==> qa * u - u < a <= qa * u <= 0,
            b >= 0 ==> 0 <= qb * u <= b < qb * u + u,
            b <= 0 ==> qb * u - u < b <= qb * u <= 0,
    ;
}

/// A full-turn border in a given number of steps: dividing the turn into
/// `steps_per_turn` steps samples it every `TURN / steps_per_turn` ticks, it
/// ends less than one such step past its start, and with two steps or more
/// its ends are within one step's chord length of each other, up to
/// `chord_slack`.
pub proof fn lemma_stepped_border_closes(
    c: Circle,
    table: TrigTable,
    origin: Vec2,
    steps_per_turn: int,
)
    requires
        table.wf(),
        c.wf(),
        c.angle == TURN,
        1 <= steps_per_turn <= TURN,
    ensures
        ({
            let incr = (TURN as int) / steps_per_turn;
            let path = c.border_path(table, origin, incr);
            let excess = steps_to_cover(TURN as int, incr) * incr - TURN;
            &&& incr >= 1
            &&& c.stepped_outcome(table, origin, steps_per_turn) == Ok::<Seq<Vec2>, SpiroError>(
                path,
            )
            &&& path.first() == c.rim_vertex(table, origin, 0)
            &&& 0 <= excess < incr
            &&& path.last() == c.rim_vertex(table, origin, excess)
            &&& steps_per_turn >= 2 ==> dist_sq(path.first(), path.last())
                <= dist_sq(path[0], path[1]) + chord_slack(c.radius as int)
        }),
{
    let turn = TURN as int;
    let incr = turn / steps_per_turn;
    lemma_trunc_div_cancel(steps_per_turn, turn);
    assert(incr >= 1 && (steps_per_turn >= 2 ==> 2 * incr <= turn)) by (nonlinear_arith)
        requires
            1 <= steps_per_turn <= turn,
            incr == turn / steps_per_turn,
    ;
    lemma_border_closes(c, table, origin, incr);
    if steps_per_turn >= 2 {
        lemma_border_chord(c, table, origin, incr);
    }
}

} // verus!
