//! A single flocking agent.
//!
//! An agent holds a position and a velocity and is advanced by `step`: it
//! accumulates a separation, a cohesion and an alignment steer over every
//! other agent within the neighbourhood radius, integrates the summed goal
//! into its velocity, clamps its speed to `SPEED_LIMIT`, moves, and wraps
//! its position back over the area edge. `step_spec` states the whole
//! update as one mathematical function, and `step` is proved to compute
//! exactly that.
use vstd::prelude::*;
use crate::num::{
    lemma_isqrt_above, lemma_isqrt_below, lemma_div_ordered, lemma_mul_range, lemma_tdiv_exact,
    lemma_tdiv_range, lemma_tmod_is_rem, lemma_tmod_range, tdiv, tmod,
};
use crate::render::{Color, DrawCmd, BODY_RADIUS, VELOCITY_SCALE};
use crate::rng::random_below;
use crate::vec2::{
    lemma_norm_sq_bounds, mag_sq, vadd, vdivn, vmag, vnorm, vscale, vsub, Vec2,
};
use crate::{AREA_MAX, DT_CAP, MAX_POPULATION, SCALE};

verus! {

/// Speed cap in steps per second (10.0 units): a faster velocity is
/// rescaled to this length.
pub const SPEED_LIMIT: i64 = 10_000;

/// Speed given to a fresh agent's random heading (5.0 units).
pub const INIT_SPEED: i64 = 5_000;

/// Distance beyond which the separation push fades out entirely: the
/// point where the compound fade's base reaches zero (and where the
/// exponential it stands in for has decayed below one part in a million).
pub const DAMP_RANGE: i64 = 160_000_000;

/// Distance over which the compound fade's base loses one step: one
/// sixteenth of the decay length of the exponential it stands in for.
pub const DAMP_BASE_DIV: i64 = 160_000;

/// Steps per unit of the random heading samples: a thousandfold finer than
/// the coordinate grid, so that a unit heading is representable to within
/// half a percent, and the thousandth-of-a-unit normalisation epsilon
/// keeps its meaning (at this scale it is `SCALE` steps).
pub const HEADING_GRID: i64 = 1_000_000;

#[derive(Clone, Copy, PartialEq, Eq, Structural, Debug)]
pub struct Boid {
    pub pos: Vec2,
    pub vel: Vec2,
}

/// A position the update arithmetic accepts: within the largest area,
/// either side of the origin (wrapping can land one step short of an edge).
pub open spec fn pos_ok(p: (int, int)) -> bool {
    &&& -AREA_MAX <= p.0 <= AREA_MAX
    &&& -AREA_MAX <= p.1 <= AREA_MAX
}

/// A velocity within the speed cap, componentwise.
pub open spec fn vel_ok(v: (int, int)) -> bool {
    &&& -SPEED_LIMIT <= v.0 <= SPEED_LIMIT
    &&& -SPEED_LIMIT <= v.1 <= SPEED_LIMIT
}

/// The agent invariant: position and velocity in range.
pub open spec fn boid_ok(b: Boid) -> bool {
    pos_ok(b.pos@) && vel_ok(b.vel@)
}

/// One squaring step of the compound fade, on the thousandth grid.
pub open spec fn damp_square(b: int) -> int {
    tdiv(b * b, SCALE as int)
}

/// The separation weight at a given distance: the fixed-point stand-in
/// for an exponential decay of rate 1e-4 per unit of distance. The exact
/// exponential is a real-valued function with no integer statement, so
/// the weight is its compound form, one minus a sixteenth of the decay
/// argument, raised to the sixteenth power by four squarings on the
/// thousandth grid — full weight at distance zero, within a couple of
/// percent of the exponential throughout, and zero from `DAMP_RANGE` on,
/// where the exponential too has vanished at this resolution.
pub open spec fn damping(dist: int) -> int {
    if dist < DAMP_RANGE {
        damp_square(
            damp_square(
                damp_square(damp_square((SCALE as int) - tdiv(dist, DAMP_BASE_DIV as int))),
            ),
        )
    } else {
        0
    }
}

/// The separation contribution of one neighbour at offset `d`: the unit
/// vector away from it, faded with distance.
pub open spec fn separation_term(d: (int, int)) -> (int, int) {
    vscale(vnorm(d), damping(vmag(d)))
}

/// The three steering sums and the neighbour count accumulated over a
/// snapshot of the other agents: separation, cohesion (neighbour
/// velocities) and alignment (offsets toward neighbours), counting every
/// agent within `radius`.
pub open spec fn steer_acc(p: (int, int), others: Seq<Boid>, radius: int) -> (
    (int, int),
    (int, int),
    (int, int),
    int,
)
    decreases others.len(),
{
    if others.len() == 0 {
        ((0, 0), (0, 0), (0, 0), 0)
    } else {
        let prev = steer_acc(p, others.drop_last(), radius);
        let b = others.last();
        let d = vsub(p, b.pos@);
        if vmag(d) > radius {
            prev
        } else {
            (
                vadd(prev.0, separation_term(d)),
                vadd(prev.1, b.vel@),
                vadd(prev.2, vsub(b.pos@, p)),
                prev.3 + 1,
            )
        }
    }
}

/// Wrapping a coordinate over the area edge: shifted by the area width and
/// reduced modulo the area height on both axes, exactly as the update rule
/// states it.
pub open spec fn wrap_coord(p: int, w: int, h: int) -> int {
    tmod(p + w, h)
}

/// The whole motion update as one function: the position and velocity
/// after an agent at `b` steps against the snapshot `others` for `dt`
/// milliseconds.
pub open spec fn step_spec(
    b: Boid,
    others: Seq<Boid>,
    dt: int,
    radius: int,
    w: int,
    h: int,
) -> ((int, int), (int, int)) {
    let acc = steer_acc(b.pos@, others, radius);
    let coh = if acc.3 > 0 {
        vdivn(acc.1, acc.3)
    } else {
        acc.1
    };
    let ali = if acc.3 > 0 {
        vdivn(acc.2, acc.3)
    } else {
        acc.2
    };
    let goal = vadd(vadd(acc.0, coh), ali);
    let vel1 = vadd(b.vel@, (tdiv(goal.0 * dt, 100), tdiv(goal.1 * dt, 100)));
    let vel2 = if vmag(vel1) > SPEED_LIMIT {
        vscale(vnorm(vel1), SPEED_LIMIT as int)
    } else {
        vel1
    };
    let pos1 = vadd(b.pos@, (tdiv(vel2.0 * dt, 100), tdiv(vel2.1 * dt, 100)));
    ((wrap_coord(pos1.0, w, h), wrap_coord(pos1.1, w, h)), vel2)
}

/// The velocity a fresh agent starts with, given the two random heading
/// samples on the `HEADING_GRID` scale: zero for a heading below the
/// thousandth-of-a-unit epsilon (at that scale, `SCALE` steps), otherwise
/// the heading normalised and scaled to `INIT_SPEED`.
pub open spec fn initial_velocity(hx: int, hy: int) -> (int, int) {
    if vmag((hx, hy)) < SCALE {
        (0, 0)
    } else {
        vscale(vnorm((hx, hy)), INIT_SPEED as int)
    }
}

/// A velocity indicator command for `b`: a line from the agent's position
/// along its normalised velocity, `VELOCITY_SCALE` steps long.
pub open spec fn is_velocity_cmd(c: DrawCmd, b: Boid) -> bool {
    &&& c matches DrawCmd::Line { x1, y1, x2, y2, color } && x1 == b.pos.x && y1 == b.pos.y
        && x2 as int == b.pos.x + vscale(vnorm(b.vel@), VELOCITY_SCALE as int).0
        && y2 as int == b.pos.y + vscale(vnorm(b.vel@), VELOCITY_SCALE as int).1
        && color == Color::Black
}

/// Wrapping shifted by a whole width lands inside `[0, h)`: the general
/// boundary-wrap guarantee for any position not more than `w` outside.
pub proof fn lemma_wrap_into_bounds(p: int, w: int, h: int)
    requires
        0 < h,
        0 <= p + w,
    ensures
        0 <= wrap_coord(p, w, h) < h,
{
    lemma_tmod_range(p + w, h);
}

/// One executable squaring step of the compound fade.
fn damp_square_exec(b: i64) -> (r: i64)
    requires
        0 <= b <= SCALE,
    ensures
        r == damp_square(b as int),
        0 <= r <= SCALE,
{
    proof {
        lemma_mul_range(b as int, b as int, 1000, 1000);
        lemma_tdiv_range((b as int) * (b as int), 1000, 1000);
        assert(0 <= (b as int) * (b as int)) by (nonlinear_arith);
        crate::num::lemma_tdiv_nonneg((b as int) * (b as int), 1000);
    }
    (b * b) / 1000
}

/// The executable separation weight, matching `damping`.
fn damping_exec(dist: i64) -> (r: i64)
    requires
        0 <= dist,
    ensures
        r == damping(dist as int),
        0 <= r <= SCALE,
{
    if dist < DAMP_RANGE {
        proof {
            lemma_div_ordered(dist as int, DAMP_RANGE as int - 1, DAMP_BASE_DIV as int);
            crate::num::lemma_tdiv_nonneg(dist as int, DAMP_BASE_DIV as int);
        }
        let base = 1000 - dist / DAMP_BASE_DIV;
        damp_square_exec(damp_square_exec(damp_square_exec(damp_square_exec(base))))
    } else {
        0
    }
}

/// Executable coordinate wrap, matching `wrap_coord`.
fn wrap_exec(p: i64, w: i64, h: i64) -> (r: i64)
    requires
        0 < w <= AREA_MAX,
        0 < h <= AREA_MAX,
        -2_000_000_000_000 <= p <= 2_000_000_000_000,
    ensures
        r == wrap_coord(p as int, w as int, h as int),
        -h < r < h,
{
    let t = p + w;
    proof {
        lemma_tmod_is_rem(t as int, h as int);
        lemma_tmod_range(t as int, h as int);
    }
    t % h
}

impl Boid {
    /// A fresh agent at the given position with a random heading of fixed
    /// initial speed: the heading normalises to within half a percent of a
    /// unit, so the speed lands within 4.989 and 5.004 units — except for
    /// the vanishing draw below the normalisation epsilon, which, as with
    /// any vector that short, gives the zero velocity.
    pub fn new(x: i64, y: i64) -> (r: Self)
        requires
            -AREA_MAX <= x <= AREA_MAX,
            -AREA_MAX <= y <= AREA_MAX,
        ensures
            r.pos.x == x,
            r.pos.y == y,
            boid_ok(r),
            exists|hx: int, hy: int|
                0 <= hx < HEADING_GRID && 0 <= hy < HEADING_GRID && r.vel@ == initial_velocity(
                    hx,
                    hy,
                ),
            (r.vel.x == 0 && r.vel.y == 0) || (4_989 <= vmag(r.vel@) <= 5_004),
    {
        let hx = random_below(HEADING_GRID);
        let hy = random_below(HEADING_GRID);
        let heading = Vec2::new(hx, hy);
        let m = heading.mag();
        let vel: Vec2;
        if m < SCALE {
            vel = Vec2::zero();
        } else {
            let n = heading.norm();
            proof {
                lemma_mul_range(n.x as int, INIT_SPEED as int, 1000, 5_000);
                lemma_mul_range(n.y as int, INIT_SPEED as int, 1000, 5_000);
                lemma_tdiv_range((n.x as int) * (INIT_SPEED as int), 1000, 5_000);
                lemma_tdiv_range((n.y as int) * (INIT_SPEED as int), 1000, 5_000);
            }
            vel = n.mul(INIT_SPEED);
            proof {
                lemma_initial_speed(heading@);
            }
        }
        let r = Boid { pos: Vec2::new(x, y), vel };
        proof {
            assert(r.vel@ == initial_velocity(hx as int, hy as int));
        }
        r
    }

    /// An agent from explicit parts, for callers that already hold a
    /// position and velocity in range.
    pub fn from_parts(pos: Vec2, vel: Vec2) -> (r: Self)
        requires
            pos_ok(pos@),
            vel_ok(vel@),
        ensures
            r.pos == pos,
            r.vel == vel,
            boid_ok(r),
    {
        Boid { pos, vel }
    }

    /// The body command: a filled red circle at the agent's position.
    pub fn draw_body(&self) -> (c: DrawCmd)
        ensures
            c == (DrawCmd::Circle {
                x: self.pos.x,
                y: self.pos.y,
                radius: BODY_RADIUS,
                color: Color::Red,
                filled: true,
            }),
    {
        DrawCmd::Circle {
            x: self.pos.x,
            y: self.pos.y,
            radius: BODY_RADIUS,
            color: Color::Red,
            filled: true,
        }
    }

    /// The velocity indicator command: a black line from the agent's
    /// position along its normalised velocity.
    pub fn draw_velocity(&self) -> (c: DrawCmd)
        requires
            boid_ok(*self),
        ensures
            is_velocity_cmd(c, *self),
    {
        let n = self.vel.norm();
        proof {
            lemma_mul_range(n.x as int, VELOCITY_SCALE as int, 1000, 10_000);
            lemma_mul_range(n.y as int, VELOCITY_SCALE as int, 1000, 10_000);
            lemma_tdiv_range((n.x as int) * (VELOCITY_SCALE as int), 1000, 10_000);
            lemma_tdiv_range((n.y as int) * (VELOCITY_SCALE as int), 1000, 10_000);
        }
        let head = n.mul(VELOCITY_SCALE);
        DrawCmd::Line {
            x1: self.pos.x,
            y1: self.pos.y,
            x2: self.pos.x + head.x,
            y2: self.pos.y + head.y,
            color: Color::Black,
        }
    }

    /// The neighbourhood command: a grey outline circle of the given
    /// radius at the agent's position.
    pub fn draw_neighbourhood(&self, neighbourhood_radius: i64) -> (c: DrawCmd)
        ensures
            c == (DrawCmd::Circle {
                x: self.pos.x,
                y: self.pos.y,
                radius: neighbourhood_radius,
                color: Color::Grey,
                filled: false,
            }),
    {
        DrawCmd::Circle {
            x: self.pos.x,
            y: self.pos.y,
            radius: neighbourhood_radius,
            color: Color::Grey,
            filled: false,
        }
    }

    /// One motion update against a frozen snapshot of the other agents,
    /// over `dt` milliseconds: exactly `step_spec`, with the speed clamp
    /// and position bounds restated directly.
    pub fn step(
        &mut self,
        others: &Vec<Boid>,
        dt: i64,
        neighbourhood_radius: i64,
        area_width: i64,
        area_height: i64,
    )
        requires
            boid_ok(*old(self)),
            forall|k: int| 0 <= k < others@.len() ==> boid_ok(#[trigger] others@[k]),
            others@.len() <= MAX_POPULATION,
            0 <= dt <= DT_CAP,
            0 < area_width <= AREA_MAX,
            0 < area_height <= AREA_MAX,
        ensures
            (final(self).pos@, final(self).vel@) == step_spec(
                *old(self),
                others@,
                dt as int,
                neighbourhood_radius as int,
                area_width as int,
                area_height as int,
            ),
            vmag(final(self).vel@) <= SPEED_LIMIT,
            vel_ok(final(self).vel@),
            -area_height < final(self).pos.x < area_height,
            -area_height < final(self).pos.y < area_height,
    {
        let p = self.pos;
        let mut sep = Vec2::zero();
        let mut coh = Vec2::zero();
        let mut ali = Vec2::zero();
        let mut count: usize = 0;
        let n = others.len();
        let mut j: usize = 0;
        while j < n
            invariant
                j <= n,
                n == others@.len(),
                n <= MAX_POPULATION,
                forall|k: int| 0 <= k < n ==> boid_ok(#[trigger] others@[k]),
                pos_ok(p@),
                (sep@, coh@, ali@, count as int) == steer_acc(
                    p@,
                    others@.take(j as int),
                    neighbourhood_radius as int,
                ),
                count <= j,
                -1000 * (count as int) <= sep.x <= 1000 * (count as int),
                -1000 * (count as int) <= sep.y <= 1000 * (count as int),
                -10_000 * (count as int) <= coh.x <= 10_000 * (count as int),
                -10_000 * (count as int) <= coh.y <= 10_000 * (count as int),
                -20_000_000 * (count as int) <= ali.x <= 20_000_000 * (count as int),
                -20_000_000 * (count as int) <= ali.y <= 20_000_000 * (count as int),
            decreases n - j,
        {
            let o = others[j];
            let diff = p.sub(o.pos);
            let dist = diff.mag();
            if dist <= neighbourhood_radius {
                count = count + 1;
                let nd = diff.norm();
                let damp = damping_exec(dist);
                proof {
                    lemma_mul_range(nd.x as int, damp as int, 1000, 1000);
                    lemma_mul_range(nd.y as int, damp as int, 1000, 1000);
                    lemma_tdiv_range((nd.x as int) * (damp as int), 1000, 1000);
                    lemma_tdiv_range((nd.y as int) * (damp as int), 1000, 1000);
                }
                let st = nd.mul(damp);
                sep.add_assign(st);
                coh.add_assign(o.vel);
                let toward = o.pos.sub(p);
                ali.add_assign(toward);
            }
            proof {
                let full = others@;
                let pre = full.take(j as int);
                let cur = full.take(j as int + 1);
                assert(cur.drop_last() =~= pre);
                assert(cur.last() == full[j as int]);
            }
            j = j + 1;
        }
        proof {
            assert(others@.take(n as int) =~= others@);
        }
        let count64: i64 = count as i64;
        let cohd: Vec2;
        let alid: Vec2;
        if count > 0 {
            proof {
                lemma_tdiv_range(coh.x as int, count64 as int, 10_000);
                lemma_tdiv_range(coh.y as int, count64 as int, 10_000);
                lemma_tdiv_range(ali.x as int, count64 as int, 20_000_000);
                lemma_tdiv_range(ali.y as int, count64 as int, 20_000_000);
            }
            cohd = coh.div(count64);
            alid = ali.div(count64);
        } else {
            cohd = coh;
            alid = ali;
        }
        let goal = sep.add(cohd).add(alid);
        proof {
            lemma_mul_range(goal.x as int, dt as int, 200_000_000, DT_CAP as int);
            lemma_mul_range(goal.y as int, dt as int, 200_000_000, DT_CAP as int);
            lemma_tdiv_range((goal.x as int) * (dt as int), 100, 20_000_000_000_000_000);
            lemma_tdiv_range((goal.y as int) * (dt as int), 100, 20_000_000_000_000_000);
        }
        let dvx = (goal.x * dt) / 100;
        let dvy = (goal.y * dt) / 100;
        let v1 = Vec2::new(self.vel.x + dvx, self.vel.y + dvy);
        let m1 = v1.mag();
        let v2: Vec2;
        if m1 > SPEED_LIMIT {
            let nv = v1.norm();
            proof {
                lemma_mul_range(nv.x as int, SPEED_LIMIT as int, 1000, 10_000);
                lemma_mul_range(nv.y as int, SPEED_LIMIT as int, 1000, 10_000);
                lemma_tdiv_range((nv.x as int) * (SPEED_LIMIT as int), 1000, 10_000);
                lemma_tdiv_range((nv.y as int) * (SPEED_LIMIT as int), 1000, 10_000);
            }
            v2 = nv.mul(SPEED_LIMIT);
            proof {
                lemma_clamped_speed(v1@);
            }
        } else {
            v2 = v1;
        }
        self.vel = v2;
        proof {
            lemma_mul_range(v2.x as int, dt as int, SPEED_LIMIT as int, DT_CAP as int);
            lemma_mul_range(v2.y as int, dt as int, SPEED_LIMIT as int, DT_CAP as int);
            lemma_tdiv_range((v2.x as int) * (dt as int), 100, 1_000_000_000_000);
            lemma_tdiv_range((v2.y as int) * (dt as int), 100, 1_000_000_000_000);
        }
        let dpx = (v2.x * dt) / 100;
        let dpy = (v2.y * dt) / 100;
        let wx = wrap_exec(self.pos.x + dpx, area_width, area_height);
        let wy = wrap_exec(self.pos.y + dpy, area_width, area_height);
        self.pos = Vec2::new(wx, wy);
    }
}

/// A heading of at least a unit, normalised and scaled to `INIT_SPEED`,
/// has a speed within a fixed-point step of five units.
pub proof fn lemma_initial_speed(h: (int, int))
    requires
        SCALE <= vmag(h),
    ensures
        4_989 <= vmag(vscale(vnorm(h), INIT_SPEED as int)) <= 5_004,
{
    lemma_norm_sq_bounds(h);
    let m = vmag(h);
    let nx = vnorm(h).0;
    let ny = vnorm(h).1;
    let s = mag_sq(vnorm(h));
    assert(s <= 1_002_000) by (nonlinear_arith)
        requires
            s * m * m <= 1_000_000 * (m * m + 2 * m),
            m >= 1_000,
            s >= 0,
    ;
    assert(nx * (INIT_SPEED as int) == (5 * nx) * (SCALE as int)) by (nonlinear_arith);
    assert(ny * (INIT_SPEED as int) == (5 * ny) * (SCALE as int)) by (nonlinear_arith);
    lemma_tdiv_exact(5 * nx, SCALE as int);
    lemma_tdiv_exact(5 * ny, SCALE as int);
    let c = vscale(vnorm(h), INIT_SPEED as int);
    assert(c == (5 * nx, 5 * ny));
    assert(mag_sq(c) == 25 * s) by (nonlinear_arith)
        requires
            c.0 == 5 * nx && c.1 == 5 * ny && s == nx * nx + ny * ny,
    ;
    lemma_isqrt_above(25 * s, 4_989);
    lemma_isqrt_below(25 * s, 5_004);
}

/// The speed clamp does what it promises: rescaling a too-fast velocity by
/// its normalisation leaves a speed of at most `SPEED_LIMIT`, componentwise
/// in range.
pub proof fn lemma_clamped_speed(v: (int, int))
    requires
        vmag(v) > SPEED_LIMIT,
    ensures
        vmag(vscale(vnorm(v), SPEED_LIMIT as int)) <= SPEED_LIMIT,
        vel_ok(vscale(vnorm(v), SPEED_LIMIT as int)),
{
    lemma_norm_sq_bounds(v);
    let m = vmag(v);
    let nx = vnorm(v).0;
    let ny = vnorm(v).1;
    let s = mag_sq(vnorm(v));
    assert(s <= 1_000_199) by (nonlinear_arith)
        requires
            s * m * m <= 1_000_000 * (m * m + 2 * m),
            m >= 10_001,
            s >= 0,
    ;
    assert(nx * (SPEED_LIMIT as int) == (10 * nx) * (SCALE as int)) by (nonlinear_arith);
    assert(ny * (SPEED_LIMIT as int) == (10 * ny) * (SCALE as int)) by (nonlinear_arith);
    lemma_tdiv_exact(10 * nx, SCALE as int);
    lemma_tdiv_exact(10 * ny, SCALE as int);
    let c = vscale(vnorm(v), SPEED_LIMIT as int);
    assert(c == (10 * nx, 10 * ny));
    assert(mag_sq(c) == 100 * s) by (nonlinear_arith)
        requires
            c.0 == 10 * nx && c.1 == 10 * ny && s == nx * nx + ny * ny,
    ;
    assert(100 * s < 10_001 * 10_001);
    lemma_isqrt_below(100 * s, 10_000);
    assert(c.0 * c.0 <= mag_sq(c) && c.1 * c.1 <= mag_sq(c)) by (nonlinear_arith)
        requires
            mag_sq(c) == c.0 * c.0 + c.1 * c.1,
    ;
    crate::num::lemma_sq_le_isqrt(c.0, mag_sq(c));
    crate::num::lemma_sq_le_isqrt(c.1, mag_sq(c));
}

} // verus!
