//! The managed flock: an ordered collection of agents, population
//! resizing, and the per-frame entry point that throttles simulation to a
//! fixed rate and emits the frame's drawing commands.
use vstd::prelude::*;
use crate::boid::{
    boid_ok, is_velocity_cmd, step_spec, Boid,
};
use crate::render::{Color, DrawCmd, BODY_RADIUS};
use crate::rng::random_below;
use crate::{AREA_MAX, DT_CAP, MAX_POPULATION};

verus! {

/// Smallest whole-millisecond gap that admits a simulation step: the 60 Hz
/// cap on the update rate.
pub const DRAW_INTERVAL: i64 = 17;

pub struct Flock {
    pub area_width: i64,
    pub area_height: i64,
    pub boids: Vec<Boid>,
    pub since_last_update: i64,
}

/// The flock invariant: a positive bounded area, a bounded population of
/// in-range agents, and a timestamp that never runs backwards past zero.
pub open spec fn flock_ok(f: Flock) -> bool {
    &&& 0 < f.area_width <= AREA_MAX
    &&& 0 < f.area_height <= AREA_MAX
    &&& 0 <= f.since_last_update <= DT_CAP
    &&& f.boids@.len() <= MAX_POPULATION
    &&& forall|i: int| 0 <= i < f.boids@.len() ==> boid_ok(#[trigger] f.boids@[i])
}

/// A freshly placed agent: inside the area rectangle.
pub open spec fn placed_in(b: Boid, w: int, h: int) -> bool {
    &&& 0 <= b.pos.x < w
    &&& 0 <= b.pos.y < h
}

/// The drawing commands of one full render pass over the agents `bs`: a
/// clear first, then (when enabled) every neighbourhood circle, then (when
/// enabled) every velocity line, then every body, each pass in agent
/// order.
pub open spec fn render_cmds_ok(
    cmds: Seq<DrawCmd>,
    bs: Seq<Boid>,
    w: i64,
    h: i64,
    draw_velocity: bool,
    draw_neighbourhood: bool,
    radius: i64,
) -> bool {
    let n = bs.len() as int;
    let nn = if draw_neighbourhood {
        n
    } else {
        0
    };
    let nv = if draw_velocity {
        n
    } else {
        0
    };
    &&& cmds.len() == 1 + nn + nv + n
    &&& cmds[0] == (DrawCmd::Clear { width: w, height: h })
    &&& (draw_neighbourhood ==> forall|i: int|
        0 <= i < n ==> #[trigger] cmds[1 + i] == (DrawCmd::Circle {
            x: bs[i].pos.x,
            y: bs[i].pos.y,
            radius,
            color: Color::Grey,
            filled: false,
        }))
    &&& (draw_velocity ==> forall|i: int|
        0 <= i < n ==> is_velocity_cmd(#[trigger] cmds[1 + nn + i], bs[i]))
    &&& forall|i: int|
        0 <= i < n ==> #[trigger] cmds[1 + nn + nv + i] == (DrawCmd::Circle {
            x: bs[i].pos.x,
            y: bs[i].pos.y,
            radius: BODY_RADIUS,
            color: Color::Red,
            filled: true,
        })
}

/// Stepping an agent never lets it see itself: the snapshot handed to
/// agent `i` is the flock with index `i` removed — one agent shorter, every
/// earlier agent at its own index, every later one shifted down by one, so
/// no entry of it is the entry at `i`.
pub proof fn lemma_neighbours_exclude_self(s: Seq<Boid>, i: int)
    requires
        0 <= i < s.len(),
    ensures
        s.remove(i).len() == s.len() - 1,
        forall|j: int| 0 <= j < i ==> #[trigger] s.remove(i)[j] == s[j],
        forall|j: int| i <= j < s.len() - 1 ==> #[trigger] s.remove(i)[j] == s[j + 1],
{
    s.remove_ensures(i);
}

impl Flock {
    /// A flock of `size` agents at random positions inside the area.
    pub fn new(area_width: i64, area_height: i64, size: usize) -> (r: Self)
        requires
            0 < area_width <= AREA_MAX,
            0 < area_height <= AREA_MAX,
            size <= MAX_POPULATION,
        ensures
            flock_ok(r),
            r.area_width == area_width,
            r.area_height == area_height,
            r.since_last_update == 0,
            r.boids@.len() == size,
            forall|i: int|
                0 <= i < size ==> placed_in(
                    #[trigger] r.boids@[i],
                    area_width as int,
                    area_height as int,
                ),
    {
        let mut f = Flock {
            area_width,
            area_height,
            boids: Vec::new(),
            since_last_update: 0,
        };
        f.add_boids(size);
        f
    }

    /// The population count.
    pub fn size(&self) -> (n: usize)
        ensures
            n == self.boids@.len(),
    {
        self.boids.len()
    }

    /// Appends `count` agents, each at a fresh random position inside the
    /// area; the agents already present are untouched.
    pub fn add_boids(&mut self, count: usize)
        requires
            flock_ok(*old(self)),
            old(self).boids@.len() + count <= MAX_POPULATION,
        ensures
            flock_ok(*final(self)),
            final(self).area_width == old(self).area_width,
            final(self).area_height == old(self).area_height,
            final(self).since_last_update == old(self).since_last_update,
            final(self).boids@.len() == old(self).boids@.len() + count,
            forall|i: int|
                0 <= i < old(self).boids@.len() ==> #[trigger] final(self).boids@[i] == old(self).boids@[i],
            forall|i: int|
                old(self).boids@.len() <= i < final(self).boids@.len() ==> placed_in(
                    #[trigger] final(self).boids@[i],
                    old(self).area_width as int,
                    old(self).area_height as int,
                ),
    {
        let mut k: usize = 0;
        while k < count
            invariant
                k <= count,
                flock_ok(*self),
                self.area_width == old(self).area_width,
                self.area_height == old(self).area_height,
                self.since_last_update == old(self).since_last_update,
                old(self).boids@.len() + count <= MAX_POPULATION,
                self.boids@.len() == old(self).boids@.len() + k,
                forall|i: int|
                    0 <= i < old(self).boids@.len() ==> #[trigger] self.boids@[i] == old(self).boids@[i],
                forall|i: int|
                    old(self).boids@.len() <= i < self.boids@.len() ==> placed_in(
                        #[trigger] self.boids@[i],
                        old(self).area_width as int,
                        old(self).area_height as int,
                    ),
            decreases count - k,
        {
            let x = random_below(self.area_width);
            let y = random_below(self.area_height);
            let b = Boid::new(x, y);
            self.boids.push(b);
            k = k + 1;
        }
    }

    /// Resizes the population to exactly `count`: appends fresh random
    /// agents to grow, or truncates from the tail to shrink.
    pub fn change_size(&mut self, count: usize)
        requires
            flock_ok(*old(self)),
            count <= MAX_POPULATION,
        ensures
            flock_ok(*final(self)),
            final(self).area_width == old(self).area_width,
            final(self).area_height == old(self).area_height,
            final(self).since_last_update == old(self).since_last_update,
            final(self).boids@.len() == count,
            count <= old(self).boids@.len() ==> final(self).boids@ == old(self).boids@.subrange(0, count as int),
            count > old(self).boids@.len() ==> forall|i: int|
                0 <= i < old(self).boids@.len() ==> #[trigger] final(self).boids@[i] == old(self).boids@[i],
    {
        let cur = self.boids.len();
        if count > cur {
            self.add_boids(count - cur);
        } else {
            self.boids.truncate(count);
            proof {
                assert forall|i: int| 0 <= i < self.boids@.len() implies boid_ok(
                    #[trigger] self.boids@[i],
                ) by {
                    assert(self.boids@[i] == old(self).boids@[i]);
                }
            }
        }
    }

    /// The per-frame entry point. If at least `DRAW_INTERVAL` milliseconds
    /// have passed since the last simulation step, every agent is stepped
    /// against a frozen snapshot of the whole flock with itself removed;
    /// otherwise the flock is left exactly as it was. Either way the frame
    /// is rendered in full from the current state, and the commands of the
    /// render pass are returned in layering order.
    pub fn draw(
        &mut self,
        tstamp: i64,
        draw_velocity: bool,
        draw_neighbourhood: bool,
        neighbourhood_area: i64,
    ) -> (cmds: Vec<DrawCmd>)
        requires
            flock_ok(*old(self)),
            0 <= tstamp <= DT_CAP,
        ensures
            flock_ok(*final(self)),
            final(self).area_width == old(self).area_width,
            final(self).area_height == old(self).area_height,
            final(self).boids@.len() == old(self).boids@.len(),
            tstamp - old(self).since_last_update < DRAW_INTERVAL ==> final(self).boids@ == old(self).boids@ && final(self).since_last_update == old(self).since_last_update,
            tstamp - old(self).since_last_update >= DRAW_INTERVAL ==> final(self).since_last_update == tstamp && forall|i: int|
                0 <= i < old(self).boids@.len() ==> (
                    #[trigger] final(self).boids@[i].pos@,
                    final(self).boids@[i].vel@,
                ) == step_spec(
                    old(self).boids@[i],
                    old(self).boids@.remove(i),
                    tstamp - old(self).since_last_update,
                    neighbourhood_area as int,
                    old(self).area_width as int,
                    old(self).area_height as int,
                ),
            render_cmds_ok(
                cmds@,
                final(self).boids@,
                old(self).area_width,
                old(self).area_height,
                draw_velocity,
                draw_neighbourhood,
                neighbourhood_area,
            ),
    {
        let delta = tstamp - self.since_last_update;
        if delta >= DRAW_INTERVAL {
            self.since_last_update = tstamp;
            let n = self.boids.len();
            let mut stepped: Vec<Boid> = Vec::new();
            let mut i: usize = 0;
            while i < n
                invariant
                    i <= n,
                    n == self.boids@.len(),
                    flock_ok(*self),
                    self.boids@ == old(self).boids@,
                    self.area_width == old(self).area_width,
                    self.area_height == old(self).area_height,
                    self.since_last_update == tstamp,
                    DRAW_INTERVAL <= delta <= DT_CAP,
                    delta == tstamp - old(self).since_last_update,
                    stepped@.len() == i,
                    forall|k: int|
                        0 <= k < i ==> boid_ok(#[trigger] stepped@[k]),
                    forall|k: int|
                        0 <= k < i ==> (#[trigger] stepped@[k].pos@, stepped@[k].vel@)
                            == step_spec(
                            self.boids@[k],
                            self.boids@.remove(k),
                            delta as int,
                            neighbourhood_area as int,
                            self.area_width as int,
                            self.area_height as int,
                        ),
                decreases n - i,
            {
                let mut others: Vec<Boid> = Vec::new();
                let mut j: usize = 0;
                while j < i
                    invariant
                        j <= i,
                        i < n,
                        n == self.boids@.len(),
                        others@ == self.boids@.subrange(0, j as int),
                    decreases i - j,
                {
                    others.push(self.boids[j]);
                    proof {
                        assert(others@ =~= self.boids@.subrange(0, j as int + 1));
                    }
                    j = j + 1;
                }
                j = i + 1;
                while j < n
                    invariant
                        i < j <= n,
                        n == self.boids@.len(),
                        others@ == self.boids@.subrange(0, i as int) + self.boids@.subrange(
                            i as int + 1,
                            j as int,
                        ),
                    decreases n - j,
                {
                    others.push(self.boids[j]);
                    proof {
                        assert(others@ =~= self.boids@.subrange(0, i as int)
                            + self.boids@.subrange(i as int + 1, j as int + 1));
                    }
                    j = j + 1;
                }
                proof {
                    assert(others@ == self.boids@.remove(i as int));
                    self.boids@.remove_ensures(i as int);
                    assert forall|k: int| 0 <= k < others@.len() implies boid_ok(
                        #[trigger] others@[k],
                    ) by {
                        if k < i {
                            assert(others@[k] == self.boids@[k]);
                        } else {
                            assert(others@[k] == self.boids@[k + 1]);
                        }
                    }
                }
                let mut b = self.boids[i];
                b.step(
                    &others,
                    delta,
                    neighbourhood_area,
                    self.area_width,
                    self.area_height,
                );
                stepped.push(b);
                i = i + 1;
            }
            self.boids = stepped;
        }
        let n = self.boids.len();
        let mut cmds: Vec<DrawCmd> = Vec::new();
        cmds.push(DrawCmd::Clear { width: self.area_width, height: self.area_height });
        let ghost nn: int = if draw_neighbourhood { n as int } else { 0 };
        let ghost nv: int = if draw_velocity { n as int } else { 0 };
        if draw_neighbourhood {
            let mut i: usize = 0;
            while i < n
                invariant
                    i <= n,
                    n == self.boids@.len(),
                    cmds@.len() == 1 + i,
                    cmds@[0] == (DrawCmd::Clear {
                        width: self.area_width,
                        height: self.area_height,
                    }),
                    forall|k: int|
                        0 <= k < i ==> #[trigger] cmds@[1 + k] == (DrawCmd::Circle {
                            x: self.boids@[k].pos.x,
                            y: self.boids@[k].pos.y,
                            radius: neighbourhood_area,
                            color: Color::Grey,
                            filled: false,
                        }),
                decreases n - i,
            {
                let c = self.boids[i].draw_neighbourhood(neighbourhood_area);
                cmds.push(c);
                i = i + 1;
            }
        }
        if draw_velocity {
            let mut i: usize = 0;
            while i < n
                invariant
                    i <= n,
                    n == self.boids@.len(),
                    flock_ok(*self),
                    cmds@.len() == 1 + nn + i,
                    nn == if draw_neighbourhood { n as int } else { 0 },
                    cmds@[0] == (DrawCmd::Clear {
                        width: self.area_width,
                        height: self.area_height,
                    }),
                    draw_neighbourhood ==> forall|k: int|
                        0 <= k < n ==> #[trigger] cmds@[1 + k] == (DrawCmd::Circle {
                            x: self.boids@[k].pos.x,
                            y: self.boids@[k].pos.y,
                            radius: neighbourhood_area,
                            color: Color::Grey,
                            filled: false,
                        }),
                    forall|k: int|
                        0 <= k < i ==> is_velocity_cmd(#[trigger] cmds@[1 + nn + k], self.boids@[k]),
                decreases n - i,
            {
                let c = self.boids[i].draw_velocity();
                cmds.push(c);
                i = i + 1;
            }
        }
        let mut i: usize = 0;
        while i < n
            invariant
                i <= n,
                n == self.boids@.len(),
                cmds@.len() == 1 + nn + nv + i,
                nn == if draw_neighbourhood { n as int } else { 0 },
                nv == if draw_velocity { n as int } else { 0 },
                cmds@[0] == (DrawCmd::Clear {
                    width: self.area_width,
                    height: self.area_height,
                }),
                draw_neighbourhood ==> forall|k: int|
                    0 <= k < n ==> #[trigger] cmds@[1 + k] == (DrawCmd::Circle {
                        x: self.boids@[k].pos.x,
                        y: self.boids@[k].pos.y,
                        radius: neighbourhood_area,
                        color: Color::Grey,
                        filled: false,
                    }),
                draw_velocity ==> forall|k: int|
                    0 <= k < n ==> is_velocity_cmd(#[trigger] cmds@[1 + nn + k], self.boids@[k]),
                forall|k: int|
                    0 <= k < i ==> #[trigger] cmds@[1 + nn + nv + k] == (DrawCmd::Circle {
                        x: self.boids@[k].pos.x,
                        y: self.boids@[k].pos.y,
                        radius: BODY_RADIUS,
                        color: Color::Red,
                        filled: true,
                    }),
            decreases n - i,
        {
            let c = self.boids[i].draw_body();
            cmds.push(c);
            i = i + 1;
        }
        cmds
    }
}

} // verus!
