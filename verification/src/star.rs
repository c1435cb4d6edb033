//! A star: one particle of the spiral.
//!
//! The library does no trigonometry. Where a sine or a cosine is needed the
//! host evaluates it and passes the sample in, as a fixed-point number.
use vstd::prelude::*;
use vstd::arithmetic::div_mod::lemma_div_is_ordered_by_denominator;
use crate::arith::{
    div_toward_zero, floor_sqrt, isqrt, lemma_floor_sqrt_exists, lemma_floor_sqrt_monotone,
};
use crate::geometry::{Point, Vector};
use crate::units::{
    MOUSE_SCALE, SPEED_MAX, STAR_ACCEL, STAR_SPEED, STAR_TIME_COLOR_SCALE, TARGET_FPS, UNIT,
};

verus! {

/// Largest magnitude of a seed that the library works with.
pub const SEED_MAX: i128 = 1_000_000_000_000_000_000_000_000_000_000;

/// A direction: the cosine and the sine of an angle, in fixed point.
#[derive(Clone, Copy, Debug, PartialEq, Eq, Structural)]
pub struct Heading {
    pub cos: i64,
    pub sin: i64,
}

/// The arguments of the three waves that give a star its colour, in
/// billionths of a radian.
#[derive(Clone, Copy, Debug, PartialEq, Eq, Structural)]
pub struct ChannelPhases {
    pub r: i128,
    pub g: i128,
    pub b: i128,
}

/// A star.
#[derive(Clone, Copy, Debug, PartialEq, Eq, Structural)]
pub struct Star {
    /// Where the star is.
    pub pos: Point,
    /// Its velocity, in length units per second.
    pub delta: Vector,
    /// What its colour is computed from, in nanoseconds: the time at which
    /// it was emitted, shifted by the attractor since.
    pub seed: i128,
    /// The simulated time at which it was emitted, in nanoseconds.
    pub born: u64,
}

impl Heading {
    /// Both components are between `-UNIT` and `UNIT`.
    pub open spec fn wf(self) -> bool {
        -UNIT <= self.cos <= UNIT && -UNIT <= self.sin <= UNIT
    }

    /// The heading with the given cosine and sine, if each is between
    /// `-UNIT` and `UNIT`.
    pub fn new(cos: i64, sin: i64) -> (h: Option<Heading>)
        ensures
            h.is_some() <==> (Heading { cos, sin }).wf(),
            h.is_some() ==> h == Some(Heading { cos, sin }),
    {
        if -UNIT <= cos && cos <= UNIT && -UNIT <= sin && sin <= UNIT {
            Some(Heading { cos, sin })
        } else {
            None
        }
    }
}

/// The shift that an attractor gives to the seed of a star at the given
/// squared distance: the strength divided by the distance, which counts as
/// one length unit where the two coincide.
pub open spec fn seed_shift(dist_sqr: int) -> int {
    let d = floor_sqrt(dist_sqr);
    if d < 1 {
        MOUSE_SCALE as int
    } else {
        (MOUSE_SCALE as int) / d
    }
}

/// The attractor shifts a seed forward, by its strength at most.
pub proof fn lemma_seed_shift_range(dist_sqr: int)
    ensures
        0 <= seed_shift(dist_sqr) <= MOUSE_SCALE,
{
    let d = floor_sqrt(dist_sqr);
    if d >= 1 {
        assert(0 <= (MOUSE_SCALE as int) / d <= MOUSE_SCALE) by (nonlinear_arith)
            requires
                1 <= d,
                MOUSE_SCALE == 5_000_000_000_000_000,
        ;
    }
}

/// The attractor pulls at a nearer star at least as hard as at one farther
/// away.
pub proof fn lemma_nearer_pulled_harder(near_sqr: int, far_sqr: int)
    requires
        0 <= near_sqr <= far_sqr,
    ensures
        seed_shift(near_sqr) >= seed_shift(far_sqr),
{
    lemma_floor_sqrt_exists(near_sqr);
    lemma_floor_sqrt_exists(far_sqr);
    lemma_floor_sqrt_monotone(near_sqr, far_sqr);
    lemma_seed_shift_range(far_sqr);
    let near = floor_sqrt(near_sqr);
    let far = floor_sqrt(far_sqr);
    if near >= 1 {
        lemma_div_is_ordered_by_denominator(MOUSE_SCALE as int, near, far);
    }
}

impl Star {
    /// The velocity and the seed are within the ranges that the library
    /// works with, and so is the position.
    pub open spec fn wf(self) -> bool {
        &&& self.pos.wf()
        &&& -SPEED_MAX <= self.delta.x <= SPEED_MAX
        &&& -SPEED_MAX <= self.delta.y <= SPEED_MAX
        &&& -SEED_MAX <= self.seed <= SEED_MAX
    }

    /// The star that is emitted at time `now` in the direction `heading`.
    pub open spec fn spawned(heading: Heading, now: u64) -> Star {
        Star {
            pos: Point { x: 0, y: 0 },
            delta: Vector {
                x: (heading.cos * STAR_SPEED) as i64,
                y: (heading.sin * STAR_SPEED) as i64,
            },
            seed: now as i128,
            born: now,
        }
    }

    /// The star one tick later: moved by a sixtieth of its velocity, each
    /// component rounded toward zero, its velocity scaled by the
    /// acceleration factor.
    pub open spec fn ticked(self) -> Star {
        Star {
            pos: Point {
                x: (self.pos.x + div_toward_zero(self.delta.x as int, TARGET_FPS as int)) as i64,
                y: (self.pos.y + div_toward_zero(self.delta.y as int, TARGET_FPS as int)) as i64,
            },
            delta: Vector {
                x: (self.delta.x * STAR_ACCEL) as i64,
                y: (self.delta.y * STAR_ACCEL) as i64,
            },
            seed: self.seed,
            born: self.born,
        }
    }

    /// The star after an attractor at `mouse` has pulled at it for one tick:
    /// only its seed changes.
    pub open spec fn attracted(self, mouse: Point) -> Star {
        Star {
            pos: self.pos,
            delta: self.delta,
            seed: (self.seed + seed_shift(mouse.dist_sqr(self.pos))) as i128,
            born: self.born,
        }
    }

    /// The common argument of the star's three waves at time `now`.
    pub open spec fn phase(self, now: u64) -> int {
        self.seed + now * STAR_TIME_COLOR_SCALE
    }

    /// The arguments of the star's three waves at time `now`: two, three
    /// and five tenths of the common argument, rounded toward zero.
    pub open spec fn phases(self, now: u64) -> ChannelPhases {
        ChannelPhases {
            r: div_toward_zero(self.phase(now) * 2, 10) as i128,
            g: div_toward_zero(self.phase(now) * 3, 10) as i128,
            b: div_toward_zero(self.phase(now) * 5, 10) as i128,
        }
    }

    /// Emits a star at the origin at time `now`: it flies in the direction
    /// `heading` at the fixed speed, and its seed is the time.
    pub fn spawn(heading: Heading, now: u64) -> (star: Star)
        requires
            heading.wf(),
        ensures
            star == Star::spawned(heading, now),
            star.pos == (Point { x: 0, y: 0 }),
            star.delta.x == heading.cos * STAR_SPEED,
            star.delta.y == heading.sin * STAR_SPEED,
            star.seed == now,
            star.born == now,
            star.wf(),
    {
        Star {
            pos: Point::origin(),
            delta: Vector { x: heading.cos * STAR_SPEED, y: heading.sin * STAR_SPEED },
            seed: now as i128,
            born: now,
        }
    }

    /// Moves the star by one tick.
    pub fn tick(&mut self)
        requires
            old(self).wf(),
        ensures
            *final(self) == old(self).ticked(),
            final(self).pos.x == old(self).pos.x + div_toward_zero(
                old(self).delta.x as int,
                TARGET_FPS as int,
            ),
            final(self).pos.y == old(self).pos.y + div_toward_zero(
                old(self).delta.y as int,
                TARGET_FPS as int,
            ),
            final(self).delta == old(self).delta,
    {
        self.pos = Point {
            x: self.pos.x + self.delta.x / TARGET_FPS,
            y: self.pos.y + self.delta.y / TARGET_FPS,
        };
        self.delta = Vector { x: self.delta.x * STAR_ACCEL, y: self.delta.y * STAR_ACCEL };
    }

    /// Lets an attractor at `mouse` pull at the star for one tick: the seed
    /// grows by the strength of the attractor divided by the distance.
    pub fn attract(&mut self, mouse: &Point)
        requires
            mouse.dist_sqr(old(self).pos) <= u128::MAX,
            -SEED_MAX <= old(self).seed <= SEED_MAX,
        ensures
            *final(self) == old(self).attracted(*mouse),
            final(self).seed == old(self).seed + seed_shift(mouse.dist_sqr(old(self).pos)),
            old(self).seed <= final(self).seed <= old(self).seed + MOUSE_SCALE,
    {
        let dist: u64 = isqrt(mouse.distance_sqr_to(&self.pos));
        let shift: i128 = if dist < 1 {
            MOUSE_SCALE
        } else {
            MOUSE_SCALE / (dist as i128)
        };
        proof {
            let d = dist as int;
            if d >= 1 {
                assert(0 <= (MOUSE_SCALE as int) / d <= MOUSE_SCALE) by (nonlinear_arith)
                    requires
                        1 <= d <= 0xffff_ffff_ffff_ffff,
                        MOUSE_SCALE == 5_000_000_000_000_000,
                ;
            }
        }
        self.seed = self.seed + shift;
    }

    /// The arguments of the three waves that give the star its colour at
    /// time `now`.
    pub fn color_phases(&self, now: u64) -> (p: ChannelPhases)
        requires
            -SEED_MAX <= self.seed <= SEED_MAX,
        ensures
            p == self.phases(now),
            p.r == div_toward_zero(self.phase(now) * 2, 10),
            p.g == div_toward_zero(self.phase(now) * 3, 10),
            p.b == div_toward_zero(self.phase(now) * 5, 10),
    {
        let base: i128 = self.seed + (now as i128) * STAR_TIME_COLOR_SCALE;
        ChannelPhases { r: base * 2 / 10, g: base * 3 / 10, b: base * 5 / 10 }
    }
}

} // verus!
