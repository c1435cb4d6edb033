//! The simulation: the clock, the turning origin and the window of stars
//! that are still in flight.
use std::collections::VecDeque;
use vstd::prelude::*;
use crate::arith::div_toward_zero;
use crate::clock::{
    lemma_stars_after_ticks, lemma_stars_per_delay, lemma_time_after_ticks, Clock, ClockModel,
};
use crate::color::Color;
use crate::controls::{Controls, MouseButton};
use crate::geometry::{lemma_dist_sqr_bound, Point, Rect};
use crate::render::{dots_wf, Dot};
use crate::star::{lemma_seed_shift_range, ChannelPhases, Heading, Star};
use crate::units::{
    ANGLE_STEP, COORD_MAX, MOUSE_SCALE, SPEED_MAX, STAR_DELAY_NANOS, STEP_MAX, TARGET_FPS,
    TICKS_PER_STAR, TICK_NANOS, TWO_PI,
};

verus! {

/// The state of the simulation.
pub struct Simulation {
    clock: Clock,
    angle: i64,
    angle_delta: i64,
    stars: VecDeque<Star>,
    mouse: Option<Point>,
}

/// What a simulation stands for.
pub struct SimulationModel {
    /// The simulated clock.
    pub clock: ClockModel,
    /// The direction in which the next star is emitted, in billionths of a
    /// radian.
    pub angle: int,
    /// By how much the direction turns at every tick.
    pub angle_delta: int,
    /// The stars in flight, the oldest first.
    pub stars: Seq<Star>,
    /// The attractor, while the pointer is held down.
    pub mouse: Option<Point>,
}

/// What one tick is given: the visible region and the direction of the
/// simulation's angle.
pub struct TickInput {
    pub screen: Rect,
    pub heading: Heading,
}

/// An angle below two turns, brought back into the first turn.
pub open spec fn wrapped(a: int) -> int {
    if a >= TWO_PI {
        a - TWO_PI
    } else {
        a
    }
}

/// The star has gone no farther, and its seed has been shifted no more, than
/// is possible for a star of its age at time `now`.
pub open spec fn within_reach(s: Star, now: int) -> bool {
    let age = now - s.born + TICK_NANOS;
    &&& -SPEED_MAX <= s.delta.x <= SPEED_MAX
    &&& -SPEED_MAX <= s.delta.y <= SPEED_MAX
    &&& -(age * STEP_MAX) <= s.pos.x * TICK_NANOS <= age * STEP_MAX
    &&& -(age * STEP_MAX) <= s.pos.y * TICK_NANOS <= age * STEP_MAX
    &&& 0 <= (s.seed - s.born) * TICK_NANOS <= age * MOUSE_SCALE
}

/// The stars are in the order in which they were emitted.
pub open spec fn in_spawn_order(stars: Seq<Star>) -> bool {
    forall|i: int, j: int| 0 <= i < j < stars.len() ==> (#[trigger] stars[i]).born < (
    #[trigger] stars[j]).born
}

/// Every star is inside the rectangle.
pub open spec fn all_inside(stars: Seq<Star>, screen: Rect) -> bool {
    forall|i: int| 0 <= i < stars.len() ==> screen.holds((#[trigger] stars[i]).pos)
}

/// The stars outside the rectangle are the oldest ones: no star that is
/// inside is followed by one that is outside.
pub open spec fn oldest_leave_first(stars: Seq<Star>, screen: Rect) -> bool {
    forall|i: int, j: int|
        0 <= i < j < stars.len() && screen.holds((#[trigger] stars[i]).pos) ==> screen.holds(
            (#[trigger] stars[j]).pos,
        )
}

/// The number of stars at the front that are outside the rectangle.
pub open spec fn lead_out(stars: Seq<Star>, screen: Rect) -> nat
    decreases stars.len(),
{
    if stars.len() == 0 || screen.holds(stars[0].pos) {
        0
    } else {
        1 + lead_out(stars.skip(1), screen)
    }
}

/// A star after one tick: moved, and then pulled at by the attractor if
/// there is one.
pub open spec fn moved(s: Star, mouse: Option<Point>) -> Star {
    match mouse {
        Some(m) => s.ticked().attracted(m),
        None => s.ticked(),
    }
}

impl SimulationModel {
    /// The invariant of the simulation.
    pub open spec fn wf(self) -> bool {
        &&& self.clock.wf()
        &&& self.clock.now <= u64::MAX
        &&& 0 <= self.angle < TWO_PI
        &&& 0 <= self.angle_delta < TWO_PI
        &&& in_spawn_order(self.stars)
        &&& forall|i: int|
            0 <= i < self.stars.len() ==> (#[trigger] self.stars[i]).born <= self.clock.last_star
        &&& forall|i: int|
            0 <= i < self.stars.len() ==> within_reach(
                #[trigger] self.stars[i],
                self.clock.now as int,
            )
        &&& match self.mouse {
            Some(m) => -2 * COORD_MAX <= m.x <= 2 * COORD_MAX && -2 * COORD_MAX <= m.y <= 2
                * COORD_MAX,
            None => true,
        }
    }

    /// The simulation before its first tick.
    pub open spec fn initial() -> SimulationModel {
        SimulationModel {
            clock: ClockModel::start(),
            angle: 0,
            angle_delta: 0,
            stars: Seq::empty(),
            mouse: None,
        }
    }

    /// The stars once the tick has emitted its star, if one is due.
    pub open spec fn emitted(self, heading: Heading) -> Seq<Star> {
        if self.clock.star_due() {
            self.stars.push(Star::spawned(heading, self.clock.ticked().now as u64))
        } else {
            self.stars
        }
    }

    /// The stars that the tick keeps: those that follow the stars at the
    /// front that have left the visible region.
    pub open spec fn retained(self, screen: Rect, heading: Heading) -> Seq<Star> {
        let stars = self.emitted(heading);
        stars.skip(lead_out(stars, screen) as int)
    }

    /// The simulation one tick later.
    pub open spec fn advanced(self, screen: Rect, heading: Heading) -> SimulationModel {
        SimulationModel {
            clock: self.clock.ticked(),
            angle: wrapped(self.angle + self.angle_delta),
            angle_delta: wrapped(self.angle_delta + ANGLE_STEP),
            stars: self.retained(screen, heading).map_values(|s: Star| moved(s, self.mouse)),
            mouse: self.mouse,
        }
    }

    /// The simulation after one tick for each of the inputs, in their order.
    pub open spec fn run(self, inputs: Seq<TickInput>) -> SimulationModel
        decreases inputs.len(),
    {
        if inputs.len() == 0 {
            self
        } else {
            self.run(inputs.drop_last()).advanced(inputs.last().screen, inputs.last().heading)
        }
    }

    /// The number of stars that the ticks of a run emit.
    pub open spec fn stars_emitted(self, inputs: Seq<TickInput>) -> nat
        decreases inputs.len(),
    {
        if inputs.len() == 0 {
            0
        } else {
            let earlier = self.stars_emitted(inputs.drop_last());
            if self.run(inputs.drop_last()).clock.star_due() {
                earlier + 1
            } else {
                earlier
            }
        }
    }

    /// The simulation after the pointer was pressed at `at`, a place of the
    /// window whose corner is that of `screen`.
    pub open spec fn pressed(self, button: MouseButton, at: Point, screen: Rect) -> SimulationModel {
        if button == MouseButton::Left {
            SimulationModel {
                mouse: Some(Point { x: (at.x + screen.x) as i64, y: (at.y + screen.y) as i64 }),
                ..self
            }
        } else {
            self
        }
    }

    /// The simulation after a button of the pointer was released.
    pub open spec fn released(self, button: MouseButton) -> SimulationModel {
        if button == MouseButton::Left {
            SimulationModel { mouse: None, ..self }
        } else {
            self
        }
    }

    /// The simulation after the pointer moved to `at`.
    pub open spec fn dragged(self, at: Point, screen: Rect) -> SimulationModel {
        if self.mouse.is_some() {
            SimulationModel {
                mouse: Some(Point { x: (at.x + screen.x) as i64, y: (at.y + screen.y) as i64 }),
                ..self
            }
        } else {
            self
        }
    }
}

/// The stars at the front that are outside are exactly the first
/// `lead_out`: each of them is outside, and the star that follows them, if
/// there is one, is inside.
pub proof fn lemma_lead_out(stars: Seq<Star>, screen: Rect)
    ensures
        lead_out(stars, screen) <= stars.len(),
        forall|i: int|
            0 <= i < lead_out(stars, screen) ==> !screen.holds((#[trigger] stars[i]).pos),
        lead_out(stars, screen) < stars.len() ==> screen.holds(
            stars[lead_out(stars, screen) as int].pos,
        ),
    decreases stars.len(),
{
    if stars.len() == 0 || screen.holds(stars[0].pos) {
    } else {
        let rest = stars.skip(1);
        lemma_lead_out(rest, screen);
        let k = lead_out(rest, screen) as int;
        assert forall|i: int| 0 <= i < 1 + k implies !screen.holds((#[trigger] stars[i]).pos) by {
            if i > 0 {
                assert(stars[i] == rest[i - 1]);
            }
        }
        if 1 + k < stars.len() {
            assert(stars[1 + k] == rest[k]);
        }
    }
}

/// Where the oldest stars leave first, the stars that are kept are all
/// inside the rectangle.
pub proof fn lemma_evicted_all_inside(stars: Seq<Star>, screen: Rect)
    requires
        oldest_leave_first(stars, screen),
    ensures
        all_inside(stars.skip(lead_out(stars, screen) as int), screen),
{
    lemma_lead_out(stars, screen);
    let k = lead_out(stars, screen) as int;
    let kept = stars.skip(k);
    assert forall|i: int| 0 <= i < kept.len() implies screen.holds((#[trigger] kept[i]).pos) by {
        assert(kept[i] == stars[k + i]);
        assert(screen.holds(stars[k].pos));
    }
}

/// A star that is within reach at one time is within reach one tick later,
/// after it has moved; the move changes neither its velocity nor the time at
/// which it was emitted.
pub proof fn lemma_moved_within_reach(s: Star, mouse: Option<Point>, now: int)
    requires
        within_reach(s, now),
        0 <= now - s.born + TICK_NANOS,
        0 <= now,
        now + TICK_NANOS <= u64::MAX,
    ensures
        within_reach(moved(s, mouse), now + TICK_NANOS),
        moved(s, mouse).born == s.born,
        moved(s, mouse).delta == s.delta,
        moved(s, mouse).pos == s.ticked().pos,
        s.ticked().pos.x == s.pos.x + div_toward_zero(s.delta.x as int, TARGET_FPS as int),
        s.ticked().pos.y == s.pos.y + div_toward_zero(s.delta.y as int, TARGET_FPS as int),
{
    let t = s.ticked();
    let qx = div_toward_zero(s.delta.x as int, TARGET_FPS as int);
    let qy = div_toward_zero(s.delta.y as int, TARGET_FPS as int);
    assert(-STEP_MAX <= qx <= STEP_MAX);
    assert(-STEP_MAX <= qy <= STEP_MAX);
    assert(t.pos.x == s.pos.x + qx);
    assert(t.pos.y == s.pos.y + qy);
    assert(t.delta == s.delta);
    match mouse {
        Some(m) => {
            lemma_seed_shift_range(m.dist_sqr(t.pos));
        },
        None => {},
    }
}

/// A tick keeps the invariant of the simulation.
pub proof fn lemma_advanced_wf(m: SimulationModel, screen: Rect, heading: Heading)
    requires
        m.wf(),
        heading.wf(),
        m.clock.now + TICK_NANOS <= u64::MAX,
    ensures
        m.advanced(screen, heading).wf(),
{
    let now = m.clock.now as int;
    let later = m.advanced(screen, heading);
    let stars = m.emitted(heading);
    let k = lead_out(stars, screen) as int;
    let kept = m.retained(screen, heading);
    lemma_lead_out(stars, screen);
    assert forall|i: int| 0 <= i < stars.len() implies within_reach(#[trigger] stars[i], now)
        && stars[i].born <= later.clock.last_star && 0 <= now - stars[i].born + TICK_NANOS by {
        if i < m.stars.len() {
            assert(stars[i] == m.stars[i]);
        }
    }
    assert forall|i: int, j: int| 0 <= i < j < stars.len() implies (#[trigger] stars[i]).born < (
    #[trigger] stars[j]).born by {
        assert(stars[i] == m.stars[i]);
        if j < m.stars.len() {
            assert(stars[j] == m.stars[j]);
        }
    }
    assert forall|i: int| 0 <= i < later.stars.len() implies within_reach(
        #[trigger] later.stars[i],
        later.clock.now as int,
    ) && later.stars[i].born <= later.clock.last_star && later.stars[i].born == stars[k
        + i].born by {
        assert(kept[i] == stars[k + i]);
        lemma_moved_within_reach(kept[i], m.mouse, now);
    }
    assert forall|i: int, j: int| 0 <= i < j < later.stars.len() implies (
    #[trigger] later.stars[i]).born < (#[trigger] later.stars[j]).born by {
        assert(stars[k + i].born < stars[k + j].born);
    }
}

/// A star within reach has a position and a seed in the ranges that the
/// library works with.
pub proof fn lemma_within_reach_wf(s: Star, now: int)
    requires
        within_reach(s, now),
        s.born <= now + TICK_NANOS,
        now <= u64::MAX,
    ensures
        s.wf(),
{
}

/// Every heading of the inputs is well formed.
pub open spec fn headings_wf(inputs: Seq<TickInput>) -> bool {
    forall|i: int| 0 <= i < inputs.len() ==> (#[trigger] inputs[i]).heading.wf()
}

/// Simulated time is exact: whatever the inputs, a run of `k` ticks adds
/// `k` tick durations to the clock, and the clock of the simulation is the
/// clock alone after as many ticks.
pub proof fn lemma_run_clock(m: SimulationModel, inputs: Seq<TickInput>)
    ensures
        m.run(inputs).clock == m.clock.after(inputs.len()),
        m.run(inputs).clock.now == m.clock.now + inputs.len() * TICK_NANOS,
        m.stars_emitted(inputs) == m.clock.stars_within(inputs.len()),
    decreases inputs.len(),
{
    lemma_time_after_ticks(m.clock, inputs.len());
    if inputs.len() > 0 {
        lemma_run_clock(m, inputs.drop_last());
    }
}

/// From the start, the number of stars emitted depends on the number of
/// ticks alone: after `k` ticks it is `k / 7`, and simulated time is `k`
/// tick durations, whatever screens and headings the ticks were given.
pub proof fn lemma_run_stars_emitted(inputs: Seq<TickInput>)
    ensures
        SimulationModel::initial().stars_emitted(inputs) == inputs.len() / (TICKS_PER_STAR as nat),
        SimulationModel::initial().run(inputs).clock.now == inputs.len() * TICK_NANOS,
{
    lemma_run_clock(SimulationModel::initial(), inputs);
    lemma_stars_after_ticks(inputs.len());
}

/// While the ticks that the cadence rounds up have not yet added up to a
/// whole delay, the number of stars emitted from the start by simulated
/// time `T` is `T / delay`, rounded down, however the ticks were given.
pub proof fn lemma_run_stars_per_delay(inputs: Seq<TickInput>)
    requires
        inputs.len() * TICK_NANOS < (inputs.len() / (TICKS_PER_STAR as nat) + 1)
            * STAR_DELAY_NANOS,
    ensures
        SimulationModel::initial().stars_emitted(inputs) == SimulationModel::initial().run(
            inputs,
        ).clock.now / (STAR_DELAY_NANOS as nat),
{
    lemma_run_clock(SimulationModel::initial(), inputs);
    lemma_stars_per_delay(inputs.len());
}

/// The invariant holds after arbitrarily many ticks, as long as the clock
/// stays in the range of its counter. In particular the angle and the
/// angular velocity stay in the first turn and the stars stay in the order
/// in which they were emitted.
pub proof fn lemma_run_wf(m: SimulationModel, inputs: Seq<TickInput>)
    requires
        m.wf(),
        headings_wf(inputs),
        m.clock.now + inputs.len() * TICK_NANOS <= u64::MAX,
    ensures
        m.run(inputs).wf(),
        0 <= m.run(inputs).angle < TWO_PI,
        0 <= m.run(inputs).angle_delta < TWO_PI,
        in_spawn_order(m.run(inputs).stars),
    decreases inputs.len(),
{
    if inputs.len() > 0 {
        let earlier = inputs.drop_last();
        assert forall|i: int| 0 <= i < earlier.len() implies (#[trigger] earlier[i]).heading.wf() by {
            assert(earlier[i] == inputs[i]);
        }
        lemma_run_wf(m, earlier);
        lemma_run_clock(m, earlier);
        lemma_advanced_wf(m.run(earlier), inputs.last().screen, inputs.last().heading);
    }
}

/// What a tick keeps was visible: the stars after a tick are, one for one
/// and in their order, the moved stars that followed the leading stars
/// outside the screen, and the first of them was inside the screen before it
/// moved.
pub proof fn lemma_advance_keeps_from_first_visible(
    m: SimulationModel,
    screen: Rect,
    heading: Heading,
)
    ensures
        m.advanced(screen, heading).stars.len() == m.retained(screen, heading).len(),
        forall|i: int|
            0 <= i < m.retained(screen, heading).len() ==> #[trigger] m.advanced(
                screen,
                heading,
            ).stars[i] == moved(m.retained(screen, heading)[i], m.mouse),
        m.retained(screen, heading).len() > 0 ==> screen.holds(
            m.retained(screen, heading)[0].pos,
        ),
{
    let all = m.emitted(heading);
    lemma_lead_out(all, screen);
}

/// The eviction invariant. After a tick every star is on the screen, unless
/// a star that the tick kept is off the screen once it has moved; and the
/// stars are in the order in which they were emitted.
pub proof fn lemma_advance_keeps_visible(m: SimulationModel, screen: Rect, heading: Heading)
    requires
        m.wf(),
        heading.wf(),
        m.clock.now + TICK_NANOS <= u64::MAX,
        forall|i: int|
            0 <= i < m.retained(screen, heading).len() ==> screen.holds(
                moved(#[trigger] m.retained(screen, heading)[i], m.mouse).pos,
            ),
    ensures
        all_inside(m.advanced(screen, heading).stars, screen),
        in_spawn_order(m.advanced(screen, heading).stars),
{
    let kept = m.retained(screen, heading);
    let later = m.advanced(screen, heading);
    lemma_advanced_wf(m, screen, heading);
    assert forall|i: int| 0 <= i < later.stars.len() implies screen.holds(
        (#[trigger] later.stars[i]).pos,
    ) by {
        assert(later.stars[i] == moved(kept[i], m.mouse));
    }
}

/// A star that the tick kept and that is off the screen once it has moved
/// is off the screen after the tick.
pub proof fn lemma_advance_shows_what_left(
    m: SimulationModel,
    screen: Rect,
    heading: Heading,
    i: int,
)
    requires
        0 <= i < m.retained(screen, heading).len(),
        !screen.holds(moved(m.retained(screen, heading)[i], m.mouse).pos),
    ensures
        !all_inside(m.advanced(screen, heading).stars, screen),
{
    let later = m.advanced(screen, heading);
    assert(later.stars[i] == moved(m.retained(screen, heading)[i], m.mouse));
}

/// Where the oldest stars leave the screen first, and no star that is on
/// the screen leaves it by this tick's move, every star is on the screen
/// after the tick.
pub proof fn lemma_visible_when_oldest_leave_first(
    m: SimulationModel,
    screen: Rect,
    heading: Heading,
)
    requires
        m.wf(),
        heading.wf(),
        m.clock.now + TICK_NANOS <= u64::MAX,
        oldest_leave_first(m.emitted(heading), screen),
        forall|i: int|
            0 <= i < m.emitted(heading).len() && screen.holds(
                (#[trigger] m.emitted(heading)[i]).pos,
            ) ==> screen.holds(moved(m.emitted(heading)[i], m.mouse).pos),
    ensures
        all_inside(m.retained(screen, heading), screen),
        all_inside(m.advanced(screen, heading).stars, screen),
{
    let all = m.emitted(heading);
    let k = lead_out(all, screen) as int;
    let kept = m.retained(screen, heading);
    lemma_lead_out(all, screen);
    lemma_evicted_all_inside(all, screen);
    assert forall|i: int| 0 <= i < kept.len() implies screen.holds(
        moved(#[trigger] kept[i], m.mouse).pos,
    ) by {
        assert(kept[i] == all[k + i]);
        assert(screen.holds(kept[i].pos));
    }
    lemma_advance_keeps_visible(m, screen, heading);
}

impl View for Simulation {
    type V = SimulationModel;

    closed spec fn view(&self) -> SimulationModel {
        SimulationModel {
            clock: self.clock@,
            angle: self.angle as int,
            angle_delta: self.angle_delta as int,
            stars: self.stars@,
            mouse: self.mouse,
        }
    }
}

/// Removes the stars at the front that are outside the rectangle, up to the
/// first that is inside.
fn evict(stars: &mut VecDeque<Star>, screen: &Rect)
    requires
        screen.wf(),
    ensures
        final(stars)@ == old(stars)@.skip(lead_out(old(stars)@, *screen) as int),
{
    let ghost all = stars@;
    let mut more: bool = stars.len() > 0 && !screen.contains(&stars[0].pos);
    proof {
        lemma_lead_out(all, *screen);
    }
    while more
        invariant
            screen.wf(),
            more == (stars@.len() > 0 && !screen.holds(stars@[0].pos)),
            lead_out(stars@, *screen) <= stars@.len(),
            lead_out(all, *screen) <= all.len(),
            all.skip(lead_out(all, *screen) as int) == stars@.skip(
                lead_out(stars@, *screen) as int,
            ),
        decreases stars@.len(),
    {
        let ghost before = stars@;
        stars.pop_front();
        proof {
            lemma_lead_out(stars@, *screen);
            assert(before.skip(1).skip(lead_out(stars@, *screen) as int) =~= before.skip(
                1 + lead_out(stars@, *screen) as int,
            ));
        }
        more = stars.len() > 0 && !screen.contains(&stars[0].pos);
    }
    proof {
        lemma_lead_out(all, *screen);
        assert(stars@.skip(0) =~= stars@);
    }
}

/// Moves every star by one tick and lets the attractor, if there is one,
/// pull at it.
fn move_stars(stars: &mut VecDeque<Star>, mouse: Option<Point>)
    requires
        forall|i: int| 0 <= i < old(stars)@.len() ==> (#[trigger] old(stars)@[i]).wf(),
        match mouse {
            Some(m) => -2 * COORD_MAX <= m.x <= 2 * COORD_MAX && -2 * COORD_MAX <= m.y <= 2
                * COORD_MAX,
            None => true,
        },
    ensures
        final(stars)@ == old(stars)@.map_values(|s: Star| moved(s, mouse)),
{
    let ghost all = stars@;
    let n: usize = stars.len();
    let mut i: usize = 0;
    while i < n
        invariant
            i <= n,
            n == all.len(),
            stars@.len() == n,
            forall|j: int| 0 <= j < all.len() ==> (#[trigger] all[j]).wf(),
            forall|j: int| 0 <= j < n - i ==> stars@[j] == all[i + j],
            forall|j: int| 0 <= j < i ==> stars@[n - i + j] == moved(all[j], mouse),
            match mouse {
                Some(m) => -2 * COORD_MAX <= m.x <= 2 * COORD_MAX && -2 * COORD_MAX <= m.y <= 2
                    * COORD_MAX,
                None => true,
            },
        decreases n - i,
    {
        let ghost before = stars@;
        match stars.pop_front() {
            Some(star) => {
                let mut star: Star = star;
                assert(star == all[i as int]);
                star.tick();
                match mouse {
                    Some(m) => {
                        proof {
                            lemma_dist_sqr_bound(m, star.pos, 3 * COORD_MAX);
                        }
                        star.attract(&m);
                    },
                    None => {},
                }
                stars.push_back(star);
                assert(star == moved(all[i as int], mouse));
                assert forall|j: int| 0 <= j < n - (i + 1) implies stars@[j] == all[i + 1 + j] by {
                    assert(stars@[j] == before[j + 1]);
                }
                assert forall|j: int| 0 <= j < i + 1 implies stars@[n - (i + 1) + j] == moved(
                    all[j],
                    mouse,
                ) by {
                    if j < i {
                        assert(stars@[n - (i + 1) + j] == before[n - i + j]);
                    }
                }
            },
            None => {},
        }
        i = i + 1;
    }
    assert(stars@ =~= all.map_values(|s: Star| moved(s, mouse)));
}

impl Simulation {
    /// The simulation before its first tick: the clock at zero, the origin
    /// at rest, no star and no attractor.
    pub fn new() -> (sim: Simulation)
        ensures
            sim@ == SimulationModel::initial(),
            sim@.wf(),
    {
        Simulation {
            clock: Clock::new(),
            angle: 0,
            angle_delta: 0,
            stars: VecDeque::new(),
            mouse: None,
        }
    }

    /// Simulated time since the start, in nanoseconds.
    pub fn now(&self) -> (t: u64)
        ensures
            t == self@.clock.now,
    {
        self.clock.now()
    }

    /// The direction in which the next star is emitted, in billionths of a
    /// radian.
    pub fn angle(&self) -> (a: i64)
        ensures
            a == self@.angle,
    {
        self.angle
    }

    /// By how much the direction turns at every tick, in billionths of a
    /// radian.
    pub fn angle_delta(&self) -> (a: i64)
        ensures
            a == self@.angle_delta,
    {
        self.angle_delta
    }

    /// The attractor, if the pointer is held down.
    pub fn mouse(&self) -> (m: Option<Point>)
        ensures
            m == self@.mouse,
    {
        self.mouse
    }

    /// The number of stars in flight.
    pub fn len(&self) -> (n: usize)
        ensures
            n == self@.stars.len(),
    {
        self.stars.len()
    }

    /// The star at place `i`, counted from the oldest, if there are that
    /// many.
    pub fn star(&self, i: usize) -> (s: Option<Star>)
        ensures
            s == if i < self@.stars.len() {
                Some(self@.stars[i as int])
            } else {
                None
            },
    {
        if i < self.stars.len() {
            Some(self.stars[i])
        } else {
            None
        }
    }

    /// For each star, from the oldest on, the arguments of the three waves
    /// that give it its colour now.
    pub fn color_phases(&self) -> (phases: Vec<ChannelPhases>)
        requires
            self@.wf(),
        ensures
            phases@.len() == self@.stars.len(),
            forall|i: int|
                0 <= i < phases@.len() ==> #[trigger] phases@[i] == self@.stars[i].phases(
                    self@.clock.now as u64,
                ),
    {
        let now: u64 = self.clock.now();
        let n: usize = self.stars.len();
        let mut phases: Vec<ChannelPhases> = Vec::new();
        let mut i: usize = 0;
        while i < n
            invariant
                self@.wf(),
                now == self@.clock.now,
                n == self.stars@.len(),
                i <= n,
                phases@.len() == i,
                forall|j: int|
                    0 <= j < i ==> #[trigger] phases@[j] == self@.stars[j].phases(now),
            decreases n - i,
        {
            proof {
                lemma_within_reach_wf(self@.stars[i as int], now as int);
            }
            phases.push(self.stars[i].color_phases(now));
            i = i + 1;
        }
        phases
    }

    /// The snapshot that the renderer draws: each star's position with its
    /// colour, from the oldest on. There is one only if there is one
    /// well-formed colour for each star.
    pub fn snapshot(&self, colors: &Vec<Color>) -> (dots: Option<Vec<Dot>>)
        requires
            self@.wf(),
        ensures
            dots.is_some() <==> colors@.len() == self@.stars.len() && forall|i: int|
                0 <= i < colors@.len() ==> (#[trigger] colors@[i]).wf(),
            match dots {
                Some(d) => {
                    &&& d@.len() == self@.stars.len()
                    &&& dots_wf(d@)
                    &&& forall|i: int|
                        0 <= i < d@.len() ==> #[trigger] d@[i] == (Dot {
                            pos: self@.stars[i].pos,
                            color: colors@[i],
                        })
                },
                None => true,
            },
    {
        let n: usize = self.stars.len();
        if colors.len() != n {
            return None;
        }
        let mut dots: Vec<Dot> = Vec::new();
        let mut i: usize = 0;
        while i < n
            invariant
                self@.wf(),
                n == self.stars@.len(),
                n == colors@.len(),
                i <= n,
                dots@.len() == i,
                dots_wf(dots@),
                forall|j: int| 0 <= j < i ==> (#[trigger] colors@[j]).wf(),
                forall|j: int|
                    0 <= j < i ==> #[trigger] dots@[j] == (Dot {
                        pos: self@.stars[j].pos,
                        color: colors@[j],
                    }),
            decreases n - i,
        {
            let color: Color = colors[i];
            if !color.is_valid() {
                return None;
            }
            proof {
                lemma_within_reach_wf(self@.stars[i as int], self@.clock.now as int);
            }
            dots.push(Dot { pos: self.stars[i].pos, color });
            i = i + 1;
        }
        Some(dots)
    }

    /// Whether the clock can take one more tick.
    pub fn can_advance(&self) -> (ok: bool)
        ensures
            ok == (self@.clock.now + TICK_NANOS <= u64::MAX),
    {
        self.clock.can_tick()
    }

    /// One tick of the simulation. The clock moves by one tick; if the delay
    /// has passed since the last star, a star is emitted at the origin in
    /// the direction `heading`; the stars at the front that are outside
    /// `screen` are dropped, up to the first that is inside; every star that
    /// is left moves, and the attractor pulls at it; the direction turns by
    /// the angular velocity, and the angular velocity grows.
    pub fn advance(&mut self, screen: &Rect, heading: Heading)
        requires
            old(self)@.wf(),
            screen.wf(),
            heading.wf(),
            old(self)@.clock.now + TICK_NANOS <= u64::MAX,
        ensures
            final(self)@ == old(self)@.advanced(*screen, heading),
            final(self)@.wf(),
    {
        let ghost before = self@;
        let due: bool = self.clock.tick();
        if due {
            self.stars.push_back(Star::spawn(heading, self.clock.now()));
        }
        assert(self.stars@ == before.emitted(heading));
        evict(&mut self.stars, screen);
        assert(self.stars@ == before.retained(*screen, heading));
        proof {
            lemma_advanced_wf(before, *screen, heading);
            lemma_lead_out(before.emitted(heading), *screen);
            let all = before.emitted(heading);
            let k = lead_out(all, *screen) as int;
            assert forall|i: int| 0 <= i < self.stars@.len() implies (
            #[trigger] self.stars@[i]).wf() by {
                assert(self.stars@[i] == all[k + i]);
                if k + i < before.stars.len() {
                    assert(all[k + i] == before.stars[k + i]);
                    lemma_within_reach_wf(all[k + i], before.clock.now as int);
                }
            }
        }
        move_stars(&mut self.stars, self.mouse);
        self.angle = self.angle + self.angle_delta;
        if self.angle >= TWO_PI {
            self.angle = self.angle - TWO_PI;
        }
        self.angle_delta = self.angle_delta + ANGLE_STEP;
        if self.angle_delta >= TWO_PI {
            self.angle_delta = self.angle_delta - TWO_PI;
        }
    }

    /// One step of the host's loop: a tick if the simulation is running,
    /// nothing if it is paused. Says whether the tick was taken.
    pub fn update(&mut self, controls: &Controls, screen: &Rect, heading: Heading) -> (ticked:
        bool)
        requires
            old(self)@.wf(),
            screen.wf(),
            heading.wf(),
            old(self)@.clock.now + TICK_NANOS <= u64::MAX,
        ensures
            ticked == controls.running,
            final(self)@ == if controls.running {
                old(self)@.advanced(*screen, heading)
            } else {
                old(self)@
            },
            final(self)@.wf(),
    {
        if controls.running {
            self.advance(screen, heading);
            true
        } else {
            false
        }
    }

    /// The pointer was pressed at `at`, a place of the window whose corner
    /// is that of `screen`: the left button puts the attractor there, in the
    /// coordinates of the simulation.
    pub fn mouse_button_down_event(&mut self, button: MouseButton, at: &Point, screen: &Rect)
        requires
            old(self)@.wf(),
            at.wf(),
            screen.wf(),
        ensures
            final(self)@ == old(self)@.pressed(button, *at, *screen),
            final(self)@.wf(),
    {
        match button {
            MouseButton::Left => {
                self.mouse = Some(Point { x: at.x + screen.x, y: at.y + screen.y });
            },
            _ => {},
        }
    }

    /// A button of the pointer was released: the left button takes the
    /// attractor away.
    pub fn mouse_button_up_event(&mut self, button: MouseButton)
        requires
            old(self)@.wf(),
        ensures
            final(self)@ == old(self)@.released(button),
            final(self)@.wf(),
    {
        match button {
            MouseButton::Left => {
                self.mouse = None;
            },
            _ => {},
        }
    }

    /// The pointer moved to `at`: the attractor, if there is one, follows.
    pub fn mouse_motion_event(&mut self, at: &Point, screen: &Rect)
        requires
            old(self)@.wf(),
            at.wf(),
            screen.wf(),
        ensures
            final(self)@ == old(self)@.dragged(*at, *screen),
            final(self)@.wf(),
    {
        if self.mouse.is_some() {
            self.mouse = Some(Point { x: at.x + screen.x, y: at.y + screen.y });
        }
    }
}

} // verus!
