use spiral::color::Color;
use spiral::controls::{Controls, Key, MouseButton};
use spiral::geometry::{Point, Rect};
use spiral::render::Dot;
use spiral::simulation::Simulation;
use spiral::star::Heading;
use spiral::units::{TICK_NANOS, TWO_PI, UNIT};

fn wide_screen() -> Rect {
    Rect::new(-500_000_000, -500_000_000, 1_000_000_000, 1_000_000_000).unwrap()
}

fn east() -> Heading {
    Heading::new(UNIT, 0).unwrap()
}

#[test]
fn new_simulation_is_empty() {
    let sim = Simulation::new();
    assert_eq!(sim.now(), 0);
    assert_eq!(sim.angle(), 0);
    assert_eq!(sim.angle_delta(), 0);
    assert_eq!(sim.len(), 0);
    assert_eq!(sim.star(0), None);
    assert_eq!(sim.mouse(), None);
    assert!(sim.can_advance());
}

#[test]
fn simulated_time_is_exact() {
    let mut sim = Simulation::new();
    let screen = wide_screen();
    for k in 1..=600u64 {
        sim.advance(&screen, east());
        assert_eq!(sim.now(), k * TICK_NANOS);
    }
    assert_eq!(sim.now(), 9_999_999_600);
}

#[test]
fn first_star_is_emitted_by_the_seventh_tick() {
    let mut sim = Simulation::new();
    let screen = wide_screen();
    for _ in 0..6 {
        sim.advance(&screen, east());
        assert_eq!(sim.len(), 0);
    }
    sim.advance(&screen, east());
    assert_eq!(sim.len(), 1);
    let star = sim.star(0).unwrap();
    assert_eq!(star.born, 116_666_662);
    assert_eq!(star.seed, 116_666_662);
    assert_eq!(star.delta.x, 10_000_000);
    assert_eq!(star.delta.y, 0);
    assert_eq!(star.pos, Point { x: 166_666, y: 0 });
    assert_eq!(sim.star(1), None);
}

#[test]
fn star_count_is_ticks_over_seven_while_none_leaves() {
    let mut sim = Simulation::new();
    let screen = wide_screen();
    for k in 1..=350usize {
        sim.advance(&screen, east());
        assert_eq!(sim.len(), k / 7);
    }
    assert_eq!(sim.len(), 50);
}

#[test]
fn stars_stay_in_spawn_order() {
    let mut sim = Simulation::new();
    let screen = wide_screen();
    for _ in 0..100 {
        sim.advance(&screen, east());
    }
    assert_eq!(sim.len(), 14);
    for i in 1..sim.len() {
        assert!(sim.star(i - 1).unwrap().born < sim.star(i).unwrap().born);
        assert!(sim.star(i - 1).unwrap().pos.x > sim.star(i).unwrap().pos.x);
    }
    assert_eq!(sim.star(0).unwrap().born, 7 * TICK_NANOS);
    assert_eq!(sim.star(13).unwrap().born, 98 * TICK_NANOS);
    assert_eq!(sim.star(0).unwrap().pos.x, 94 * 166_666);
}

#[test]
fn stars_that_left_the_screen_are_evicted_from_the_front() {
    let mut sim = Simulation::new();
    let screen = Rect::new(-1_000_000, -1_000_000, 2_000_000, 2_000_000).unwrap();
    for _ in 0..13 {
        sim.advance(&screen, east());
    }
    assert_eq!(sim.len(), 1);
    assert_eq!(sim.star(0).unwrap().born, 7 * TICK_NANOS);
    assert_eq!(sim.star(0).unwrap().pos.x, 7 * 166_666);
    assert!(!screen.contains(&sim.star(0).unwrap().pos));
    sim.advance(&screen, east());
    assert_eq!(sim.len(), 1);
    assert_eq!(sim.star(0).unwrap().born, 14 * TICK_NANOS);
    assert_eq!(sim.star(0).unwrap().pos.x, 166_666);
}

#[test]
fn eviction_stops_at_the_first_star_inside() {
    let mut sim = Simulation::new();
    let wide = wide_screen();
    for _ in 0..21 {
        sim.advance(&wide, east());
    }
    assert_eq!(sim.len(), 3);
    let first = sim.star(0).unwrap();
    let second = sim.star(1).unwrap();
    let third = sim.star(2).unwrap();
    assert_eq!(first.pos.x, 15 * 166_666);
    assert_eq!(second.pos.x, 8 * 166_666);
    assert_eq!(third.pos.x, 166_666);
    let narrow = Rect::new(-2_000_000, -2_000_000, 4_000_000, 4_000_000).unwrap();
    sim.advance(&narrow, east());
    assert_eq!(sim.len(), 2);
    assert_eq!(sim.star(0).unwrap().born, second.born);
    assert_eq!(sim.star(0).unwrap().pos.x, 9 * 166_666);
    assert_eq!(sim.star(1).unwrap().born, third.born);
}

#[test]
fn a_star_behind_one_that_is_inside_is_kept_though_it_is_outside() {
    let mut sim = Simulation::new();
    let wide = wide_screen();
    for _ in 0..14 {
        sim.advance(&wide, east());
    }
    assert_eq!(sim.len(), 2);
    let right_half = Rect::new(1_000_000, -1_000_000, 10_000_000, 2_000_000).unwrap();
    assert!(right_half.contains(&sim.star(0).unwrap().pos));
    assert!(!right_half.contains(&sim.star(1).unwrap().pos));
    sim.advance(&right_half, east());
    assert_eq!(sim.len(), 2);
    assert!(!right_half.contains(&sim.star(1).unwrap().pos));
}

#[test]
fn angle_turns_by_the_angular_velocity() {
    let mut sim = Simulation::new();
    let screen = wide_screen();
    for k in 1..=7i64 {
        sim.advance(&screen, east());
        assert_eq!(sim.angle_delta(), k * 166_666);
        assert_eq!(sim.angle(), 166_666 * k * (k - 1) / 2);
    }
    assert_eq!(sim.angle(), 3_499_986);
    assert_eq!(sim.angle_delta(), 1_166_662);
}

#[test]
fn angle_and_angular_velocity_stay_in_the_first_turn() {
    let mut sim = Simulation::new();
    let screen = wide_screen();
    let mut wrapped = false;
    let mut before = 0;
    for _ in 0..40_000 {
        sim.advance(&screen, east());
        assert!(0 <= sim.angle() && sim.angle() < TWO_PI);
        assert!(0 <= sim.angle_delta() && sim.angle_delta() < TWO_PI);
        if sim.angle_delta() < before {
            wrapped = true;
        }
        before = sim.angle_delta();
    }
    assert!(wrapped);
}

#[test]
fn angle_wraps_by_subtracting_a_turn() {
    let mut sim = Simulation::new();
    let screen = wide_screen();
    let mut angle: i64 = 0;
    let mut delta: i64 = 0;
    for _ in 0..500 {
        sim.advance(&screen, east());
        angle += delta;
        if angle >= 6_283_185_307 {
            angle -= 6_283_185_307;
        }
        delta += 166_666;
        assert_eq!(sim.angle(), angle);
        assert_eq!(sim.angle_delta(), delta);
    }
    assert_eq!(sim.angle(), 166_666 * 500 * 499 / 2 - 3 * 6_283_185_307);
}

#[test]
fn left_button_sets_and_clears_the_attractor() {
    let mut sim = Simulation::new();
    let screen = wide_screen();
    sim.mouse_button_down_event(MouseButton::Right, &Point { x: 1, y: 2 }, &screen);
    assert_eq!(sim.mouse(), None);
    sim.mouse_button_down_event(MouseButton::Left, &Point { x: 1, y: 2 }, &screen);
    assert_eq!(sim.mouse(), Some(Point { x: -499_999_999, y: -499_999_998 }));
    sim.mouse_button_up_event(MouseButton::Middle);
    assert_eq!(sim.mouse(), Some(Point { x: -499_999_999, y: -499_999_998 }));
    sim.mouse_button_up_event(MouseButton::Left);
    assert_eq!(sim.mouse(), None);
}

#[test]
fn motion_moves_the_attractor_only_while_it_is_held() {
    let mut sim = Simulation::new();
    let screen = wide_screen();
    sim.mouse_motion_event(&Point { x: 5, y: 5 }, &screen);
    assert_eq!(sim.mouse(), None);
    sim.mouse_button_down_event(MouseButton::Left, &Point { x: 0, y: 0 }, &screen);
    sim.mouse_motion_event(&Point { x: 500_000_000, y: 500_000_007 }, &screen);
    assert_eq!(sim.mouse(), Some(Point { x: 0, y: 7 }));
}

#[test]
fn attractor_shifts_the_seed_and_not_the_position() {
    let mut sim = Simulation::new();
    let screen = Rect::new(0, 0, 1_000_000_000, 1_000_000_000).unwrap();
    let still = Heading::new(0, 0).unwrap();
    sim.mouse_button_down_event(MouseButton::Left, &Point { x: 3_000_000, y: 4_000_000 }, &screen);
    for _ in 0..7 {
        sim.advance(&screen, still);
    }
    let star = sim.star(0).unwrap();
    assert_eq!(star.pos, Point { x: 0, y: 0 });
    assert_eq!(star.born, 116_666_662);
    assert_eq!(star.seed, 116_666_662 + 1_000_000_000);
    sim.advance(&screen, still);
    assert_eq!(sim.star(0).unwrap().seed, 116_666_662 + 2_000_000_000);
    sim.mouse_button_up_event(MouseButton::Left);
    sim.advance(&screen, still);
    assert_eq!(sim.star(0).unwrap().seed, 116_666_662 + 2_000_000_000);
}

#[test]
fn attractor_pulls_harder_at_nearer_stars() {
    let mut sim = Simulation::new();
    let screen = wide_screen();
    for _ in 0..14 {
        sim.advance(&screen, east());
    }
    let far = sim.star(0).unwrap();
    let near = sim.star(1).unwrap();
    sim.mouse_button_down_event(MouseButton::Left, &Point { x: 500_000_000, y: 500_000_000 }, &screen);
    sim.advance(&screen, east());
    let far_shift = sim.star(0).unwrap().seed - far.seed;
    let near_shift = sim.star(1).unwrap().seed - near.seed;
    assert_eq!(sim.star(0).unwrap().pos.x, 9 * 166_666);
    assert_eq!(far_shift, 5_000_000_000_000_000 / (9 * 166_666));
    assert_eq!(near_shift, 5_000_000_000_000_000 / (2 * 166_666));
    assert!(near_shift > far_shift);
}

#[test]
fn update_ticks_only_while_running() {
    let mut sim = Simulation::new();
    let mut controls = Controls::new();
    let screen = wide_screen();
    assert!(sim.update(&controls, &screen, east()));
    assert_eq!(sim.now(), TICK_NANOS);
    controls.key_up_event(Key::Space);
    assert!(!sim.update(&controls, &screen, east()));
    assert!(!sim.update(&controls, &screen, east()));
    assert_eq!(sim.now(), TICK_NANOS);
    assert_eq!(sim.angle_delta(), 166_666);
    controls.key_up_event(Key::Space);
    assert!(sim.update(&controls, &screen, east()));
    assert_eq!(sim.now(), 2 * TICK_NANOS);
}

#[test]
fn pausing_does_not_shift_the_cadence() {
    let mut sim = Simulation::new();
    let mut controls = Controls::new();
    let screen = wide_screen();
    for _ in 0..5 {
        sim.update(&controls, &screen, east());
    }
    controls.key_up_event(Key::Space);
    for _ in 0..100 {
        sim.update(&controls, &screen, east());
    }
    controls.key_up_event(Key::Space);
    sim.update(&controls, &screen, east());
    assert_eq!(sim.len(), 0);
    sim.update(&controls, &screen, east());
    assert_eq!(sim.len(), 1);
    assert_eq!(sim.now(), 7 * TICK_NANOS);
}

#[test]
fn color_phases_follow_the_clock() {
    let mut sim = Simulation::new();
    let screen = wide_screen();
    for _ in 0..7 {
        sim.advance(&screen, east());
    }
    let phases = sim.color_phases();
    assert_eq!(phases.len(), 1);
    let base: i128 = 116_666_662 - 3 * 116_666_662;
    assert_eq!(phases[0].r, base * 2 / 10);
    assert_eq!(phases[0].g, base * 3 / 10);
    assert_eq!(phases[0].b, base * 5 / 10);
    assert_eq!(phases[0].r, -46_666_664);
    sim.advance(&screen, east());
    let later = sim.color_phases();
    assert_eq!(later[0].b, (116_666_662i128 - 3 * 133_333_328) * 5 / 10);
}

#[test]
fn snapshot_pairs_positions_with_colors() {
    let mut sim = Simulation::new();
    let screen = wide_screen();
    for _ in 0..14 {
        sim.advance(&screen, east());
    }
    let red = Color::new(UNIT, 0, 0).unwrap();
    let blue = Color::new(0, 0, UNIT).unwrap();
    let dots = sim.snapshot(&vec![red, blue]).unwrap();
    assert_eq!(
        dots,
        vec![
            Dot { pos: Point { x: 8 * 166_666, y: 0 }, color: red },
            Dot { pos: Point { x: 166_666, y: 0 }, color: blue },
        ]
    );
}

#[test]
fn snapshot_needs_one_valid_color_for_each_star() {
    let mut sim = Simulation::new();
    let screen = wide_screen();
    for _ in 0..14 {
        sim.advance(&screen, east());
    }
    let red = Color::new(UNIT, 0, 0).unwrap();
    assert_eq!(sim.snapshot(&vec![red]), None);
    assert_eq!(sim.snapshot(&vec![red, red, red]), None);
    let bad = Color { r: -1, g: 0, b: 0, a: UNIT };
    assert_eq!(sim.snapshot(&vec![red, bad]), None);
    assert!(sim.snapshot(&vec![red, red]).is_some());
    assert_eq!(Simulation::new().snapshot(&vec![]), Some(vec![]));
}

#[test]
fn every_star_is_on_the_screen_while_none_reaches_the_edge() {
    let mut sim = Simulation::new();
    let screen = wide_screen();
    for _ in 0..2000 {
        sim.advance(&screen, east());
        for i in 0..sim.len() {
            assert!(screen.contains(&sim.star(i).unwrap().pos));
        }
        for i in 1..sim.len() {
            assert!(sim.star(i - 1).unwrap().born < sim.star(i).unwrap().born);
        }
    }
    assert_eq!(sim.len(), 285);
}

#[test]
fn the_window_of_stars_stays_bounded_once_stars_leave() {
    let mut sim = Simulation::new();
    let screen = Rect::new(-10_000_000, -10_000_000, 20_000_000, 20_000_000).unwrap();
    let mut most = 0;
    for _ in 0..3000 {
        sim.advance(&screen, east());
        if sim.len() > most {
            most = sim.len();
        }
        if sim.len() > 0 {
            let front = sim.star(0).unwrap();
            assert!(front.pos.x - 166_666 <= 10_000_000);
        }
    }
    assert_eq!(most, 9);
}
