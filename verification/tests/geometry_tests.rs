use spiral::color::Color;
use spiral::geometry::{Point, Rect};
use spiral::star::{Heading, Star};
use spiral::units::{COORD_MAX, UNIT};

#[test]
fn point_new_accepts_the_range_and_no_more() {
    assert_eq!(Point::new(3, -4), Some(Point { x: 3, y: -4 }));
    assert_eq!(Point::new(COORD_MAX, -COORD_MAX), Some(Point { x: COORD_MAX, y: -COORD_MAX }));
    assert_eq!(Point::new(COORD_MAX + 1, 0), None);
    assert_eq!(Point::new(0, -COORD_MAX - 1), None);
    assert_eq!(Point::origin(), Point { x: 0, y: 0 });
}

#[test]
fn distance_is_squared() {
    let a = Point { x: 1, y: 2 };
    let b = Point { x: 4, y: 6 };
    assert_eq!(a.distance_sqr_to(&b), 25);
    assert_eq!(b.distance_sqr_to(&a), 25);
    assert_eq!(a.distance_sqr_to(&a), 0);
    let far = Point { x: -COORD_MAX, y: -COORD_MAX };
    let away = Point { x: COORD_MAX, y: COORD_MAX };
    let side: u128 = 2 * COORD_MAX as u128;
    assert_eq!(far.distance_sqr_to(&away), 2 * side * side);
}

#[test]
fn rect_contains_its_edges() {
    let r = Rect::new(-10, -20, 30, 40).unwrap();
    assert!(r.contains(&Point { x: 0, y: 0 }));
    assert!(r.contains(&Point { x: -10, y: -20 }));
    assert!(r.contains(&Point { x: 20, y: 20 }));
    assert!(r.contains(&Point { x: 20, y: -20 }));
    assert!(!r.contains(&Point { x: 21, y: 0 }));
    assert!(!r.contains(&Point { x: -11, y: 0 }));
    assert!(!r.contains(&Point { x: 0, y: 21 }));
    assert!(!r.contains(&Point { x: 0, y: -21 }));
}

#[test]
fn rect_of_negative_size_contains_nothing() {
    let r = Rect::new(0, 0, -1, 5).unwrap();
    assert!(!r.contains(&Point { x: 0, y: 0 }));
    assert!(!r.contains(&Point { x: -1, y: 1 }));
}

#[test]
fn rect_new_checks_the_range() {
    assert!(Rect::new(0, 0, COORD_MAX, COORD_MAX).is_some());
    assert!(Rect::new(COORD_MAX + 1, 0, 1, 1).is_none());
    assert!(Rect::new(0, 0, 1, -COORD_MAX - 1).is_none());
}

#[test]
fn color_new_checks_the_channels() {
    assert_eq!(Color::new(0, UNIT, 5), Some(Color { r: 0, g: UNIT, b: 5, a: UNIT }));
    assert_eq!(Color::new(-1, 0, 0), None);
    assert_eq!(Color::new(0, UNIT + 1, 0), None);
    assert!(Color { r: 0, g: 0, b: 0, a: UNIT }.is_valid());
    assert!(!Color { r: 0, g: 0, b: 0, a: UNIT + 1 }.is_valid());
}

#[test]
fn color_from_waves_is_half_of_one_plus_the_wave() {
    assert_eq!(
        Color::from_waves(UNIT, -UNIT, 0),
        Some(Color { r: UNIT, g: 0, b: 500_000, a: UNIT })
    );
    assert_eq!(
        Color::from_waves(500_000, -500_000, 1),
        Some(Color { r: 750_000, g: 250_000, b: 500_000, a: UNIT })
    );
    assert_eq!(Color::from_waves(-1, -3, 0).unwrap().r, 499_999);
    assert_eq!(Color::from_waves(-1, -3, 0).unwrap().g, 499_998);
    assert_eq!(Color::from_waves(UNIT + 1, 0, 0), None);
    assert_eq!(Color::from_waves(0, 0, -UNIT - 1), None);
}

#[test]
fn dim_gray_is_three_tenths() {
    assert_eq!(Color::dim_gray(), Color { r: 300_000, g: 300_000, b: 300_000, a: 1_000_000 });
}

#[test]
fn heading_new_checks_the_range() {
    assert_eq!(Heading::new(UNIT, -UNIT), Some(Heading { cos: UNIT, sin: -UNIT }));
    assert_eq!(Heading::new(UNIT + 1, 0), None);
    assert_eq!(Heading::new(0, -UNIT - 1), None);
}

#[test]
fn spawn_puts_a_star_at_the_origin() {
    let h = Heading::new(600_000, -800_000).unwrap();
    let s = Star::spawn(h, 116_666_662);
    assert_eq!(s.pos, Point { x: 0, y: 0 });
    assert_eq!(s.delta.x, 6_000_000);
    assert_eq!(s.delta.y, -8_000_000);
    assert_eq!(s.seed, 116_666_662);
    assert_eq!(s.born, 116_666_662);
}

#[test]
fn star_tick_moves_by_a_sixtieth_of_the_velocity() {
    let h = Heading::new(600_000, -800_000).unwrap();
    let mut s = Star::spawn(h, 0);
    s.tick();
    assert_eq!(s.pos, Point { x: 100_000, y: -133_333 });
    assert_eq!(s.delta.x, 6_000_000);
    assert_eq!(s.delta.y, -8_000_000);
    s.tick();
    assert_eq!(s.pos, Point { x: 200_000, y: -266_666 });
    assert_eq!(s.seed, 0);
}

#[test]
fn attract_shifts_the_seed_by_strength_over_distance() {
    let mut s = Star::spawn(Heading::new(0, 0).unwrap(), 1_000);
    s.attract(&Point { x: 3_000_000, y: 4_000_000 });
    assert_eq!(s.seed, 1_000 + 1_000_000_000);
    assert_eq!(s.pos, Point { x: 0, y: 0 });
    s.attract(&Point { x: 0, y: -100_000_000 });
    assert_eq!(s.seed, 1_000 + 1_000_000_000 + 50_000_000);
}

#[test]
fn attract_at_the_star_counts_the_distance_as_one() {
    let mut s = Star::spawn(Heading::new(0, 0).unwrap(), 0);
    s.attract(&Point { x: 0, y: 0 });
    assert_eq!(s.seed, 5_000_000_000_000_000);
    s.attract(&Point { x: 1, y: 0 });
    assert_eq!(s.seed, 10_000_000_000_000_000);
    s.attract(&Point { x: 2, y: 0 });
    assert_eq!(s.seed, 12_500_000_000_000_000);
}

#[test]
fn color_phases_scale_the_seed_and_the_time() {
    let s = Star::spawn(Heading::new(UNIT, 0).unwrap(), 1_000_000_000);
    let p = s.color_phases(1_000_000_000);
    assert_eq!(p.r, -400_000_000);
    assert_eq!(p.g, -600_000_000);
    assert_eq!(p.b, -1_000_000_000);
    let q = s.color_phases(0);
    assert_eq!(q.r, 200_000_000);
    assert_eq!(q.g, 300_000_000);
    assert_eq!(q.b, 500_000_000);
}

#[test]
fn color_phases_round_toward_zero() {
    let s = Star::spawn(Heading::new(UNIT, 0).unwrap(), 7);
    let p = s.color_phases(0);
    assert_eq!((p.r, p.g, p.b), (1, 2, 3));
    let q = s.color_phases(3);
    assert_eq!((q.r, q.g, q.b), (0, 0, -1));
}
