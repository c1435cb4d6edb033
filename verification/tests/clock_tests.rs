use spiral::clock::Clock;
use spiral::units::{STAR_DELAY_NANOS, TICKS_PER_STAR, TICK_NANOS};

#[test]
fn clock_starts_at_zero() {
    let c = Clock::new();
    assert_eq!(c.now(), 0);
    assert_eq!(c.last_star(), 0);
    assert!(c.can_tick());
}

#[test]
fn tick_duration_is_a_sixtieth_of_a_second() {
    assert_eq!(TICK_NANOS, 1_000_000_000 / 60);
    assert_eq!(TICK_NANOS, 16_666_666);
}

#[test]
fn time_after_k_ticks_is_k_tick_durations() {
    let mut c = Clock::new();
    for k in 1..=1000u64 {
        c.tick();
        assert_eq!(c.now(), k * TICK_NANOS);
    }
    assert_eq!(c.now(), 16_666_666_000);
}

#[test]
fn first_star_comes_with_the_seventh_tick() {
    let mut c = Clock::new();
    for _ in 0..6 {
        assert!(!c.tick());
    }
    assert_eq!(c.now(), 99_999_996);
    assert_eq!(c.last_star(), 0);
    assert!(c.tick());
    assert_eq!(c.now(), 116_666_662);
    assert_eq!(c.last_star(), 116_666_662);
}

#[test]
fn one_star_every_seven_ticks() {
    let mut c = Clock::new();
    let mut stars = 0u64;
    for k in 1..=700u64 {
        let due = c.tick();
        assert_eq!(due, k % 7 == 0);
        if due {
            stars += 1;
        }
        assert_eq!(stars, k / TICKS_PER_STAR);
        assert_eq!(c.last_star(), (k - k % 7) * TICK_NANOS);
    }
    assert_eq!(stars, 100);
}

#[test]
fn star_count_is_time_over_delay_in_the_first_ticks() {
    let mut c = Clock::new();
    let mut stars = 0u64;
    for _ in 1..=12u64 {
        if c.tick() {
            stars += 1;
        }
        assert_eq!(stars, c.now() / STAR_DELAY_NANOS);
    }
}

#[test]
fn star_count_falls_behind_time_over_delay_at_tick_thirteen() {
    let mut c = Clock::new();
    let mut stars = 0u64;
    for _ in 0..13 {
        if c.tick() {
            stars += 1;
        }
    }
    assert_eq!(c.now(), 216_666_658);
    assert_eq!(stars, 1);
    assert_eq!(c.now() / STAR_DELAY_NANOS, 2);
    assert!(stars <= c.now() / STAR_DELAY_NANOS);
}

#[test]
fn seven_ticks_are_the_least_that_last_a_delay() {
    assert!(TICKS_PER_STAR * TICK_NANOS >= STAR_DELAY_NANOS);
    assert!((TICKS_PER_STAR - 1) * TICK_NANOS < STAR_DELAY_NANOS);
}
