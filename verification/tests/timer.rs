use pomo::timer::{Countdown, Phase, MILLIS_PER_SEC};

/// Seconds since the epoch, written in the milliseconds a countdown reads.
fn at(secs: u64) -> u64 {
    secs * MILLIS_PER_SEC
}

#[test]
fn countdown_ticks_down_in_real_seconds() {
    let mut c = Countdown::default();
    c.begin(10, at(100));
    assert_eq!(c.seconds_remaining, 10);
    assert!(!c.tick(at(101)));
    assert_eq!(c.seconds_remaining, 9);
    assert!(!c.tick(at(105)));
    assert_eq!(c.seconds_remaining, 5);
}

#[test]
fn duplicate_ticks_do_not_speed_up_the_countdown() {
    let mut c = Countdown::default();
    c.begin(10, at(100));
    c.tick(at(101));
    c.tick(at(101));
    c.tick(at(101));
    assert_eq!(c.seconds_remaining, 9);
}

#[test]
fn sub_second_early_tick_does_not_drop_a_second() {
    let mut c = Countdown::default();
    c.begin(10, at(100));
    c.tick(at(100) + 500);
    assert_eq!(c.seconds_remaining, 10);
}

#[test]
fn countdown_finishes_once_at_zero() {
    let mut c = Countdown::default();
    c.begin(3, at(100));
    assert!(!c.tick(at(102)));
    assert!(c.tick(at(103)));
    assert_eq!(c.seconds_remaining, 0);
    assert!(!c.running);
    assert!(!c.tick(at(104)));
}

#[test]
fn late_tick_clamps_to_zero() {
    let mut c = Countdown::default();
    c.begin(3, at(100));
    assert!(c.tick(at(500)));
    assert_eq!(c.seconds_remaining, 0);
}

#[test]
fn pause_freezes_and_resume_reanchors() {
    let mut c = Countdown::default();
    c.begin(10, at(100));
    c.tick(at(104));
    c.pause();
    assert_eq!(c.seconds_remaining, 6);
    assert!(!c.tick(at(150)));
    assert_eq!(c.seconds_remaining, 6);
    c.begin(c.seconds_remaining, at(200));
    c.tick(at(203));
    assert_eq!(c.seconds_remaining, 3);
}

#[test]
fn default_countdown_is_stopped_at_zero() {
    let c = Countdown::default();
    assert_eq!(c.seconds_remaining, 0);
    assert!(!c.running);
    assert_eq!(c.deadline, 0);
}

#[test]
fn default_phase_is_work() {
    assert_eq!(Phase::default(), Phase::Work);
}

#[test]
fn begin_anchors_deadline() {
    let mut c = Countdown::default();
    c.begin(25, 1_000);
    assert_eq!(c.deadline, 26_000);
    assert!(c.running);
}

#[test]
fn tick_rounds_partial_seconds_up() {
    let mut c = Countdown::default();
    c.begin(10, 0);
    assert!(!c.tick(9_001));
    assert_eq!(c.seconds_remaining, 1);
    assert!(!c.tick(8_999));
    assert_eq!(c.seconds_remaining, 2);
    assert!(c.tick(10_000));
    assert_eq!(c.seconds_remaining, 0);
}

#[test]
fn tick_before_the_anchor_shows_more_than_begun() {
    let mut c = Countdown::default();
    c.begin(10, at(100));
    assert!(!c.tick(at(98)));
    assert_eq!(c.seconds_remaining, 12);
}

#[test]
fn huge_countdown_is_capped_at_usize_max() {
    let mut c = Countdown::default();
    c.begin(usize::MAX, u64::MAX);
    assert!(!c.tick(0));
    assert_eq!(c.seconds_remaining, usize::MAX);
    assert!(c.running);
}

#[test]
fn paused_tick_changes_nothing() {
    let mut c = Countdown::default();
    c.begin(10, at(100));
    c.pause();
    let deadline = c.deadline;
    assert!(!c.tick(at(1000)));
    assert_eq!(c.seconds_remaining, 10);
    assert_eq!(c.deadline, deadline);
    assert!(!c.running);
}

#[test]
fn later_ticks_never_show_more() {
    let mut c = Countdown::default();
    c.begin(100, 0);
    let mut last = c.seconds_remaining;
    for t in (0..120_000).step_by(333) {
        c.tick(t);
        assert!(c.seconds_remaining <= last);
        last = c.seconds_remaining;
    }
    assert_eq!(last, 0);
}
