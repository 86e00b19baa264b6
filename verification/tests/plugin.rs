use pomo::plugin::{configured_length, Effect, PluginEvent, Pomo, DEFAULT_BREAK_SECS, DEFAULT_WORK_SECS};
use pomo::timer::Phase;

fn loaded(work: Option<&str>, brk: Option<&str>, now: u64) -> (Pomo, Vec<Effect>) {
    let mut p = Pomo::default();
    let mut effects = Vec::new();
    p.load(work, brk, now, &mut effects);
    (p, effects)
}

fn step(p: &mut Pomo, event: PluginEvent) -> (bool, Vec<Effect>) {
    let mut effects = Vec::new();
    let render = p.update(event, &mut effects);
    (render, effects)
}

#[test]
fn load_uses_defaults_and_starts_work() {
    let (p, effects) = loaded(None, None, 5_000);
    assert_eq!(p.work_duration, DEFAULT_WORK_SECS);
    assert_eq!(p.break_duration, DEFAULT_BREAK_SECS);
    assert_eq!(p.phase, Phase::Work);
    assert!(p.countdown.running);
    assert_eq!(p.countdown.seconds_remaining, 1500);
    assert_eq!(p.countdown.deadline, 5_000 + 1_500_000);
    assert!(p.timer_pending);
    assert_eq!(effects, vec![Effect::Subscribe, Effect::RequestPermission, Effect::SetTimeout]);
}

#[test]
fn load_reads_configured_lengths() {
    let (p, _) = loaded(Some("60"), Some("+5"), 0);
    assert_eq!(p.work_duration, 60);
    assert_eq!(p.break_duration, 5);
    let (p, _) = loaded(Some(" 60"), Some("five"), 0);
    assert_eq!(p.work_duration, DEFAULT_WORK_SECS);
    assert_eq!(p.break_duration, DEFAULT_BREAK_SECS);
}

#[test]
fn configured_length_matches_str_parse() {
    for s in ["0", "12", "+3", "-3", "", "x", "18446744073709551616"] {
        assert_eq!(configured_length(Some(s), 9), s.parse::<usize>().unwrap_or(9));
    }
    assert_eq!(configured_length(None, 9), 9);
}

#[test]
fn permission_granted_hides_only_during_work() {
    let (mut p, _) = loaded(None, None, 0);
    assert_eq!(step(&mut p, PluginEvent::PermissionGranted), (true, vec![Effect::HideSelf]));
    p.phase = Phase::Break;
    assert_eq!(step(&mut p, PluginEvent::PermissionGranted), (true, vec![]));
}

#[test]
fn timer_ticks_and_rearms_once() {
    let (mut p, _) = loaded(Some("10"), Some("3"), 0);
    let (render, effects) = step(&mut p, PluginEvent::Timer { now: 1_000 });
    assert!(render);
    assert_eq!(effects, vec![Effect::SetTimeout]);
    assert_eq!(p.countdown.seconds_remaining, 9);
    assert_eq!(p.spin_idx, 1);
    assert!(p.timer_pending);
    // A key that restarts the countdown while a timer is pending asks for no second timer.
    p.countdown.pause();
    let (_, effects) = step(&mut p, PluginEvent::Key { key: Some(' '), now: 2_000 });
    assert_eq!(effects, vec![]);
    assert!(p.countdown.running);
}

#[test]
fn duplicate_timer_event_does_not_speed_up() {
    let (mut p, _) = loaded(Some("10"), None, 0);
    step(&mut p, PluginEvent::Timer { now: 1_000 });
    step(&mut p, PluginEvent::Timer { now: 1_000 });
    assert_eq!(p.countdown.seconds_remaining, 9);
}

#[test]
fn work_ends_in_break_and_break_in_work() {
    let (mut p, _) = loaded(Some("2"), Some("3"), 0);
    p.spin_idx = 7;
    let (_, effects) = step(&mut p, PluginEvent::Timer { now: 2_000 });
    assert_eq!(
        effects,
        vec![Effect::ShowSelf { should_float_if_hidden: true }, Effect::SetTimeout]
    );
    assert_eq!(p.phase, Phase::Break);
    assert_eq!(p.spin_idx, 0);
    assert_eq!(p.countdown.seconds_remaining, 3);
    assert_eq!(p.countdown.deadline, 5_000);
    let (_, effects) = step(&mut p, PluginEvent::Timer { now: 5_100 });
    assert_eq!(effects, vec![Effect::HideSelf, Effect::SetTimeout]);
    assert_eq!(p.phase, Phase::Work);
    assert_eq!(p.countdown.seconds_remaining, 2);
    assert_eq!(p.countdown.deadline, 7_100);
}

#[test]
fn timer_when_stopped_only_clears_pending() {
    let (mut p, _) = loaded(None, None, 0);
    p.countdown.pause();
    let (render, effects) = step(&mut p, PluginEvent::Timer { now: 9_000 });
    assert!(render);
    assert!(effects.is_empty());
    assert!(!p.timer_pending);
    assert_eq!(p.spin_idx, 0);
}

#[test]
fn keys_during_work() {
    let (mut p, _) = loaded(Some("100"), None, 0);
    step(&mut p, PluginEvent::Timer { now: 4_000 });
    assert_eq!(step(&mut p, PluginEvent::Key { key: Some(' '), now: 4_500 }), (true, vec![]));
    assert!(!p.countdown.running);
    assert_eq!(p.countdown.seconds_remaining, 96);
    // The timer fires while paused: nothing is re-armed.
    step(&mut p, PluginEvent::Timer { now: 5_000 });
    assert!(!p.timer_pending);
    // Resuming re-anchors the deadline and arms a timer again.
    let (_, effects) = step(&mut p, PluginEvent::Key { key: Some(' '), now: 50_000 });
    assert_eq!(effects, vec![Effect::SetTimeout]);
    assert_eq!(p.countdown.deadline, 50_000 + 96_000);
    assert_eq!(step(&mut p, PluginEvent::Key { key: Some('h'), now: 0 }), (true, vec![Effect::HideSelf]));
    assert_eq!(step(&mut p, PluginEvent::Key { key: Some('r'), now: 0 }), (true, vec![]));
    assert!(!p.countdown.running);
    assert_eq!(p.countdown.seconds_remaining, 100);
    assert_eq!(step(&mut p, PluginEvent::Key { key: Some('x'), now: 0 }), (false, vec![]));
    assert_eq!(step(&mut p, PluginEvent::Key { key: None, now: 0 }), (false, vec![]));
}

#[test]
fn keys_during_break_are_ignored() {
    let (mut p, _) = loaded(None, None, 0);
    p.phase = Phase::Break;
    assert_eq!(step(&mut p, PluginEvent::Key { key: Some(' '), now: 1 }), (false, vec![]));
    assert!(p.countdown.running);
}

#[test]
fn reset_key_after_finish_returns_to_work() {
    let (mut p, _) = loaded(Some("50"), None, 0);
    let mut effects = Vec::new();
    assert!(p.pipe("pomo", Some("stop"), 0, &mut effects));
    assert_eq!(p.phase, Phase::Finished);
    assert_eq!(step(&mut p, PluginEvent::Key { key: Some(' '), now: 0 }), (false, vec![]));
    assert_eq!(step(&mut p, PluginEvent::Key { key: Some('r'), now: 0 }), (true, vec![]));
    assert_eq!(p.phase, Phase::Work);
    assert_eq!(p.countdown.seconds_remaining, 50);
    assert!(!p.countdown.running);
}

#[test]
fn other_events_do_nothing() {
    let (mut p, _) = loaded(None, None, 0);
    assert_eq!(step(&mut p, PluginEvent::Other), (false, vec![]));
}

#[test]
fn pipe_start_overrides_and_restarts_work() {
    let (mut p, _) = loaded(None, None, 0);
    p.phase = Phase::Finished;
    let mut effects = Vec::new();
    assert!(p.pipe("pomo", Some("start 60 10"), 7_000, &mut effects));
    assert_eq!(effects, vec![]);
    assert_eq!(p.work_duration, 60);
    assert_eq!(p.break_duration, 10);
    assert_eq!(p.phase, Phase::Work);
    assert_eq!(p.countdown.seconds_remaining, 60);
    assert_eq!(p.countdown.deadline, 67_000);
    assert!(p.pipe("pomo", Some("start x"), 8_000, &mut effects));
    assert_eq!(p.work_duration, 60);
    assert_eq!(p.break_duration, 10);
}

#[test]
fn pipe_start_arms_a_timer_when_none_is_pending() {
    let mut p = Pomo::default();
    let mut effects = Vec::new();
    assert!(p.pipe("pomo", Some("start 5"), 0, &mut effects));
    assert_eq!(effects, vec![Effect::SetTimeout]);
    assert!(p.timer_pending);
}

#[test]
fn pipe_hide_show_and_garbage() {
    let (mut p, _) = loaded(None, None, 0);
    let mut effects = Vec::new();
    assert!(p.pipe("pomo", Some("hide"), 0, &mut effects));
    assert!(p.pipe("pomo", Some("show"), 0, &mut effects));
    assert!(p.pipe("pomo", Some("banana"), 0, &mut effects));
    assert!(p.pipe("pomo", None, 0, &mut effects));
    assert_eq!(effects, vec![Effect::HideSelf, Effect::ShowSelf { should_float_if_hidden: false }]);
    assert!(!p.pipe("other", Some("stop"), 0, &mut effects));
    assert_eq!(p.phase, Phase::Work);
}

#[test]
fn spinner_index_stays_in_frames() {
    let (mut p, _) = loaded(Some("3"), Some("2"), 0);
    for t in 1..40u64 {
        step(&mut p, PluginEvent::Timer { now: t * 500 });
        assert!(p.spin_idx < pomo::plugin::SPINNER_FRAMES);
    }
}

#[test]
fn finished_screen_has_no_running_countdown() {
    let (mut p, _) = loaded(Some("3"), None, 0);
    let mut effects = Vec::new();
    p.pipe("pomo", Some("stop"), 100, &mut effects);
    assert_eq!(p.phase, Phase::Finished);
    assert!(!p.countdown.running);
    step(&mut p, PluginEvent::Timer { now: 10_000 });
    step(&mut p, PluginEvent::Key { key: Some(' '), now: 10_000 });
    step(&mut p, PluginEvent::PermissionGranted);
    assert_eq!(p.phase, Phase::Finished);
    assert!(!p.countdown.running);
}
