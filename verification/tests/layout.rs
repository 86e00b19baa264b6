use pomo::layout::{
    bar_item, clock_item, compact_break_item, done_item, spinner_item, title_item, work_item,
    ColorRange, DIGIT_PATTERNS, SPINNER,
};
use pomo::plugin::Pomo;
use pomo::timer::Phase;

fn work_line_as_formatted(seconds: usize, running: bool, cols: usize) -> String {
    let mins = seconds / 60;
    let secs = seconds % 60;
    let icon = if running { "🍅" } else { "⏸" };
    let time = format!("{icon} {mins:02}:{secs:02}");
    let help = "SPC:start/pause r:reset";
    let padding = cols.saturating_sub(time.len() + help.len() + 1);
    format!("{time}{:>width$}", help, width = padding + help.len())
}

#[test]
fn work_line_matches_formatting() {
    for &(seconds, running, cols) in &[
        (1500, true, 80),
        (0, false, 10),
        (61, true, 40),
        (6000, false, 33),
        (359999, true, 120),
    ] {
        let item = work_item(seconds, running, cols);
        assert_eq!(item.text, work_line_as_formatted(seconds, running, cols));
        let time_len = if running { 4 } else { 3 } + 1 + format!("{:02}:{:02}", seconds / 60, seconds % 60).len();
        assert_eq!(item.color, Some(ColorRange { index_level: 0, start: 0, end: time_len }));
        assert_eq!((item.x, item.y, item.width, item.height), (1, 0, Some(cols.saturating_sub(1)), None));
    }
}

#[test]
fn work_line_exact() {
    let item = work_item(1500, true, 40);
    assert_eq!(item.text, "🍅 25:00      SPC:start/pause r:reset");
}

#[test]
fn done_line_exact() {
    let item = done_item(30);
    assert_eq!(item.text, "✅ Done!       r:new session");
    assert_eq!(item.color, None);
    assert_eq!(item.width, Some(29));
    assert_eq!(done_item(0).text, "✅ Done!r:new session");
}

#[test]
fn compact_break_line_exact() {
    let item = compact_break_item(299, 15);
    assert_eq!(item.text, "🍩 BREAK 04:59");
    assert_eq!(item.color, Some(ColorRange { index_level: 0, start: 0, end: "🍩 BREAK 04:59".len() }));
    assert_eq!((item.x, item.y, item.width), (0, 0, Some(15)));
}

#[test]
fn title_is_centered() {
    let item = title_item(24, 80);
    assert_eq!(item.text, "🍩 BREAK TIME");
    assert_eq!((item.x, item.y), ((80 - 15) / 2, 6));
    assert_eq!(item.color, Some(ColorRange { index_level: 0, start: 0, end: 15 }));
}

fn big_row_as_built(seconds: usize, row: usize) -> String {
    let mins = seconds / 60;
    let secs = seconds % 60;
    let digits = [mins / 10, mins % 10, 10, secs / 10, secs % 10];
    let mut line = String::new();
    for (i, &d) in digits.iter().enumerate() {
        if i > 0 {
            line.push(' ');
        }
        for ch in DIGIT_PATTERNS[d][row] {
            line.push(if ch == '1' { '⣿' } else { ' ' });
        }
    }
    line
}

#[test]
fn clock_rows_spell_the_time() {
    let item = clock_item(754, 0, 24, 80);
    assert_eq!(item.text, " ⣿  ⣿⣿⣿     ⣿⣿⣿ ⣿ ⣿");
    assert_eq!((item.x, item.y), (30, 10));
    for row in 0..5 {
        assert_eq!(clock_item(754, row, 24, 80).text, big_row_as_built(754, row));
        assert_eq!(clock_item(6599, row, 7, 10).y, 1 + row);
    }
}

#[test]
fn bar_fills_the_share() {
    let item = bar_item(300, 3, 24, 10);
    assert_eq!(item.text, "━━━───");
    assert_eq!(item.color, Some(ColorRange { index_level: 0, start: 0, end: 3 }));
    assert_eq!((item.x, item.y), (2, 16));
    assert_eq!(bar_item(300, 99, 24, 10).text, "━━━━━━");
    assert_eq!(bar_item(0, 0, 24, 8).text, "━━━━");
    assert_eq!(bar_item(0, 0, 24, 3).text, "");
}

#[test]
fn spinner_cycles_through_frames() {
    let item = spinner_item(13, 24, 80);
    assert_eq!(item.text, SPINNER[3].to_string());
    assert_eq!(item.color, Some(ColorRange { index_level: 1, start: 0, end: 1 }));
    assert_eq!((item.x, item.y), (40, 18));
}

#[test]
fn render_by_phase() {
    let mut p = Pomo::default();
    p.countdown.seconds_remaining = 90;
    let items = p.render(24, 80, 0);
    assert_eq!(items.len(), 1);
    assert!(items[0].text.starts_with("⏸ 01:30"));
    p.phase = Phase::Finished;
    assert!(p.render(24, 80, 0)[0].text.starts_with("✅ Done!"));
    p.phase = Phase::Break;
    p.break_duration = 300;
    let items = p.render(24, 80, 53);
    assert_eq!(items.len(), 8);
    assert_eq!(items[0].text, "🍩 BREAK TIME");
    assert_eq!(items[6].color, Some(ColorRange { index_level: 0, start: 0, end: 53 }));
    let items = p.render(2, 80, 0);
    assert_eq!(items.len(), 1);
    assert_eq!(items[0].text, "🍩 BREAK 01:30");
}

#[test]
fn bar_inputs_for_the_break() {
    let mut p = Pomo::default();
    p.break_duration = 300;
    p.countdown.seconds_remaining = 120;
    assert_eq!(p.bar_inputs(50), (180, 300, 46));
    p.countdown.seconds_remaining = 400;
    assert_eq!(p.bar_inputs(2), (0, 300, 0));
}
