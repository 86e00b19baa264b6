use pomo::command::{is_white_space, parse_usize, split_words, PipeCommand};

#[test]
fn parse_start_with_and_without_overrides() {
    assert_eq!(
        PipeCommand::parse("start"),
        Some(PipeCommand::Start { work: None, brk: None })
    );
    assert_eq!(
        PipeCommand::parse("start 1500 300"),
        Some(PipeCommand::Start { work: Some(1500), brk: Some(300) })
    );
    assert_eq!(
        PipeCommand::parse("  start 10  "),
        Some(PipeCommand::Start { work: Some(10), brk: None })
    );
    assert_eq!(
        PipeCommand::parse("start abc 5"),
        Some(PipeCommand::Start { work: None, brk: Some(5) })
    );
}

#[test]
fn parse_simple_commands_and_garbage() {
    assert_eq!(PipeCommand::parse("stop"), Some(PipeCommand::Stop));
    assert_eq!(PipeCommand::parse("hide"), Some(PipeCommand::Hide));
    assert_eq!(PipeCommand::parse("show"), Some(PipeCommand::Show));
    assert_eq!(PipeCommand::parse("banana"), None);
    assert_eq!(PipeCommand::parse(""), None);
}

#[test]
fn parse_ignores_extra_words_and_any_white_space() {
    assert_eq!(
        PipeCommand::parse("\tstart\n60\u{3000}30 extra words"),
        Some(PipeCommand::Start { work: Some(60), brk: Some(30) })
    );
    assert_eq!(PipeCommand::parse("stop now"), Some(PipeCommand::Stop));
    assert_eq!(PipeCommand::parse("   \n\t "), None);
    assert_eq!(PipeCommand::parse("Stop"), None);
    assert_eq!(PipeCommand::parse("starts"), None);
}

#[test]
fn parse_start_numbers_like_str_parse() {
    assert_eq!(
        PipeCommand::parse("start +25 -5"),
        Some(PipeCommand::Start { work: Some(25), brk: None })
    );
    assert_eq!(
        PipeCommand::parse("start 99999999999999999999999 007"),
        Some(PipeCommand::Start { work: None, brk: Some(7) })
    );
}

#[test]
fn white_space_matches_std() {
    for u in 0u32..=0x10FFFF {
        if let Some(c) = char::from_u32(u) {
            assert_eq!(is_white_space(c), c.is_whitespace(), "U+{:04X}", u);
        }
    }
}

#[test]
fn split_words_matches_split_whitespace() {
    let samples = [
        "",
        " ",
        "a",
        "  a  b\t\tc\n",
        "start 1500 300",
        "\u{85}x\u{a0}y\u{2028}z",
        "é ü\u{1F345} ok",
    ];
    for s in samples {
        let expected: Vec<Vec<char>> = s.split_whitespace().map(|w| w.chars().collect()).collect();
        assert_eq!(split_words(s), expected, "{:?}", s);
    }
}

#[test]
fn parse_usize_matches_str_parse() {
    let samples = [
        "0", "7", "42", "+42", "007", "", "+", "-", "-1", "++1", "+-1", "1_000", "12a", " 1",
        "18446744073709551615", "18446744073709551616", "99999999999999999999", "٣",
        "4294967295", "4294967296",
    ];
    for s in samples {
        let chars: Vec<char> = s.chars().collect();
        assert_eq!(parse_usize(&chars), s.parse::<usize>().ok(), "{:?}", s);
    }
}

#[test]
fn surrounding_white_space_changes_nothing() {
    for core in ["stop", "start 5 6", "banana", "show x"] {
        let padded = format!(" \u{2003}\t{core}\n\u{a0}");
        assert_eq!(PipeCommand::parse(&padded), PipeCommand::parse(core));
    }
}
