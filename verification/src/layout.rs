use vstd::prelude::*;
use crate::plugin::{Pomo, SPINNER_FRAMES};
use crate::text::{
    byte_len, lemma_decimal_len, lemma_spaces_utf8_len, lemma_utf8_len_concat,
    lemma_utf8_len_is_encoded_len, push_char, push_spaces, push_two_digits, spaces, two_digits,
    utf8_len,
};
use crate::timer::Phase;

verus! {

/// Shown while the work countdown runs.
pub const TOMATO: char = '\u{1F345}';

/// Shown while the work countdown is paused.
pub const PAUSED: char = '\u{23F8}';

/// A lit cell of the big clock.
pub const FULL_CELL: char = '\u{28FF}';

/// The elapsed part of the progress bar.
pub const BAR_DONE: char = '\u{2501}';

/// The part of the progress bar still to go.
pub const BAR_LEFT: char = '\u{2500}';

/// Columns taken by the big clock: five glyphs of three cells and four gaps.
pub const BIG_CLOCK_WIDTH: usize = 19;

/// The frames of the break spinner.
pub const SPINNER: [char; 10] = [
    '\u{280B}',
    '\u{2819}',
    '\u{2839}',
    '\u{2838}',
    '\u{283C}',
    '\u{2834}',
    '\u{2826}',
    '\u{2827}',
    '\u{2807}',
    '\u{280F}',
];

/// The big clock's glyphs, five rows of three cells each: the digits 0 to 9,
/// then the colon; `'1'` marks a lit cell.
pub const DIGIT_PATTERNS: [[[char; 3]; 5]; 11] = [
    [['1', '1', '1'], ['1', '0', '1'], ['1', '0', '1'], ['1', '0', '1'], ['1', '1', '1']],
    [['0', '1', '0'], ['1', '1', '0'], ['0', '1', '0'], ['0', '1', '0'], ['0', '1', '0']],
    [['1', '1', '1'], ['0', '0', '1'], ['1', '1', '1'], ['1', '0', '0'], ['1', '1', '1']],
    [['1', '1', '1'], ['0', '0', '1'], ['1', '1', '1'], ['0', '0', '1'], ['1', '1', '1']],
    [['1', '0', '1'], ['1', '0', '1'], ['1', '1', '1'], ['0', '0', '1'], ['0', '0', '1']],
    [['1', '1', '1'], ['1', '0', '0'], ['1', '1', '1'], ['0', '0', '1'], ['1', '1', '1']],
    [['1', '1', '1'], ['1', '0', '0'], ['1', '1', '1'], ['1', '0', '1'], ['1', '1', '1']],
    [['1', '1', '1'], ['0', '0', '1'], ['0', '0', '1'], ['0', '0', '1'], ['0', '0', '1']],
    [['1', '1', '1'], ['1', '0', '1'], ['1', '1', '1'], ['1', '0', '1'], ['1', '1', '1']],
    [['1', '1', '1'], ['1', '0', '1'], ['1', '1', '1'], ['0', '0', '1'], ['1', '1', '1']],
    [['0', '0', '0'], ['0', '1', '0'], ['0', '0', '0'], ['0', '1', '0'], ['0', '0', '0']],
];

/// Characters `start..end` of a text drawn in the color of `index_level`.
#[derive(Debug, PartialEq, Eq, Structural, Clone, Copy)]
pub struct ColorRange {
    pub index_level: usize,
    pub start: usize,
    pub end: usize,
}

/// A text to draw at column `x`, row `y`, within an optional width and height.
#[derive(Debug)]
pub struct TextItem {
    pub text: String,
    pub color: Option<ColorRange>,
    pub x: usize,
    pub y: usize,
    pub width: Option<usize>,
    pub height: Option<usize>,
}

/// What a [`TextItem`] draws, with its text as characters.
pub struct Placed {
    pub text: Seq<char>,
    pub color: Option<ColorRange>,
    pub x: usize,
    pub y: usize,
    pub width: Option<usize>,
    pub height: Option<usize>,
}

impl View for TextItem {
    type V = Placed;

    open spec fn view(&self) -> Placed {
        Placed {
            text: self.text@,
            color: self.color,
            x: self.x,
            y: self.y,
            width: self.width,
            height: self.height,
        }
    }
}

/// What the items draw, in order.
pub open spec fn drawn(items: Seq<TextItem>) -> Seq<Placed> {
    items.map_values(|t: TextItem| t@)
}

/// `a - b`, or zero when `b` is larger: `usize::saturating_sub`.
pub open spec fn sat_sub(a: int, b: int) -> int {
    if a > b {
        a - b
    } else {
        0
    }
}

/// `MM:SS` for a number of seconds, each part zero-padded to two digits.
pub open spec fn minutes_seconds(seconds: nat) -> Seq<char> {
    two_digits(seconds / 60) + seq![':'] + two_digits(seconds % 60)
}

/// The key help on the work line.
pub open spec fn work_help() -> Seq<char> {
    "SPC:start/pause r:reset"@
}

/// The message of the end screen.
pub open spec fn done_message() -> Seq<char> {
    "\u{2705} Done!"@
}

/// The key help on the end screen.
pub open spec fn done_help() -> Seq<char> {
    "r:new session"@
}

/// The title of the break overlay.
pub open spec fn break_title() -> Seq<char> {
    "\u{1F369} BREAK TIME"@
}

/// The start of the one-line break view.
pub open spec fn break_label() -> Seq<char> {
    "\u{1F369} BREAK "@
}

/// `left`, then `right` pushed to the end of a line of `cols` bytes, with at
/// least one space between them.
pub open spec fn spread(left: Seq<char>, right: Seq<char>, cols: usize) -> Seq<char> {
    left + spaces(sat_sub(cols as int, (utf8_len(left) + utf8_len(right) + 1) as int) as nat) + right
}

/// The work line: icon, `MM:SS`, and the key help at the right end; the
/// clock part is colored.
pub open spec fn work_line(seconds: usize, running: bool, cols: usize) -> Placed {
    let time = seq![if running { TOMATO } else { PAUSED }, ' '] + minutes_seconds(seconds as nat);
    Placed {
        text: spread(time, work_help(), cols),
        color: Some(ColorRange { index_level: 0, start: 0, end: utf8_len(time) as usize }),
        x: 1,
        y: 0,
        width: Some(sat_sub(cols as int, 1) as usize),
        height: None,
    }
}

/// The end screen's line: the message and, at the right end, the key help.
pub open spec fn done_line(cols: usize) -> Placed {
    Placed {
        text: spread(done_message(), done_help(), cols),
        color: None,
        x: 1,
        y: 0,
        width: Some(sat_sub(cols as int, 1) as usize),
        height: None,
    }
}

/// The break view on a screen too small for the overlay: one colored line.
pub open spec fn compact_break_line(seconds: usize, cols: usize) -> Placed {
    let line = break_label() + minutes_seconds(seconds as nat);
    Placed {
        text: line,
        color: Some(ColorRange { index_level: 0, start: 0, end: utf8_len(line) as usize }),
        x: 0,
        y: 0,
        width: Some(cols),
        height: None,
    }
}

/// The overlay's title, centered, six rows above the middle.
pub open spec fn title_line(rows: usize, cols: usize) -> Placed {
    let width = utf8_len(break_title());
    Placed {
        text: break_title(),
        color: Some(ColorRange { index_level: 0, start: 0, end: width as usize }),
        x: (sat_sub(cols as int, width as int) / 2) as usize,
        y: sat_sub(rows as int / 2, 6) as usize,
        width: None,
        height: None,
    }
}

/// A glyph cell: lit for `'1'`, blank otherwise.
pub open spec fn cell(mark: char) -> char {
    if mark == '1' {
        FULL_CELL
    } else {
        ' '
    }
}

/// Row `row` of glyph `d` of the big clock.
pub open spec fn glyph_row(d: int, row: int) -> Seq<char> {
    let marks = DIGIT_PATTERNS[d][row];
    seq![cell(marks[0]), cell(marks[1]), cell(marks[2])]
}

/// The glyphs of the big clock for a number of seconds: the two minute
/// digits, the colon, and the two second digits.
pub open spec fn clock_glyphs(seconds: nat) -> Seq<int> {
    let m = seconds / 60;
    let s = seconds % 60;
    seq![(m / 10) as int, (m % 10) as int, 10, (s / 10) as int, (s % 10) as int]
}

/// Row `row` of the first `k` glyphs of `glyphs`, separated by single spaces.
pub open spec fn joined_row(glyphs: Seq<int>, row: int, k: int) -> Seq<char>
    decreases k,
{
    if k <= 0 {
        seq![]
    } else if k == 1 {
        glyph_row(glyphs[0], row)
    } else {
        joined_row(glyphs, row, k - 1) + seq![' '] + glyph_row(glyphs[k - 1], row)
    }
}

/// Row `row` of the big clock, centered, two rows above the middle and down.
pub open spec fn clock_line(seconds: usize, row: int, rows: usize, cols: usize) -> Placed {
    Placed {
        text: joined_row(clock_glyphs(seconds as nat), row, 5),
        color: None,
        x: (sat_sub(cols as int, BIG_CLOCK_WIDTH as int) / 2) as usize,
        y: (sat_sub(rows as int / 2, 2) + row) as usize,
        width: None,
        height: None,
    }
}

/// How many cells of a bar `width` wide are filled: the caller's rounded
/// share when there is a break length, the whole bar otherwise, never more
/// than the bar.
pub open spec fn bar_filled(total: usize, share: usize, width: int) -> int {
    let filled = if total > 0 {
        share as int
    } else {
        width
    };
    if filled < width {
        filled
    } else {
        width
    }
}

/// The progress bar, four columns narrower than the screen, four rows below
/// the middle, its filled part colored.
pub open spec fn bar_line(total: usize, share: usize, rows: usize, cols: usize) -> Placed {
    let width = sat_sub(cols as int, 4);
    let filled = bar_filled(total, share, width);
    Placed {
        text: Seq::new(
            width as nat,
            |i: int|
                if i < filled {
                    BAR_DONE
                } else {
                    BAR_LEFT
                },
        ),
        color: Some(ColorRange { index_level: 0, start: 0, end: filled as usize }),
        x: 2,
        y: (rows / 2 + 4) as usize,
        width: None,
        height: None,
    }
}

/// The spinner frame for `spin_idx`, centered six rows below the middle.
pub open spec fn spinner_line(spin_idx: usize, rows: usize, cols: usize) -> Placed {
    Placed {
        text: seq![SPINNER[spin_idx as int % 10]],
        color: Some(ColorRange { index_level: 1, start: 0, end: 1 }),
        x: cols / 2,
        y: (rows / 2 + 6) as usize,
        width: None,
        height: None,
    }
}

/// `two_digits(n)` has at most `n + 2` characters.
proof fn lemma_two_digits_len(n: nat)
    ensures
        two_digits(n).len() <= n + 2,
{
    lemma_decimal_len(n);
}

/// Appends `MM:SS` for `seconds`.
fn push_minutes_seconds(s: &mut String, seconds: usize)
    ensures
        final(s)@ == old(s)@ + minutes_seconds(seconds as nat),
        minutes_seconds(seconds as nat).len() <= seconds / 60 + 64,
{
    push_two_digits(s, seconds / 60);
    push_char(s, ':');
    push_two_digits(s, seconds % 60);
    proof {
        lemma_two_digits_len((seconds / 60) as nat);
        lemma_two_digits_len((seconds % 60) as nat);
    }
    assert(final(s)@ =~= old(s)@ + minutes_seconds(seconds as nat));
}

/// `left`, spaces, then `right`, as [`spread`] lays them out, and the byte
/// length of `left`.
fn spread_text(left: String, right: &str, cols: usize) -> (r: (String, usize))
    requires
        left@.len() <= usize::MAX / 16,
        right@.len() <= usize::MAX / 16,
    ensures
        r.0@ == spread(left@, right@, cols),
        r.1 == utf8_len(left@),
{
    proof {
        lemma_utf8_len_is_encoded_len(left@);
        lemma_utf8_len_is_encoded_len(right@);
    }
    let left_len = byte_len(left.as_str());
    let right_len = byte_len(right);
    let padding = cols.saturating_sub(left_len + right_len + 1);
    let mut line = left;
    push_spaces(&mut line, padding);
    line.append(right);
    (line, left_len)
}

/// The work line for `seconds` left.
pub fn work_item(seconds: usize, running: bool, cols: usize) -> (item: TextItem)
    ensures
        item@ == work_line(seconds, running, cols),
{
    let mut time = String::new();
    push_char(&mut time, if running { TOMATO } else { PAUSED });
    push_char(&mut time, ' ');
    push_minutes_seconds(&mut time, seconds);
    assert(time@ =~= seq![if running { TOMATO } else { PAUSED }, ' '] + minutes_seconds(
        seconds as nat,
    ));
    let help = "SPC:start/pause r:reset";
    proof {
        reveal_strlit("SPC:start/pause r:reset");
    }
    let (text, time_len) = spread_text(time, help, cols);
    TextItem {
        text,
        color: Some(ColorRange { index_level: 0, start: 0, end: time_len }),
        x: 1,
        y: 0,
        width: Some(cols.saturating_sub(1)),
        height: None,
    }
}

/// The end screen's line.
pub fn done_item(cols: usize) -> (item: TextItem)
    ensures
        item@ == done_line(cols),
{
    let message = "\u{2705} Done!";
    let help = "r:new session";
    proof {
        reveal_strlit("\u{2705} Done!");
        reveal_strlit("r:new session");
    }
    let mut left = String::new();
    left.append(message);
    let (text, _) = spread_text(left, help, cols);
    TextItem {
        text,
        color: None,
        x: 1,
        y: 0,
        width: Some(cols.saturating_sub(1)),
        height: None,
    }
}

/// The one-line break view.
pub fn compact_break_item(seconds: usize, cols: usize) -> (item: TextItem)
    ensures
        item@ == compact_break_line(seconds, cols),
{
    let mut line = String::new();
    line.append("\u{1F369} BREAK ");
    proof {
        reveal_strlit("\u{1F369} BREAK ");
    }
    push_minutes_seconds(&mut line, seconds);
    proof {
        lemma_utf8_len_is_encoded_len(line@);
    }
    let len = byte_len(line.as_str());
    TextItem {
        text: line,
        color: Some(ColorRange { index_level: 0, start: 0, end: len }),
        x: 0,
        y: 0,
        width: Some(cols),
        height: None,
    }
}

/// The overlay's title.
pub fn title_item(rows: usize, cols: usize) -> (item: TextItem)
    ensures
        item@ == title_line(rows, cols),
{
    let title = "\u{1F369} BREAK TIME";
    proof {
        reveal_strlit("\u{1F369} BREAK TIME");
        lemma_utf8_len_is_encoded_len(title@);
    }
    let width = byte_len(title);
    let mut text = String::new();
    text.append(title);
    TextItem {
        text,
        color: Some(ColorRange { index_level: 0, start: 0, end: width }),
        x: cols.saturating_sub(width) / 2,
        y: (rows / 2).saturating_sub(6),
        width: None,
        height: None,
    }
}

/// The glyph cell for a pattern mark.
fn cell_char(mark: char) -> (c: char)
    ensures
        c == cell(mark),
{
    if mark == '1' {
        FULL_CELL
    } else {
        ' '
    }
}

/// Appends row `row` of glyph `d`.
fn push_glyph_row(s: &mut String, d: usize, row: usize)
    requires
        d <= 10,
        row < 5,
    ensures
        final(s)@ == old(s)@ + glyph_row(d as int, row as int),
{
    let marks = DIGIT_PATTERNS[d][row];
    push_char(s, cell_char(marks[0]));
    push_char(s, cell_char(marks[1]));
    push_char(s, cell_char(marks[2]));
    assert(final(s)@ =~= old(s)@ + glyph_row(d as int, row as int));
}

/// Row `row` of the big clock for `seconds` left.
pub fn clock_item(seconds: usize, row: usize, rows: usize, cols: usize) -> (item: TextItem)
    requires
        row < 5,
        seconds < 6600,
    ensures
        item@ == clock_line(seconds, row as int, rows, cols),
{
    let m = seconds / 60;
    let s = seconds % 60;
    let glyphs: [usize; 5] = [m / 10, m % 10, 10, s / 10, s % 10];
    let ghost want = clock_glyphs(seconds as nat);
    assert(forall|k: int| 0 <= k < 5 ==> glyphs@[k] as int == want[k] && glyphs@[k] <= 10);
    let mut line = String::new();
    let mut i: usize = 0;
    while i < 5
        invariant
            i <= 5,
            row < 5,
            want == clock_glyphs(seconds as nat),
            forall|k: int| 0 <= k < 5 ==> glyphs@[k] as int == want[k] && glyphs@[k] <= 10,
            line@ == joined_row(want, row as int, i as int),
        decreases 5 - i,
    {
        if i > 0 {
            push_char(&mut line, ' ');
        }
        push_glyph_row(&mut line, glyphs[i], row);
        i = i + 1;
        assert(line@ =~= joined_row(want, row as int, i as int));
    }
    TextItem {
        text: line,
        color: None,
        x: cols.saturating_sub(BIG_CLOCK_WIDTH) / 2,
        y: (rows / 2).saturating_sub(2) + row,
        width: None,
        height: None,
    }
}

/// The progress bar for a break of `total` seconds, given the caller's
/// rounded share of it that has elapsed.
pub fn bar_item(total: usize, share: usize, rows: usize, cols: usize) -> (item: TextItem)
    ensures
        item@ == bar_line(total, share, rows, cols),
{
    let width = cols.saturating_sub(4);
    let filled = if total > 0 {
        share
    } else {
        width
    };
    let filled = if filled < width {
        filled
    } else {
        width
    };
    let ghost want = bar_line(total, share, rows, cols).text;
    let mut bar = String::new();
    let mut i: usize = 0;
    while i < width
        invariant
            i <= width,
            width == sat_sub(cols as int, 4),
            filled == bar_filled(total, share, width as int),
            want == bar_line(total, share, rows, cols).text,
            bar@ == want.take(i as int),
        decreases width - i,
    {
        push_char(
            &mut bar,
            if i < filled {
                BAR_DONE
            } else {
                BAR_LEFT
            },
        );
        i = i + 1;
        assert(bar@ =~= want.take(i as int));
    }
    assert(want.take(width as int) =~= want);
    TextItem {
        text: bar,
        color: Some(ColorRange { index_level: 0, start: 0, end: filled }),
        x: 2,
        y: rows / 2 + 4,
        width: None,
        height: None,
    }
}

/// The spinner frame for `spin_idx`.
pub fn spinner_item(spin_idx: usize, rows: usize, cols: usize) -> (item: TextItem)
    ensures
        item@ == spinner_line(spin_idx, rows, cols),
{
    let mut text = String::new();
    push_char(&mut text, SPINNER[spin_idx % SPINNER_FRAMES]);
    assert(text@ =~= seq![SPINNER[spin_idx as int % 10]]);
    TextItem {
        text,
        color: Some(ColorRange { index_level: 1, start: 0, end: 1 }),
        x: cols / 2,
        y: rows / 2 + 6,
        width: None,
        height: None,
    }
}

impl Pomo {
    /// What the plugin draws on a screen of `rows` by `cols`, where `share` is
    /// the caller's rounding of the elapsed fraction of the break times the bar width.
    pub open spec fn screen(self, rows: usize, cols: usize, share: usize) -> Seq<Placed> {
        let seconds = self.countdown.seconds_remaining;
        match self.phase {
            Phase::Work => seq![work_line(seconds, self.countdown.running, cols)],
            Phase::Finished => seq![done_line(cols)],
            Phase::Break => if rows < 3 || cols < 20 {
                seq![compact_break_line(seconds, cols)]
            } else {
                seq![
                    title_line(rows, cols),
                    clock_line(seconds, 0, rows, cols),
                    clock_line(seconds, 1, rows, cols),
                    clock_line(seconds, 2, rows, cols),
                    clock_line(seconds, 3, rows, cols),
                    clock_line(seconds, 4, rows, cols),
                    bar_line(self.break_duration, share, rows, cols),
                    spinner_line(self.spin_idx, rows, cols),
                ]
            },
        }
    }

    /// The numbers the progress bar is drawn from on a screen `cols` wide:
    /// the elapsed seconds of the break, its length, and the bar's width.
    pub fn bar_inputs(&self, cols: usize) -> (r: (usize, usize, usize))
        ensures
            r.0 == sat_sub(self.break_duration as int, self.countdown.seconds_remaining as int),
            r.1 == self.break_duration,
            r.2 == sat_sub(cols as int, 4),
    {
        (
            self.break_duration.saturating_sub(self.countdown.seconds_remaining),
            self.break_duration,
            cols.saturating_sub(4),
        )
    }

    /// What to draw on a screen of `rows` by `cols`; `share` is the caller's
    /// rounding of (elapsed / break length) times the bar width.
    pub fn render(&self, rows: usize, cols: usize, share: usize) -> (items: Vec<TextItem>)
        requires
            self.phase == Phase::Break && rows >= 3 && cols >= 20
                ==> self.countdown.seconds_remaining < 6600,
        ensures
            drawn(items@) == self.screen(rows, cols, share),
    {
        let seconds = self.countdown.seconds_remaining;
        let mut items: Vec<TextItem> = Vec::new();
        match self.phase {
            Phase::Work => {
                items.push(work_item(seconds, self.countdown.running, cols));
            },
            Phase::Finished => {
                items.push(done_item(cols));
            },
            Phase::Break => {
                if rows < 3 || cols < 20 {
                    items.push(compact_break_item(seconds, cols));
                } else {
                    items.push(title_item(rows, cols));
                    let mut row: usize = 0;
                    while row < 5
                        invariant
                            row <= 5,
                            seconds < 6600,
                            items@.len() == row + 1,
                            drawn(items@)[0] == title_line(rows, cols),
                            forall|k: int|
                                0 <= k < row ==> #[trigger] drawn(items@)[k + 1] == clock_line(
                                    seconds,
                                    k,
                                    rows,
                                    cols,
                                ),
                        decreases 5 - row,
                    {
                        let ghost before = items@;
                        items.push(clock_item(seconds, row, rows, cols));
                        assert(forall|k: int|
                            0 <= k < before.len() ==> #[trigger] items@[k] == before[k]);
                        assert(drawn(items@)[0] == drawn(before)[0]);
                        assert forall|k: int| 0 <= k < row + 1 implies #[trigger] drawn(items@)[k
                            + 1] == clock_line(seconds, k, rows, cols) by {
                            if k < row {
                                assert(drawn(items@)[k + 1] == drawn(before)[k + 1]);
                            }
                        }
                        row = row + 1;
                    }
                    let ghost mid = drawn(items@);
                    assert(mid[0int + 1] == clock_line(seconds, 0, rows, cols));
                    assert(mid[1int + 1] == clock_line(seconds, 1, rows, cols));
                    assert(mid[2int + 1] == clock_line(seconds, 2, rows, cols));
                    assert(mid[3int + 1] == clock_line(seconds, 3, rows, cols));
                    assert(mid[4int + 1] == clock_line(seconds, 4, rows, cols));
                    items.push(bar_item(self.break_duration, share, rows, cols));
                    items.push(spinner_item(self.spin_idx, rows, cols));
                    assert(forall|k: int| 0 <= k < 6 ==> drawn(items@)[k] == mid[k]);
                }
            },
        }
        assert(drawn(items@) =~= self.screen(rows, cols, share));
        items
    }
}

/// Each row of the big clock draws, glyph by glyph, the row of the digit's
/// own pattern: for the minutes' tens and units, the colon, and the seconds'
/// tens and units, cell `k` of glyph `g` is lit exactly when
/// `DIGIT_PATTERNS[digit][row][k]` is `'1'`, and the glyphs are separated by
/// single blanks, 19 cells in all.
pub proof fn lemma_clock_row_draws_digit_patterns(seconds: usize, row: int, rows: usize, cols: usize)
    requires
        0 <= row < 5,
        seconds < 6600,
    ensures
        ({
            let t = clock_line(seconds, row, rows, cols).text;
            let m = seconds / 60;
            let s = seconds % 60;
            let ds = seq![m / 10, m % 10, 10, s / 10, s % 10];
            &&& t.len() == 19
            &&& forall|g: int, k: int|
                0 <= g < 5 && 0 <= k < 3 ==> t[4 * g + k] == (if #[trigger] DIGIT_PATTERNS[ds[g] as int][row][k]
                    == '1' {
                    FULL_CELL
                } else {
                    ' '
                })
            &&& forall|g: int| 0 <= g < 4 ==> #[trigger] t[4 * g + 3] == ' '
        }),
{
    let t = clock_line(seconds, row, rows, cols).text;
    let m = seconds / 60;
    let s = seconds % 60;
    let ds = seq![m / 10, m % 10, 10, s / 10, s % 10];
    let gs = clock_glyphs(seconds as nat);
    assert(forall|g: int| 0 <= g < 5 ==> gs[g] == ds[g] as int);
    reveal_with_fuel(joined_row, 6);
    let full = glyph_row(gs[0], row) + seq![' '] + glyph_row(gs[1], row) + seq![' '] + glyph_row(
        gs[2],
        row,
    ) + seq![' '] + glyph_row(gs[3], row) + seq![' '] + glyph_row(gs[4], row);
    assert(t =~= full);
    assert forall|g: int, k: int|
        0 <= g < 5 && 0 <= k < 3 implies t[4 * g + k] == (if #[trigger] DIGIT_PATTERNS[ds[g] as int][row][k]
        == '1' {
        FULL_CELL
    } else {
        ' '
    }) by {
        assert(t[4 * g + k] == glyph_row(gs[g], row)[k]);
    }
}

/// The work line is exactly as wide as the pane less one column, or just
/// wide enough for the clock, one blank and the help when the pane is
/// narrower: it starts with the icon for running (tomato) or paused, then a
/// blank, ends with the key help, and its colored range is the clock part.
pub proof fn lemma_work_line_fills_pane(seconds: usize, running: bool, cols: usize)
    ensures
        ({
            let l = work_line(seconds, running, cols);
            let t = l.text;
            let help = "SPC:start/pause r:reset"@;
            let clock = seq![if running { TOMATO } else { PAUSED }, ' '] + minutes_seconds(
                seconds as nat,
            );
            &&& t[0] == (if running { TOMATO } else { PAUSED })
            &&& t[1] == ' '
            &&& t.take(clock.len() as int) == clock
            &&& t.skip(t.len() - help.len()) == help
            &&& utf8_len(t) == if cols >= utf8_len(clock) + 24 {
                cols - 1
            } else {
                utf8_len(clock) + 23int
            }
            &&& l.color == Some(ColorRange { index_level: 0, start: 0, end: utf8_len(clock) as usize })
            &&& l.x == 1 && l.y == 0
            &&& l.width == Some(sat_sub(cols as int, 1) as usize)
            &&& l.height is None
        }),
{
    let help = "SPC:start/pause r:reset"@;
    let clock = seq![if running { TOMATO } else { PAUSED }, ' '] + minutes_seconds(seconds as nat);
    reveal_strlit("SPC:start/pause r:reset");
    lemma_ascii_text_utf8_len(help);
    let pad = sat_sub(cols as int, (utf8_len(clock) + utf8_len(help) + 1) as int) as nat;
    let t = clock + spaces(pad) + help;
    assert(work_line(seconds, running, cols).text == t);
    assert(t.take(clock.len() as int) =~= clock);
    assert(t.skip(t.len() - help.len()) =~= help);
    lemma_utf8_len_concat(clock, spaces(pad));
    lemma_utf8_len_concat(clock + spaces(pad), help);
    lemma_spaces_utf8_len(pad);
}

/// The end screen's line is as wide as the pane less one column (or just
/// wide enough for its message, a blank and its help), starts with the
/// message and ends with the help, uncolored.
pub proof fn lemma_done_line_fills_pane(cols: usize)
    ensures
        ({
            let l = done_line(cols);
            let t = l.text;
            let msg = "\u{2705} Done!"@;
            let help = "r:new session"@;
            &&& t.take(msg.len() as int) == msg
            &&& t.skip(t.len() - help.len()) == help
            &&& utf8_len(t) == if cols >= 23 {
                cols - 1
            } else {
                22int
            }
            &&& l.color is None
            &&& l.x == 1 && l.y == 0
            &&& l.width == Some(sat_sub(cols as int, 1) as usize)
        }),
{
    let msg = "\u{2705} Done!"@;
    let help = "r:new session"@;
    reveal_strlit("\u{2705} Done!");
    reveal_strlit("r:new session");
    lemma_ascii_text_utf8_len(help);
    reveal_strlit(" Done!");
    assert(msg =~= seq!['\u{2705}'] + " Done!"@);
    lemma_ascii_text_utf8_len(" Done!"@);
    lemma_utf8_len_concat(seq!['\u{2705}'], " Done!"@);
    assert(seq!['\u{2705}'].drop_first() =~= Seq::<char>::empty());
    assert('\u{2705}' as u32 == 0x2705);
    assert(utf8_len(Seq::<char>::empty()) == 0);
    assert(utf8_len(seq!['\u{2705}']) == 3);
    let pad = sat_sub(cols as int, (utf8_len(msg) + utf8_len(help) + 1) as int) as nat;
    let t = msg + spaces(pad) + help;
    assert(done_line(cols).text == t);
    assert(t.take(msg.len() as int) =~= msg);
    assert(t.skip(t.len() - help.len()) =~= help);
    lemma_utf8_len_concat(msg, spaces(pad));
    lemma_utf8_len_concat(msg + spaces(pad), help);
    lemma_spaces_utf8_len(pad);
}

/// Printable ASCII characters take one byte each.
proof fn lemma_ascii_text_utf8_len(s: Seq<char>)
    requires
        forall|i: int| 0 <= i < s.len() ==> (#[trigger] s[i]) as u32 <= 0x7F,
    ensures
        utf8_len(s) == s.len(),
    decreases s.len(),
{
    if s.len() > 0 {
        assert(s[0] as u32 <= 0x7F);
        lemma_ascii_text_utf8_len(s.drop_first());
    }
}

/// The progress bar spans the pane less four columns; its first cells, as
/// many as the caller's share (all of them when there is no break length),
/// but never more than the bar, are drawn done and colored, the rest still to go.
pub proof fn lemma_bar_shows_share(total: usize, share: usize, rows: usize, cols: usize)
    ensures
        ({
            let l = bar_line(total, share, rows, cols);
            let width = if cols >= 4 { cols - 4 } else { 0 };
            let filled = if total == 0 || share >= width { width } else { share as int };
            &&& l.text.len() == width
            &&& forall|i: int| 0 <= i < width ==> #[trigger] l.text[i] == if i < filled {
                BAR_DONE
            } else {
                BAR_LEFT
            }
            &&& l.color == Some(ColorRange { index_level: 0, start: 0, end: filled as usize })
            &&& l.x == 2 && l.y == rows / 2 + 4
        }),
{
}

/// The spinner shows one frame, chosen cyclically by the spinner index, so
/// that each timer event advances it to the next frame.
pub proof fn lemma_spinner_cycles(spin_idx: usize, rows: usize, cols: usize)
    ensures
        spinner_line(spin_idx, rows, cols).text.len() == 1,
        spinner_line(spin_idx, rows, cols).text[0] == SPINNER[spin_idx as int % 10],
        spin_idx < usize::MAX ==> spinner_line((spin_idx + 1) as usize, rows, cols).text[0]
            == SPINNER[(spin_idx as int % 10 + 1) % 10],
        spinner_line(spin_idx, rows, cols).x == cols / 2,
        spinner_line(spin_idx, rows, cols).y == rows / 2 + 6,
{
}

/// The break title is centered on its byte width and sits six rows above the
/// middle (or at the top); the one-line break view starts with the break
/// label, is colored over its whole width, and is clipped to the pane.
pub proof fn lemma_break_titles(seconds: usize, rows: usize, cols: usize)
    ensures
        title_line(rows, cols).text == "\u{1F369} BREAK TIME"@,
        title_line(rows, cols).x == if cols >= 15 { (cols - 15) / 2 } else { 0 },
        title_line(rows, cols).y == if rows / 2 >= 6 { rows / 2 - 6 } else { 0 },
        compact_break_line(seconds, cols).text.take(8) == "\u{1F369} BREAK "@,
        compact_break_line(seconds, cols).color == Some(
            ColorRange {
                index_level: 0,
                start: 0,
                end: utf8_len(compact_break_line(seconds, cols).text) as usize,
            },
        ),
        compact_break_line(seconds, cols).width == Some(cols),
{
    reveal_strlit("\u{1F369} BREAK TIME");
    reveal_strlit("\u{1F369} BREAK ");
    let title = "\u{1F369} BREAK TIME"@;
    let rest = title.drop_first();
    assert(rest =~= " BREAK TIME"@) by {
        reveal_strlit(" BREAK TIME");
    }
    reveal_strlit(" BREAK TIME");
    lemma_ascii_text_utf8_len(rest);
    assert(utf8_len(title) == 15);
    let label = "\u{1F369} BREAK "@;
    assert((label + minutes_seconds(seconds as nat)).take(8) =~= label);
}

} // verus!
