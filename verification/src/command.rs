use vstd::prelude::*;

verus! {

/// A command sent to the plugin over its `pomo` pipe.
#[derive(Debug, PartialEq, Eq, Structural, Clone, Copy)]
pub enum PipeCommand {
    /// Start a work period, optionally replacing the work and break lengths (in seconds).
    Start { work: Option<usize>, brk: Option<usize> },
    Stop,
    Hide,
    Show,
}

/// Unicode's White_Space property, the one `char::is_whitespace` tests.
pub open spec fn white_space(c: char) -> bool {
    let u = c as u32;
    ||| 0x09 <= u <= 0x0D
    ||| u == 0x20
    ||| u == 0x85
    ||| u == 0xA0
    ||| u == 0x1680
    ||| 0x2000 <= u <= 0x200A
    ||| u == 0x2028
    ||| u == 0x2029
    ||| u == 0x202F
    ||| u == 0x205F
    ||| u == 0x3000
}

/// Whether `c` is a white-space character.
pub fn is_white_space(c: char) -> (b: bool)
    ensures
        b == white_space(c),
{
    let u = c as u32;
    (0x09 <= u && u <= 0x0D) || u == 0x20 || u == 0x85 || u == 0xA0 || u == 0x1680 || (0x2000
        <= u && u <= 0x200A) || u == 0x2028 || u == 0x2029 || u == 0x202F || u == 0x205F || u
        == 0x3000
}

/// `cur` closed off as a word, if it holds anything.
pub open spec fn flush(cur: Seq<char>) -> Seq<Seq<char>> {
    if cur.len() > 0 {
        seq![cur]
    } else {
        seq![]
    }
}

/// The words of `s`, when `cur` holds the characters of a word begun just before `s`.
pub open spec fn split_from(s: Seq<char>, cur: Seq<char>) -> Seq<Seq<char>>
    decreases s.len(),
{
    if s.len() == 0 {
        flush(cur)
    } else if white_space(s[0]) {
        flush(cur) + split_from(s.drop_first(), seq![])
    } else {
        split_from(s.drop_first(), cur.push(s[0]))
    }
}

/// The maximal runs of non-white-space characters of `s`, in order.
pub open spec fn words_of(s: Seq<char>) -> Seq<Seq<char>> {
    split_from(s, seq![])
}

/// Appends a finished, non-empty word to the words found so far.
fn push_word(done: &mut Vec<Vec<char>>, word: Vec<char>)
    requires
        word@.len() > 0,
    ensures
        final(done).deep_view() == old(done).deep_view() + flush(word@),
{
    let ghost before = done.deep_view();
    let ghost w = word@;
    assert(word.deep_view() =~= w);
    done.push(word);
    assert(done.deep_view() =~= before + flush(w));
}

/// Splits `text` into its words, as `split_whitespace` does.
pub fn split_words(text: &str) -> (words: Vec<Vec<char>>)
    ensures
        words.deep_view() == words_of(text@),
{
    let n = text.unicode_len();
    let mut done: Vec<Vec<char>> = Vec::new();
    let mut cur: Vec<char> = Vec::new();
    let mut i: usize = 0;
    assert(text@.skip(0) =~= text@);
    while i < n
        invariant
            n == text@.len(),
            i <= n,
            done.deep_view() + split_from(text@.skip(i as int), cur@) == words_of(text@),
        decreases n - i,
    {
        let c = text.get_char(i);
        let ghost rest = text@.skip(i as int);
        let ghost before = done.deep_view();
        assert(rest[0] == c);
        assert(rest.drop_first() =~= text@.skip(i + 1));
        if is_white_space(c) {
            if cur.len() > 0 {
                push_word(&mut done, cur);
            } else {
                assert(done.deep_view() =~= before + flush(cur@));
            }
            cur = Vec::new();
            assert(cur@ =~= Seq::<char>::empty());
        } else {
            cur.push(c);
        }
        i = i + 1;
    }
    assert(text@.skip(n as int) =~= Seq::<char>::empty());
    let ghost before = done.deep_view();
    if cur.len() > 0 {
        push_word(&mut done, cur);
    } else {
        assert(done.deep_view() =~= before + flush(cur@));
    }
    done
}

/// An ASCII decimal digit, `'0'` to `'9'`.
pub open spec fn is_digit(c: char) -> bool {
    48 <= c as u32 <= 57
}

/// The value of a decimal digit.
pub open spec fn digit_value(c: char) -> nat {
    (c as u32 - 48) as nat
}

/// The number that the digits `d` write in base ten (most significant first).
pub open spec fn decimal_value(d: Seq<char>) -> nat
    decreases d.len(),
{
    if d.len() == 0 {
        0
    } else {
        decimal_value(d.drop_last()) * 10 + digit_value(d.last())
    }
}

/// `w` without one leading `'+'`.
pub open spec fn unsigned_digits(w: Seq<char>) -> Seq<char> {
    if w.len() > 0 && w[0] == '+' {
        w.drop_first()
    } else {
        w
    }
}

/// What `str::parse::<usize>` gives for `w`: an optional `'+'` followed by at
/// least one decimal digit and nothing else, whose value fits in a `usize`.
pub open spec fn parsed_usize(w: Seq<char>) -> Option<usize> {
    let d = unsigned_digits(w);
    if d.len() > 0 && (forall|i: int| 0 <= i < d.len() ==> is_digit(#[trigger] d[i]))
        && decimal_value(d) <= usize::MAX {
        Some(decimal_value(d) as usize)
    } else {
        None
    }
}

/// The command that a payload with the words `words` stands for: the first
/// word names it, and `start` takes the next two words as optional work and
/// break lengths, each of which is dropped when it is not a number.
pub open spec fn command_of(words: Seq<Seq<char>>) -> Option<PipeCommand> {
    if words.len() == 0 {
        None
    } else if words[0] == seq!['s', 't', 'a', 'r', 't'] {
        Some(
            PipeCommand::Start {
                work: if words.len() > 1 {
                    parsed_usize(words[1])
                } else {
                    None
                },
                brk: if words.len() > 2 {
                    parsed_usize(words[2])
                } else {
                    None
                },
            },
        )
    } else if words[0] == seq!['s', 't', 'o', 'p'] {
        Some(PipeCommand::Stop)
    } else if words[0] == seq!['h', 'i', 'd', 'e'] {
        Some(PipeCommand::Hide)
    } else if words[0] == seq!['s', 'h', 'o', 'w'] {
        Some(PipeCommand::Show)
    } else {
        None
    }
}

/// A prefix of a digit string never writes a larger number than the whole.
proof fn lemma_prefix_value_le(d: Seq<char>, k: int)
    requires
        0 <= k <= d.len(),
    ensures
        decimal_value(d.take(k)) <= decimal_value(d),
    decreases d.len(),
{
    if k < d.len() {
        assert(d.drop_last().take(k) =~= d.take(k));
        lemma_prefix_value_le(d.drop_last(), k);
    } else {
        assert(d.take(k) =~= d);
    }
}

/// Reads `w` as a `usize` the way `str::parse::<usize>` does.
pub fn parse_usize(w: &Vec<char>) -> (r: Option<usize>)
    ensures
        r == parsed_usize(w@),
{
    let start: usize = if w.len() > 0 && w[0] == '+' {
        1
    } else {
        0
    };
    let ghost d = w@.skip(start as int);
    assert(d =~= unsigned_digits(w@));
    if start == w.len() {
        return None;
    }
    let mut acc: usize = 0;
    let mut i: usize = start;
    assert(d.take(0) =~= Seq::<char>::empty());
    while i < w.len()
        invariant
            start <= i <= w.len(),
            start < w.len(),
            d == w@.skip(start as int),
            d == unsigned_digits(w@),
            acc == decimal_value(d.take(i - start)),
            forall|k: int| 0 <= k < i - start ==> is_digit(#[trigger] d[k]),
        decreases w.len() - i,
    {
        let c = w[i];
        let u = c as u32;
        assert(d[i - start] == c);
        if u < 48 || u > 57 {
            assert(!is_digit(d[i - start]));
            return None;
        }
        let digit = (u - 48) as usize;
        let ghost k = i - start;
        assert(d.take(k + 1).drop_last() =~= d.take(k));
        assert(decimal_value(d.take(k + 1)) == acc * 10 + digit);
        let next = match acc.checked_mul(10) {
            Some(m) => m.checked_add(digit),
            None => None,
        };
        match next {
            Some(v) => {
                acc = v;
            },
            None => {
                proof {
                    lemma_prefix_value_le(d, k + 1);
                }
                return None;
            },
        }
        i = i + 1;
    }
    assert(d.take(w.len() - start) =~= d);
    Some(acc)
}

/// Whether the word `w` is exactly `lit`.
fn word_is(w: &Vec<char>, lit: &[char]) -> (b: bool)
    ensures
        b == (w@ == lit@),
{
    if w.len() != lit.len() {
        return false;
    }
    let mut i: usize = 0;
    while i < w.len()
        invariant
            w@.len() == lit@.len(),
            i <= w.len(),
            forall|k: int| 0 <= k < i ==> w@[k] == lit@[k],
        decreases w.len() - i,
    {
        if w[i] != lit[i] {
            return false;
        }
        i = i + 1;
    }
    assert(w@ =~= lit@);
    true
}

/// The characters of `text`, in order.
pub fn chars_of(text: &str) -> (chars: Vec<char>)
    ensures
        chars@ == text@,
{
    let n = text.unicode_len();
    let mut chars: Vec<char> = Vec::new();
    let mut i: usize = 0;
    while i < n
        invariant
            n == text@.len(),
            i <= n,
            chars@ == text@.take(i as int),
        decreases n - i,
    {
        chars.push(text.get_char(i));
        i = i + 1;
        assert(chars@ =~= text@.take(i as int));
    }
    assert(text@.take(n as int) =~= text@);
    chars
}

/// Whether `text` is exactly the characters `lit`.
pub fn text_is(text: &str, lit: &[char]) -> (b: bool)
    ensures
        b == (text@ == lit@),
{
    let chars = chars_of(text);
    word_is(&chars, lit)
}

/// Every character of `s` is white space.
pub open spec fn all_white(s: Seq<char>) -> bool {
    forall|i: int| 0 <= i < s.len() ==> white_space(#[trigger] s[i])
}

/// A non-empty run of white space closes the word being read and yields no other.
proof fn lemma_white_run_closes_word(w: Seq<char>, cur: Seq<char>)
    requires
        all_white(w),
        w.len() > 0,
    ensures
        split_from(w, cur) == flush(cur),
    decreases w.len(),
{
    assert(white_space(w[0]));
    let rest = w.drop_first();
    if rest.len() > 0 {
        assert(all_white(rest)) by {
            assert forall|i: int| 0 <= i < rest.len() implies white_space(#[trigger] rest[i]) by {
                assert(rest[i] == w[i + 1]);
            }
        }
        lemma_white_run_closes_word(rest, seq![]);
    }
    assert(flush(seq![]) =~= Seq::<Seq<char>>::empty());
    assert(split_from(rest, seq![]) =~= Seq::<Seq<char>>::empty());
    assert(split_from(w, cur) == flush(cur) + split_from(rest, seq![]));
    assert(flush(cur) + Seq::<Seq<char>>::empty() =~= flush(cur));
}

/// Trailing white space does not change the words.
proof fn lemma_trailing_white(s: Seq<char>, w: Seq<char>, cur: Seq<char>)
    requires
        all_white(w),
    ensures
        split_from(s + w, cur) == split_from(s, cur),
    decreases s.len(),
{
    if s.len() == 0 {
        assert(s + w =~= w);
        if w.len() > 0 {
            lemma_white_run_closes_word(w, cur);
        }
    } else {
        assert((s + w)[0] == s[0]);
        assert((s + w).drop_first() =~= s.drop_first() + w);
        if white_space(s[0]) {
            lemma_trailing_white(s.drop_first(), w, seq![]);
        } else {
            lemma_trailing_white(s.drop_first(), w, cur.push(s[0]));
        }
    }
}

/// Leading white space does not change the words.
proof fn lemma_leading_white(w: Seq<char>, s: Seq<char>)
    requires
        all_white(w),
    ensures
        split_from(w + s, seq![]) == split_from(s, seq![]),
    decreases w.len(),
{
    if w.len() == 0 {
        assert(w + s =~= s);
    } else {
        assert((w + s)[0] == w[0]);
        assert(white_space(w[0]));
        assert((w + s).drop_first() =~= w.drop_first() + s);
        assert(all_white(w.drop_first())) by {
            assert forall|i: int| 0 <= i < w.drop_first().len() implies white_space(
                #[trigger] w.drop_first()[i],
            ) by {
                assert(w.drop_first()[i] == w[i + 1]);
            }
        }
        lemma_leading_white(w.drop_first(), s);
        assert(flush(Seq::<char>::empty()) =~= Seq::<Seq<char>>::empty());
        assert(flush(Seq::<char>::empty()) + split_from(s, seq![]) =~= split_from(s, seq![]));
    }
}

/// White space around a payload changes neither its words nor the command
/// it stands for.
pub proof fn lemma_surrounding_white_space_ignored(a: Seq<char>, s: Seq<char>, b: Seq<char>)
    requires
        all_white(a),
        all_white(b),
    ensures
        words_of(a + s + b) == words_of(s),
        command_of(words_of(a + s + b)) == command_of(words_of(s)),
{
    assert(a + s + b =~= a + (s + b));
    lemma_leading_white(a, s + b);
    lemma_trailing_white(s, b, seq![]);
}

/// Reading on past a white-space character ends the current word: what
/// follows it is split on its own.
proof fn lemma_split_at_white(a: Seq<char>, w: char, b: Seq<char>, cur: Seq<char>)
    requires
        white_space(w),
    ensures
        split_from(a + seq![w] + b, cur) == split_from(a, cur) + split_from(b, seq![]),
    decreases a.len(),
{
    let x = a + seq![w] + b;
    if a.len() == 0 {
        assert(x[0] == w);
        assert(x.drop_first() =~= b);
    } else {
        assert(x[0] == a[0]);
        assert(x.drop_first() =~= a.drop_first() + seq![w] + b);
        if white_space(a[0]) {
            lemma_split_at_white(a.drop_first(), w, b, seq![]);
            assert(flush(cur) + (split_from(a.drop_first(), seq![]) + split_from(b, seq![]))
                =~= (flush(cur) + split_from(a.drop_first(), seq![])) + split_from(b, seq![]));
        } else {
            lemma_split_at_white(a.drop_first(), w, b, cur.push(a[0]));
        }
    }
}

/// A run of characters none of which is white space continues the current word.
proof fn lemma_split_no_white(s: Seq<char>, cur: Seq<char>)
    requires
        forall|i: int| 0 <= i < s.len() ==> !white_space(#[trigger] s[i]),
    ensures
        split_from(s, cur) == flush(cur + s),
    decreases s.len(),
{
    if s.len() == 0 {
        assert(cur + s =~= cur);
    } else {
        assert(!white_space(s[0]));
        lemma_split_no_white(s.drop_first(), cur.push(s[0]));
        assert(cur.push(s[0]) + s.drop_first() =~= cur + s);
    }
}

/// The words of a text: a non-empty run without white space is one word,
/// white space alone has none, and white space splits a text into the words
/// before it followed by the words after it.
pub proof fn lemma_words_of_characterized(a: Seq<char>, w: char, b: Seq<char>)
    ensures
        white_space(w) ==> words_of(a + seq![w] + b) == words_of(a) + words_of(b),
        (forall|i: int| 0 <= i < a.len() ==> !white_space(#[trigger] a[i])) && a.len() > 0
            ==> words_of(a) == seq![a],
        words_of(Seq::<char>::empty()) == Seq::<Seq<char>>::empty(),
{
    if white_space(w) {
        lemma_split_at_white(a, w, b, seq![]);
    }
    if (forall|i: int| 0 <= i < a.len() ==> !white_space(#[trigger] a[i])) && a.len() > 0 {
        lemma_split_no_white(a, seq![]);
        assert(Seq::<char>::empty() + a =~= a);
    }
    assert(words_of(Seq::<char>::empty()) =~= Seq::<Seq<char>>::empty());
}

/// How `str::parse::<usize>` reads numbers: a single digit is its value; one
/// more digit on the right multiplies by ten and adds it, as long as the
/// result fits; a leading `+` is allowed once; a text holding anything but
/// digits after that sign, or nothing at all, is no number.
pub proof fn lemma_parsed_usize_characterized(d: Seq<char>, c: char)
    ensures
        is_digit(c) ==> parsed_usize(seq![c]) == Some((c as u32 - 48) as usize),
        is_digit(c) && d.len() > 0 && d[0] != '+' && parsed_usize(d) is Some && parsed_usize(d)->0
            * 10 + (c as u32 - 48) <= usize::MAX ==> parsed_usize(d.push(c)) == Some(
            (parsed_usize(d)->0 * 10 + (c as u32 - 48)) as usize,
        ),
        is_digit(c) && d.len() > 0 && d[0] != '+' && parsed_usize(d) is Some && parsed_usize(d)->0
            * 10 + (c as u32 - 48) > usize::MAX ==> parsed_usize(d.push(c)) is None,
        d.len() > 0 && d[0] != '+' ==> parsed_usize(seq!['+'] + d) == parsed_usize(d),
        !is_digit(c) && c != '+' ==> parsed_usize(d.push(c)) is None,
        !is_digit(c) && c != '+' ==> parsed_usize(seq![c] + d) is None,
        parsed_usize(Seq::<char>::empty()) is None,
        parsed_usize(seq!['+']) is None,
{
    if is_digit(c) {
        assert(seq![c].drop_last() =~= Seq::<char>::empty());
        assert(decimal_value(seq![c]) == (c as u32 - 48));
    }
    if is_digit(c) && d.len() > 0 && d[0] != '+' && parsed_usize(d) is Some {
        let e = d.push(c);
        assert(unsigned_digits(d) == d);
        assert(e[0] == d[0]);
        assert(unsigned_digits(e) == e);
        assert(e.drop_last() =~= d);
        assert(forall|i: int| 0 <= i < e.len() ==> is_digit(#[trigger] e[i])) by {
            assert forall|i: int| 0 <= i < e.len() implies is_digit(#[trigger] e[i]) by {
                if i < d.len() {
                    assert(e[i] == d[i]);
                    assert(is_digit(d[i]));
                }
            }
        }
    }
    if d.len() > 0 && d[0] != '+' {
        assert((seq!['+'] + d).drop_first() =~= d);
        assert(unsigned_digits(d) == d);
    }
    if !is_digit(c) && c != '+' {
        let e = d.push(c);
        let u = unsigned_digits(e);
        if e[0] == '+' {
            assert(u[u.len() - 1] == c);
        } else {
            assert(u[u.len() - 1] == c);
        }
        let f = seq![c] + d;
        assert(f[0] == c);
        assert(unsigned_digits(f) == f);
    }
    assert(unsigned_digits(seq!['+']) =~= Seq::<char>::empty());
}

/// The first word names the command and nothing after the third word
/// matters: `stop`, `hide` and `show` ignore what follows them, `start` takes
/// the second and third words as its work and break lengths when they read
/// as numbers, and any other first word, or no word at all, is no command.
pub proof fn lemma_first_word_names_command(words: Seq<Seq<char>>)
    ensures
        command_of(words) == command_of(words.take(if words.len() < 3 { words.len() as int } else { 3 })),
        words.len() == 0 ==> command_of(words) is None,
        words.len() > 0 && words[0] == seq!['s', 't', 'o', 'p'] ==> command_of(words) == Some(
            PipeCommand::Stop,
        ),
        words.len() > 0 && words[0] == seq!['h', 'i', 'd', 'e'] ==> command_of(words) == Some(
            PipeCommand::Hide,
        ),
        words.len() > 0 && words[0] == seq!['s', 'h', 'o', 'w'] ==> command_of(words) == Some(
            PipeCommand::Show,
        ),
        words.len() >= 3 && words[0] == seq!['s', 't', 'a', 'r', 't'] ==> command_of(words)
            == Some(PipeCommand::Start { work: parsed_usize(words[1]), brk: parsed_usize(words[2]) }),
        words.len() == 2 && words[0] == seq!['s', 't', 'a', 'r', 't'] ==> command_of(words)
            == Some(PipeCommand::Start { work: parsed_usize(words[1]), brk: None }),
        words.len() == 1 && words[0] == seq!['s', 't', 'a', 'r', 't'] ==> command_of(words)
            == Some(PipeCommand::Start { work: None, brk: None }),
        words.len() > 0 && words[0] != seq!['s', 't', 'a', 'r', 't'] && words[0] != seq![
            's',
            't',
            'o',
            'p',
        ] && words[0] != seq!['h', 'i', 'd', 'e'] && words[0] != seq!['s', 'h', 'o', 'w']
            ==> command_of(words) is None,
{
}

impl PipeCommand {
    /// Reads a pipe payload: its first word names the command, and `start`
    /// may be followed by a work and a break length in seconds.
    pub fn parse(payload: &str) -> (cmd: Option<Self>)
        ensures
            cmd == command_of(words_of(payload@)),
    {
        let parts = split_words(payload);
        let ghost words = parts.deep_view();
        if parts.len() == 0 {
            return None;
        }
        assert(parts[0 as int]@ == words[0]) by {
            assert(parts[0 as int].deep_view() =~= parts[0 as int]@);
        }
        let first = &parts[0];
        if word_is(first, &['s', 't', 'a', 'r', 't']) {
            let work = if parts.len() > 1 {
                assert(parts[1 as int].deep_view() =~= parts[1 as int]@);
                parse_usize(&parts[1])
            } else {
                None
            };
            let brk = if parts.len() > 2 {
                assert(parts[2 as int].deep_view() =~= parts[2 as int]@);
                parse_usize(&parts[2])
            } else {
                None
            };
            Some(PipeCommand::Start { work, brk })
        } else if word_is(first, &['s', 't', 'o', 'p']) {
            Some(PipeCommand::Stop)
        } else if word_is(first, &['h', 'i', 'd', 'e']) {
            Some(PipeCommand::Hide)
        } else if word_is(first, &['s', 'h', 'o', 'w']) {
            Some(PipeCommand::Show)
        } else {
            None
        }
    }
}

} // verus!
