//! The repetition annotation that the device puts behind a message which it has
//! reported more than once:
//!
//! ```text
//! <message> [<count> Meldungen seit <day>.<month>.<year> <hour>:<minute>:<second>]
//! ```
//!
//! Each of the seven numbers is one ASCII digit or more. The annotation ends the
//! message; a message has at most one.

use crate::text::{is_ascii_digit, is_digit};
use vstd::prelude::*;

verus! {

/// What stands between the count and the date: `" Meldungen seit "`.
pub open spec fn since_marker() -> Seq<char> {
    seq![' ', 'M', 'e', 'l', 'd', 'u', 'n', 'g', 'e', 'n', ' ', 's', 'e', 'i', 't', ' ']
}

/// `s[from..to]` is a number: one digit or more.
pub open spec fn digits_in(s: Seq<char>, from: int, to: int) -> bool {
    0 <= from < to <= s.len() && forall|k: int| from <= k < to ==> is_digit(#[trigger] s[k])
}

/// `s[from..to]` is three numbers with `sep` between them, the first of which
/// ends at `a` and the second at `b`.
pub open spec fn is_triple(s: Seq<char>, from: int, a: int, b: int, to: int, sep: char) -> bool {
    &&& digits_in(s, from, a)
    &&& s[a] == sep
    &&& digits_in(s, a + 1, b)
    &&& s[b] == sep
    &&& digits_in(s, b + 1, to)
}

/// `s[from..to]` is three numbers with `sep` between them.
pub open spec fn triple_in(s: Seq<char>, from: int, to: int, sep: char) -> bool {
    exists|a: int, b: int| #[trigger] is_triple(s, from, a, b, to, sep)
}

/// `s` ends with an annotation that begins at `start`, the count of which ends at
/// `count_end` and the date at `date_end`.
pub open spec fn annotation_at(s: Seq<char>, start: int, count_end: int, date_end: int) -> bool {
    &&& 0 <= start
    &&& s[start] == ' '
    &&& s[start + 1] == '['
    &&& digits_in(s, start + 2, count_end)
    &&& count_end + 16 <= s.len()
    &&& s.subrange(count_end, count_end + 16) == since_marker()
    &&& triple_in(s, count_end + 16, date_end, '.')
    &&& s[date_end] == ' '
    &&& triple_in(s, date_end + 1, s.len() - 1, ':')
    &&& s[s.len() - 1] == ']'
}

/// `s` ends with an annotation.
pub open spec fn has_annotation(s: Seq<char>) -> bool {
    exists|start: int, count_end: int, date_end: int| annotation_at(s, start, count_end, date_end)
}

/// Where the annotation of a message stands.
#[derive(Debug, PartialEq, Eq, Structural, Clone, Copy, Hash)]
pub struct Annotation {
    /// Where the annotation begins: the length of the message without it.
    pub start: usize,
    /// Where the count ends. It begins at `start + 2`.
    pub count_end: usize,
    /// Where the date ends. It begins at `count_end + 16`; the time begins at
    /// `date_end + 1` and ends before the message's last character.
    pub date_end: usize,
}

impl Annotation {
    /// Whether `s` ends with an annotation that stands where `self` says.
    pub open spec fn is_in(self, s: Seq<char>) -> bool {
        annotation_at(s, self.start as int, self.count_end as int, self.date_end as int)
    }

    /// The message without its annotation.
    pub open spec fn message_of(self, s: Seq<char>) -> Seq<char> {
        s.subrange(0, self.start as int)
    }

    /// The digits of the count.
    pub open spec fn count_of(self, s: Seq<char>) -> Seq<char> {
        s.subrange(self.start + 2, self.count_end as int)
    }

    /// The text of the date.
    pub open spec fn date_of(self, s: Seq<char>) -> Seq<char> {
        s.subrange(self.count_end + 16, self.date_end as int)
    }

    /// The text of the time.
    pub open spec fn time_of(self, s: Seq<char>) -> Seq<char> {
        s.subrange(self.date_end + 1, s.len() - 1)
    }
}

/// The annotation that a count, a date and a time make.
pub open spec fn annotation_text(count: Seq<char>, date: Seq<char>, time: Seq<char>) -> Seq<char> {
    seq![' ', '['] + count + since_marker() + date + seq![' '] + time + seq![']']
}

/// The whole of `s` is three numbers with `sep` between them.
pub open spec fn is_triple_text(s: Seq<char>, sep: char) -> bool {
    triple_in(s, 0, s.len() as int, sep)
}

/// Three numbers with `sep` between them stay so where they stand inside a
/// longer text.
proof fn lemma_triple_inside(part: Seq<char>, sep: char, s: Seq<char>, at: int)
    requires
        is_triple_text(part, sep),
        0 <= at,
        at + part.len() <= s.len(),
        s.subrange(at, at + part.len()) == part,
    ensures
        triple_in(s, at, at + part.len(), sep),
{
    let (a, b) = choose|a: int, b: int| #[trigger] is_triple(part, 0, a, b, part.len() as int, sep);
    assert forall|k: int| at <= k < at + part.len() implies s[k] == part[k - at] by {
        assert(s.subrange(at, at + part.len())[k - at] == s[k]);
    }
    assert(is_triple(s, at, at + a, at + b, at + part.len(), sep));
}

/// Where the parts of an annotation stand in it.
proof fn lemma_annotation_text(count: Seq<char>, date: Seq<char>, time: Seq<char>)
    ensures
        ({
            let text = annotation_text(count, date, time);
            let count_end: int = count.len() as int + 2;
            let date_end: int = count_end + 16 + date.len();
            &&& text.len() == date_end + 1 + time.len() + 1
            &&& text[0] == ' '
            &&& text[1] == '['
            &&& text.subrange(2, count_end) == count
            &&& text.subrange(count_end, count_end + 16) == since_marker()
            &&& text.subrange(count_end + 16, date_end) == date
            &&& text[date_end] == ' '
            &&& text.subrange(date_end + 1, text.len() - 1) == time
            &&& text[text.len() - 1] == ']'
        }),
{
    let head = seq![' ', '['] + count;
    let upto_marker = head + since_marker();
    let upto_date = upto_marker + date;
    let upto_space = upto_date + seq![' '];
    let upto_time = upto_space + time;
    let text = upto_time + seq![']'];
    assert(text == annotation_text(count, date, time));
    let count_end: int = count.len() as int + 2;
    let date_end: int = count_end + 16 + date.len();
    assert(head.len() == count_end);
    assert(upto_marker.len() == count_end + 16);
    assert(upto_date.len() == date_end);
    assert(upto_time.len() == date_end + 1 + time.len());
    assert(text.subrange(2, count_end) =~= count) by {
        assert forall|k: int| 0 <= k < count.len() implies text[2 + k] == count[k] by {
            assert(head[2 + k] == count[k]);
        }
    }
    assert(text.subrange(count_end, count_end + 16) =~= since_marker()) by {
        assert forall|k: int| 0 <= k < 16 implies text[count_end + k] == since_marker()[k] by {
            assert(upto_marker[count_end + k] == since_marker()[k]);
        }
    }
    assert(text.subrange(count_end + 16, date_end) =~= date) by {
        assert forall|k: int| 0 <= k < date.len() implies text[count_end + 16 + k] == date[k] by {
            assert(upto_date[count_end + 16 + k] == date[k]);
        }
    }
    assert(text.subrange(date_end + 1, text.len() - 1) =~= time) by {
        assert forall|k: int| 0 <= k < time.len() implies text[date_end + 1 + k] == time[k] by {
            assert(upto_time[date_end + 1 + k] == time[k]);
        }
    }
    assert(text[0] == head[0]);
    assert(text[1] == head[1]);
    assert(text[date_end] == upto_space[date_end]);
}

/// A message with an annotation behind it is read as that message and that
/// annotation: the annotation begins where the message ends, and its count, date
/// and time are the ones it was made of.
pub proof fn law_annotated_message(
    message: Seq<char>,
    count: Seq<char>,
    date: Seq<char>,
    time: Seq<char>,
)
    requires
        crate::text::is_number(count),
        is_triple_text(date, '.'),
        is_triple_text(time, ':'),
    ensures
        ({
            let s = message + annotation_text(count, date, time);
            let start = message.len() as int;
            let count_end: int = start + 2 + count.len();
            let date_end: int = count_end + 16 + date.len();
            &&& annotation_at(s, start, count_end, date_end)
            &&& s.subrange(0, start) == message
            &&& s.subrange(start + 2, count_end) == count
            &&& s.subrange(count_end + 16, date_end) == date
            &&& s.subrange(date_end + 1, s.len() - 1) == time
        }),
{
    let text = annotation_text(count, date, time);
    let s = message + text;
    let start = message.len() as int;
    let count_end: int = start + 2 + count.len();
    let date_end: int = count_end + 16 + date.len();
    lemma_annotation_text(count, date, time);
    lemma_behind(message, text, 0, 1);
    lemma_behind(message, text, 1, 2);
    lemma_behind(message, text, 2, count_end - start);
    lemma_behind(message, text, count_end - start, count_end - start + 16);
    lemma_behind(message, text, count_end - start + 16, date_end - start);
    lemma_behind(message, text, date_end - start, date_end - start + 1);
    lemma_behind(message, text, date_end - start + 1, text.len() - 1);
    lemma_behind(message, text, text.len() - 1, text.len() as int);
    assert(s.subrange(0, start) =~= message);
    assert(digits_in(s, start + 2, count_end)) by {
        assert forall|k: int| start + 2 <= k < count_end implies is_digit(#[trigger] s[k]) by {
            assert(s.subrange(start + 2, count_end)[k - (start + 2)] == s[k]);
        }
    }
    assert(triple_in(s, count_end + 16, date_end, '.')) by {
        lemma_triple_inside(date, '.', s, count_end + 16);
    }
    assert(triple_in(s, date_end + 1, s.len() - 1, ':')) by {
        lemma_triple_inside(time, ':', s, date_end + 1);
    }
}

/// What stands behind a message stands in the whole as it stands by itself.
proof fn lemma_behind(message: Seq<char>, text: Seq<char>, from: int, to: int)
    requires
        0 <= from < to <= text.len(),
    ensures
        (message + text).subrange(message.len() + from, message.len() + to) == text.subrange(
            from,
            to,
        ),
        (message + text)[message.len() + from] == text[from],
{
    assert((message + text).subrange(message.len() + from, message.len() + to) =~= text.subrange(
        from,
        to,
    ));
}

/// Where the digits begin that end just before `to`: `to` itself if there are
/// none.
pub open spec fn run_start(s: Seq<char>, to: int) -> int
    decreases to,
{
    if 0 < to <= s.len() && is_digit(s[to - 1]) {
        run_start(s, to - 1)
    } else {
        to
    }
}

/// From `run_start` up to `to` there are digits only, and no digit stands before.
pub proof fn lemma_run_start(s: Seq<char>, to: int)
    requires
        0 <= to <= s.len(),
    ensures
        0 <= run_start(s, to) <= to,
        forall|k: int| run_start(s, to) <= k < to ==> is_digit(#[trigger] s[k]),
        run_start(s, to) > 0 ==> !is_digit(s[run_start(s, to) - 1]),
    decreases to,
{
    if 0 < to && is_digit(s[to - 1]) {
        lemma_run_start(s, to - 1);
    }
}

/// A number that no digit precedes begins where `run_start` says.
pub proof fn lemma_run_start_is(s: Seq<char>, from: int, to: int)
    requires
        digits_in(s, from, to),
        from > 0 ==> !is_digit(s[from - 1]),
    ensures
        run_start(s, to) == from,
{
    lemma_run_start(s, to);
    let r = run_start(s, to);
    if r < from {
        assert(is_digit(s[from - 1]));
    } else if r > from {
        assert(is_digit(s[r - 1]));
    }
}

/// Where three numbers with `sep` between them begin, read from their end: the
/// beginnings of the third, the second and the first.
pub open spec fn triple_starts(s: Seq<char>, to: int) -> (int, int, int) {
    let third = run_start(s, to);
    let second = run_start(s, third - 1);
    let first = run_start(s, second - 1);
    (third, second, first)
}

/// Three numbers with `sep` between them, before which stands a character that
/// is no digit, begin where `triple_starts` says.
pub proof fn lemma_triple_starts(s: Seq<char>, from: int, a: int, b: int, to: int, sep: char)
    requires
        is_triple(s, from, a, b, to, sep),
        !is_digit(sep),
        from > 0 ==> !is_digit(s[from - 1]),
    ensures
        triple_starts(s, to) == (b + 1, a + 1, from),
{
    lemma_run_start_is(s, b + 1, to);
    lemma_run_start_is(s, a + 1, b);
    lemma_run_start_is(s, from, a);
}

/// An annotation stands where reading the message from its end finds it.
pub proof fn lemma_annotation_found(s: Seq<char>, start: int, count_end: int, date_end: int)
    requires
        annotation_at(s, start, count_end, date_end),
    ensures
        ({
            let (_, _, hour) = triple_starts(s, s.len() - 1);
            let (_, _, day) = triple_starts(s, hour - 1);
            &&& date_end == hour - 1
            &&& count_end == day - 16
            &&& start == run_start(s, day - 16) - 2
        }),
{
    let n = s.len() as int;
    let hour = date_end + 1;
    let (ta, tb) = choose|a: int, b: int| #[trigger] is_triple(s, hour, a, b, n - 1, ':');
    lemma_triple_starts(s, hour, ta, tb, n - 1, ':');
    let day = count_end + 16;
    let (da, db) = choose|a: int, b: int| #[trigger] is_triple(s, day, a, b, date_end, '.');
    assert(s[count_end + 15] == s.subrange(count_end, count_end + 16)[15]);
    lemma_triple_starts(s, day, da, db, date_end, '.');
    lemma_run_start_is(s, start + 2, count_end);
}

/// A message has one annotation at most.
pub proof fn lemma_annotation_unique(
    s: Seq<char>,
    start: int,
    count_end: int,
    date_end: int,
    start2: int,
    count_end2: int,
    date_end2: int,
)
    requires
        annotation_at(s, start, count_end, date_end),
        annotation_at(s, start2, count_end2, date_end2),
    ensures
        start == start2,
        count_end == count_end2,
        date_end == date_end2,
{
    lemma_annotation_found(s, start, count_end, date_end);
    lemma_annotation_found(s, start2, count_end2, date_end2);
}

/// Where the digits begin that end just before `to`.
fn digits_before(s: &[char], to: usize) -> (from: usize)
    requires
        to <= s.len(),
    ensures
        from == run_start(s@, to as int),
        from <= to,
{
    let mut from = to;
    while from > 0 && is_ascii_digit(s[from - 1])
        invariant
            from <= to <= s.len(),
            run_start(s@, from as int) == run_start(s@, to as int),
        decreases from,
    {
        from -= 1;
    }
    proof {
        lemma_run_start(s@, to as int);
    }
    from
}

/// Where three numbers begin that end just before `to` and have `sep` between
/// them: the beginning of the first, and those of the second and the third.
fn triple_before(s: &[char], to: usize, sep: char) -> (found: Option<(usize, usize, usize)>)
    requires
        to <= s.len(),
        !is_digit(sep),
    ensures
        match found {
            Some((first, second, third)) => {
                &&& is_triple(s@, first as int, second - 1, third - 1, to as int, sep)
                &&& triple_starts(s@, to as int) == (third as int, second as int, first as int)
            },
            None => forall|from: int|
                !(#[trigger] triple_in(s@, from, to as int, sep) && (from > 0 ==> !is_digit(
                    s@[from - 1],
                ))),
        },
{
    proof {
        assert forall|from: int|
            #[trigger] triple_in(s@, from, to as int, sep) && (from > 0 ==> !is_digit(
                s@[from - 1],
            )) implies ({
            let (third, second, first) = triple_starts(s@, to as int);
            &&& first == from
            &&& first < second - 1
            &&& second < third - 1
            &&& third < to
            &&& s@[second - 1] == sep
            &&& s@[third - 1] == sep
        }) by {
            let (a, b) = choose|a: int, b: int|
                #[trigger] is_triple(s@, from, a, b, to as int, sep);
            lemma_triple_starts(s@, from, a, b, to as int, sep);
        }
    }
    let third = digits_before(s, to);
    if third == to || third == 0 || s[third - 1] != sep {
        return None;
    }
    let second = digits_before(s, third - 1);
    if second == third - 1 || second == 0 || s[second - 1] != sep {
        return None;
    }
    let first = digits_before(s, second - 1);
    if first == second - 1 {
        return None;
    }
    proof {
        lemma_run_start(s@, to as int);
        lemma_run_start(s@, third - 1);
        lemma_run_start(s@, second - 1);
    }
    Some((first, second, third))
}

/// Whether `s[at..at + 16]` is `" Meldungen seit "`.
fn is_marker_at(s: &[char], at: usize) -> (is: bool)
    requires
        at + 16 <= s.len(),
    ensures
        is == (s@.subrange(at as int, at + 16) == since_marker()),
{
    let ghost part = s@.subrange(at as int, at + 16);
    let is = s[at] == ' ' && s[at + 1] == 'M' && s[at + 2] == 'e' && s[at + 3] == 'l' && s[at + 4]
        == 'd' && s[at + 5] == 'u' && s[at + 6] == 'n' && s[at + 7] == 'g' && s[at + 8] == 'e'
        && s[at + 9] == 'n' && s[at + 10] == ' ' && s[at + 11] == 's' && s[at + 12] == 'e' && s[at
        + 13] == 'i' && s[at + 14] == 't' && s[at + 15] == ' ';
    proof {
        assert(part[0] == s@[at + 0] && part[1] == s@[at + 1] && part[2] == s@[at + 2] && part[3]
            == s@[at + 3] && part[4] == s@[at + 4] && part[5] == s@[at + 5] && part[6] == s@[at
            + 6] && part[7] == s@[at + 7]);
        assert(part[8] == s@[at + 8] && part[9] == s@[at + 9] && part[10] == s@[at + 10]
            && part[11] == s@[at + 11] && part[12] == s@[at + 12] && part[13] == s@[at + 13]
            && part[14] == s@[at + 14] && part[15] == s@[at + 15]);
        if is {
            assert(part =~= since_marker());
        }
    }
    is
}

/// Finds the annotation that ends `s`.
pub fn find_annotation(s: &[char]) -> (found: Option<Annotation>)
    ensures
        match found {
            Some(annotation) => annotation.is_in(s@),
            None => !has_annotation(s@),
        },
{
    let n = s.len();
    proof {
        // Whatever annotation there is stands where the checks below look for it.
        assert forall|start: int, count_end: int, date_end: int| #[trigger]
            annotation_at(s@, start, count_end, date_end) implies ({
            let (_, _, hour) = triple_starts(s@, n - 1);
            let (_, _, day) = triple_starts(s@, hour - 1);
            &&& n > 0
            &&& s@[n - 1] == ']'
            &&& triple_in(s@, hour, n - 1, ':')
            &&& !is_digit(s@[hour - 1])
            &&& date_end == hour - 1
            &&& s@[hour - 1] == ' '
            &&& triple_in(s@, day, hour - 1, '.')
            &&& !is_digit(s@[day - 1])
            &&& day >= 16
            &&& count_end == day - 16
            &&& s@.subrange(day - 16, day as int) == since_marker()
            &&& start == run_start(s@, day - 16) - 2
            &&& start >= 0
            &&& start + 2 < day - 16
            &&& s@[start] == ' '
            &&& s@[start + 1] == '['
        }) by {
            lemma_annotation_found(s@, start, count_end, date_end);
            assert(s@[count_end + 15] == s@.subrange(count_end, count_end + 16)[15]);
        }
    }
    if n == 0 || s[n - 1] != ']' {
        return None;
    }
    let hour = match triple_before(s, n - 1, ':') {
        Some((hour, _, _)) => hour,
        None => {
            return None;
        },
    };
    if hour == 0 || s[hour - 1] != ' ' {
        return None;
    }
    let date_end = hour - 1;
    let day = match triple_before(s, date_end, '.') {
        Some((day, _, _)) => day,
        None => {
            return None;
        },
    };
    if day < 16 || !is_marker_at(s, day - 16) {
        return None;
    }
    let count_end = day - 16;
    let count = digits_before(s, count_end);
    if count == count_end || count < 2 || s[count - 1] != '[' || s[count - 2] != ' ' {
        return None;
    }
    proof {
        lemma_run_start(s@, count_end as int);
    }
    Some(Annotation { start: count - 2, count_end, date_end })
}

} // verus!
