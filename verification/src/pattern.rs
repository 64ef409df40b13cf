//! Labelled values in free text: the first place at which a label stands with a
//! value of the expected kind behind it.
//!
//! A value is a run of characters of one class, as long as it can be: decimal
//! digits, or decimal digits and dots.

use crate::text::{is_ascii_digit, is_digit, same_chars};
use vstd::prelude::*;

verus! {

/// The characters that a value may hold.
#[derive(Debug, PartialEq, Eq, Structural, Clone, Copy, Hash)]
pub enum CharClass {
    /// The decimal digits.
    Digits,
    /// The decimal digits and the dot.
    DigitsAndDots,
}

impl CharClass {
    pub open spec fn spec_holds(&self, c: char) -> bool {
        match *self {
            CharClass::Digits => is_digit(c),
            CharClass::DigitsAndDots => is_digit(c) || c == '.',
        }
    }

    /// Whether `c` belongs to the class.
    #[verifier::when_used_as_spec(spec_holds)]
    pub fn holds(&self, c: char) -> (belongs: bool)
        ensures
            belongs == self.spec_holds(c),
    {
        match *self {
            CharClass::Digits => is_ascii_digit(c),
            CharClass::DigitsAndDots => is_ascii_digit(c) || c == '.',
        }
    }
}

/// `s` holds the characters of `literal` from `at` on.
pub open spec fn has_at(s: Seq<char>, literal: Seq<char>, at: int) -> bool {
    0 <= at && at + literal.len() <= s.len() && s.subrange(at, at + literal.len()) == literal
}

/// Where the run of characters of `class` ends that begins at `from`: `from`
/// itself if there is none.
pub open spec fn run_end(s: Seq<char>, class: CharClass, from: int) -> int
    decreases s.len() - from,
{
    if 0 <= from < s.len() && class.spec_holds(s[from]) {
        run_end(s, class, from + 1)
    } else {
        from
    }
}

/// A place in a text, from `from` up to `to`.
pub struct Span {
    pub from: int,
    pub to: int,
}

/// The value behind `label`, if `label` stands at `at` with a value behind it.
pub open spec fn value_at(s: Seq<char>, label: Seq<char>, class: CharClass, at: int) -> Option<
    Span,
> {
    let from = at + label.len();
    let to = run_end(s, class, from);
    if has_at(s, label, at) && from < to {
        Some(Span { from, to })
    } else {
        None
    }
}

/// The two values behind `label`, if `label` stands at `at` with a value behind
/// it, then `between`, a second value and `behind`.
pub open spec fn pair_at(
    s: Seq<char>,
    label: Seq<char>,
    between: Seq<char>,
    behind: Seq<char>,
    class: CharClass,
    at: int,
) -> Option<(Span, Span)> {
    match value_at(s, label, class, at) {
        None => None,
        Some(first) => match value_at(s, between, class, first.to) {
            None => None,
            Some(second) => if has_at(s, behind, second.to) {
                Some((first, second))
            } else {
                None
            },
        },
    }
}

/// `at` is the first place at which `label` stands with a value behind it.
pub open spec fn is_first_value(s: Seq<char>, label: Seq<char>, class: CharClass, at: int) -> bool {
    &&& value_at(s, label, class, at) is Some
    &&& forall|k: int| 0 <= k < at ==> value_at(s, label, class, k) is None
}

/// The value behind the first `label` that has one.
pub open spec fn spec_find_value(s: Seq<char>, label: Seq<char>, class: CharClass) -> Option<Span> {
    if exists|at: int| is_first_value(s, label, class, at) {
        value_at(s, label, class, choose|at: int| is_first_value(s, label, class, at))
    } else {
        None
    }
}

/// `at` is the first place at which `label` stands with two values behind it.
pub open spec fn is_first_pair(
    s: Seq<char>,
    label: Seq<char>,
    between: Seq<char>,
    behind: Seq<char>,
    class: CharClass,
    at: int,
) -> bool {
    &&& pair_at(s, label, between, behind, class, at) is Some
    &&& forall|k: int| 0 <= k < at ==> pair_at(s, label, between, behind, class, k) is None
}

/// The two values behind the first `label` that has two.
pub open spec fn spec_find_pair(
    s: Seq<char>,
    label: Seq<char>,
    between: Seq<char>,
    behind: Seq<char>,
    class: CharClass,
) -> Option<(Span, Span)> {
    if exists|at: int| is_first_pair(s, label, between, behind, class, at) {
        pair_at(
            s,
            label,
            between,
            behind,
            class,
            choose|at: int| is_first_pair(s, label, between, behind, class, at),
        )
    } else {
        None
    }
}

/// The first place with a value is the one that a search finds.
pub proof fn lemma_first_value(s: Seq<char>, label: Seq<char>, class: CharClass, at: int)
    requires
        is_first_value(s, label, class, at),
    ensures
        spec_find_value(s, label, class) == value_at(s, label, class, at),
{
    let chosen = choose|k: int| is_first_value(s, label, class, k);
    if chosen < at {
        assert(value_at(s, label, class, chosen) is None);
    } else if at < chosen {
        assert(value_at(s, label, class, at) is None);
    }
}

/// The first place with two values is the one that a search finds.
pub proof fn lemma_first_pair(
    s: Seq<char>,
    label: Seq<char>,
    between: Seq<char>,
    behind: Seq<char>,
    class: CharClass,
    at: int,
)
    requires
        is_first_pair(s, label, between, behind, class, at),
    ensures
        spec_find_pair(s, label, between, behind, class) == pair_at(
            s,
            label,
            between,
            behind,
            class,
            at,
        ),
{
    let chosen = choose|k: int| is_first_pair(s, label, between, behind, class, k);
    if chosen < at {
        assert(pair_at(s, label, between, behind, class, chosen) is None);
    } else if at < chosen {
        assert(pair_at(s, label, between, behind, class, at) is None);
    }
}

/// No label stands with a value behind it where the text has ended.
pub proof fn lemma_no_value_outside(s: Seq<char>, label: Seq<char>, class: CharClass, at: int)
    requires
        at < 0 || at >= s.len(),
    ensures
        value_at(s, label, class, at) is None,
{
    if at >= s.len() as int && has_at(s, label, at) {
        assert(run_end(s, class, at + label.len()) == at + label.len());
    }
}

/// Whether `s` holds the characters of `literal` from `at` on.
pub fn holds_at(s: &[char], literal: &[char], at: usize) -> (holds: bool)
    ensures
        holds == has_at(s@, literal@, at as int),
{
    if at > s.len() || literal.len() > s.len() - at {
        return false;
    }
    same_chars(s, at, at + literal.len(), literal)
}

/// Where the run of characters of `class` ends that begins at `from`.
pub fn end_of_run(s: &[char], class: CharClass, from: usize) -> (to: usize)
    requires
        from <= s.len(),
    ensures
        to == run_end(s@, class, from as int),
        from <= to <= s.len(),
{
    let mut to = from;
    while to < s.len() && class.holds(s[to])
        invariant
            from <= to <= s.len(),
            run_end(s@, class, to as int) == run_end(s@, class, from as int),
        decreases s.len() - to,
    {
        to += 1;
    }
    to
}

/// The value behind `label`, if `label` stands at `at` with a value behind it.
pub fn read_value_at(s: &[char], label: &[char], class: CharClass, at: usize) -> (value: Option<
    (usize, usize),
>)
    ensures
        match value {
            Some((from, to)) => value_at(s@, label@, class, at as int) == Some(
                Span { from: from as int, to: to as int },
            ) && from < to <= s@.len(),
            None => value_at(s@, label@, class, at as int).is_none(),
        },
{
    if !holds_at(s, label, at) {
        return None;
    }
    assert(at + label@.len() <= s.len());
    let from = at + label.len();
    let to = end_of_run(s, class, from);
    if from < to {
        Some((from, to))
    } else {
        None
    }
}

/// The two values behind `label`, if `label` stands at `at` with a value behind
/// it, then `between`, a second value and `behind`.
pub fn read_pair_at(
    s: &[char],
    label: &[char],
    between: &[char],
    behind: &[char],
    class: CharClass,
    at: usize,
) -> (pair: Option<((usize, usize), (usize, usize))>)
    ensures
        match pair {
            Some((first, second)) => {
                &&& pair_at(s@, label@, between@, behind@, class, at as int) == Some(
                    (
                        Span { from: first.0 as int, to: first.1 as int },
                        Span { from: second.0 as int, to: second.1 as int },
                    ),
                )
                &&& first.0 < first.1 <= s@.len()
                &&& second.0 < second.1 <= s@.len()
            },
            None => pair_at(s@, label@, between@, behind@, class, at as int).is_none(),
        },
{
    let first = match read_value_at(s, label, class, at) {
        Some(first) => first,
        None => {
            return None;
        },
    };
    let second = match read_value_at(s, between, class, first.1) {
        Some(second) => second,
        None => {
            return None;
        },
    };
    if !holds_at(s, behind, second.1) {
        return None;
    }
    Some((first, second))
}

/// Finds the value behind the first `label` that has one: where it begins and
/// where it ends.
pub fn find_value(s: &[char], label: &[char], class: CharClass) -> (value: Option<(usize, usize)>)
    ensures
        match value {
            Some((from, to)) => spec_find_value(s@, label@, class) == Some(
                Span { from: from as int, to: to as int },
            ) && from < to <= s@.len(),
            None => spec_find_value(s@, label@, class).is_none(),
        },
{
    let mut at: usize = 0;
    while at < s.len()
        invariant
            at <= s.len(),
            forall|k: int| 0 <= k < at ==> value_at(s@, label@, class, k) is None,
        decreases s.len() - at,
    {
        match read_value_at(s, label, class, at) {
            Some(value) => {
                proof {
                    lemma_first_value(s@, label@, class, at as int);
                }
                return Some(value);
            },
            None => {},
        }
        at += 1;
    }
    proof {
        assert forall|k: int| !is_first_value(s@, label@, class, k) by {
            if k < 0 || k >= s@.len() {
                lemma_no_value_outside(s@, label@, class, k);
            }
        }
    }
    None
}

/// Finds the two values behind the first `label` that has two, `between` between
/// them and `behind` behind them.
pub fn find_pair(
    s: &[char],
    label: &[char],
    between: &[char],
    behind: &[char],
    class: CharClass,
) -> (pair: Option<((usize, usize), (usize, usize))>)
    ensures
        match pair {
            Some((first, second)) => {
                &&& spec_find_pair(s@, label@, between@, behind@, class) == Some(
                    (
                        Span { from: first.0 as int, to: first.1 as int },
                        Span { from: second.0 as int, to: second.1 as int },
                    ),
                )
                &&& first.0 < first.1 <= s@.len()
                &&& second.0 < second.1 <= s@.len()
            },
            None => spec_find_pair(s@, label@, between@, behind@, class).is_none(),
        },
{
    let mut at: usize = 0;
    while at < s.len()
        invariant
            at <= s.len(),
            forall|k: int|
                0 <= k < at ==> pair_at(s@, label@, between@, behind@, class, k) is None,
        decreases s.len() - at,
    {
        match read_pair_at(s, label, between, behind, class, at) {
            Some(pair) => {
                proof {
                    lemma_first_pair(s@, label@, between@, behind@, class, at as int);
                }
                return Some(pair);
            },
            None => {},
        }
        at += 1;
    }
    proof {
        assert forall|k: int| !is_first_pair(s@, label@, between@, behind@, class, k) by {
            if k < 0 || k >= s@.len() {
                lemma_no_value_outside(s@, label@, class, k);
            }
        }
    }
    None
}

} // verus!
