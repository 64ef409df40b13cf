//! Text as sequences of characters: decimal digits, the numbers they spell, and
//! the fields of a string between separators.

use vstd::prelude::*;

verus! {

/// `c` is one of the ten ASCII digits.
pub open spec fn is_digit(c: char) -> bool {
    '0' <= c && c <= '9'
}

/// The number that the digit `c` stands for.
pub open spec fn digit_value(c: char) -> nat {
    (c as int - '0' as int) as nat
}

/// Every character of `s` is a digit. The empty string counts.
pub open spec fn all_digits(s: Seq<char>) -> bool {
    forall|i: int| 0 <= i < s.len() ==> is_digit(#[trigger] s[i])
}

/// `s` spells a number: one digit or more, and nothing else.
pub open spec fn is_number(s: Seq<char>) -> bool {
    s.len() > 0 && all_digits(s)
}

/// The number that the digits of `s` spell in base ten; 0 for the empty string.
pub open spec fn decimal_value(s: Seq<char>) -> nat
    decreases s.len(),
{
    if s.len() == 0 {
        0
    } else {
        decimal_value(s.drop_last()) * 10 + digit_value(s.last())
    }
}

/// The integer that `s` spells: digits with at most one sign in front, `+` or `-`.
pub open spec fn spec_parse_int(s: Seq<char>) -> Option<int> {
    if s.len() > 0 && s[0] == '-' {
        if is_number(s.skip(1)) {
            Some(-(decimal_value(s.skip(1)) as int))
        } else {
            None
        }
    } else if s.len() > 0 && s[0] == '+' {
        if is_number(s.skip(1)) {
            Some(decimal_value(s.skip(1)) as int)
        } else {
            None
        }
    } else if is_number(s) {
        Some(decimal_value(s) as int)
    } else {
        None
    }
}

/// The `i64` that `s` spells, if it spells an integer that an `i64` can hold.
pub open spec fn spec_parse_i64(s: Seq<char>) -> Option<i64> {
    match spec_parse_int(s) {
        Some(v) if i64::MIN <= v <= i64::MAX => Some(v as i64),
        _ => None,
    }
}

/// The `i32` that `s` spells, if it spells an integer that an `i32` can hold.
pub open spec fn spec_parse_i32(s: Seq<char>) -> Option<i32> {
    match spec_parse_int(s) {
        Some(v) if i32::MIN <= v <= i32::MAX => Some(v as i32),
        _ => None,
    }
}

/// The `u64` that `s` spells, if it spells an integer without a `-` sign that a
/// `u64` can hold.
pub open spec fn spec_parse_u64(s: Seq<char>) -> Option<u64> {
    if s.len() > 0 && s[0] == '-' {
        None
    } else {
        match spec_parse_int(s) {
            Some(v) if v <= u64::MAX => Some(v as u64),
            _ => None,
        }
    }
}

/// The `u32` that `s` spells, if it spells an integer without a `-` sign that a
/// `u32` can hold.
pub open spec fn spec_parse_u32(s: Seq<char>) -> Option<u32> {
    if s.len() > 0 && s[0] == '-' {
        None
    } else {
        match spec_parse_int(s) {
            Some(v) if v <= u32::MAX => Some(v as u32),
            _ => None,
        }
    }
}

/// The fields of `s` between the separators `sep`: one more than there are
/// separators, some of them empty where separators stand side by side or at an
/// end.
pub open spec fn spec_split(s: Seq<char>, sep: char) -> Seq<Seq<char>>
    decreases s.len(),
{
    if s.len() == 0 {
        seq![Seq::empty()]
    } else {
        let before = spec_split(s.drop_last(), sep);
        if s.last() == sep {
            before.push(Seq::empty())
        } else {
            before.drop_last().push(before.last().push(s.last()))
        }
    }
}

/// `s` begins with the characters of `prefix`.
pub open spec fn begins_with(s: Seq<char>, prefix: Seq<char>) -> bool {
    prefix.len() <= s.len() && s.subrange(0, prefix.len() as int) == prefix
}

/// A number does not shrink when digits are added behind it.
pub proof fn lemma_decimal_value_grows(s: Seq<char>, k: int)
    requires
        0 <= k <= s.len(),
    ensures
        decimal_value(s.take(k)) <= decimal_value(s),
    decreases s.len() - k,
{
    if k < s.len() {
        lemma_decimal_value_grows(s, k + 1);
        assert(s.take(k + 1).drop_last() =~= s.take(k));
    } else {
        assert(s.take(k) =~= s);
    }
}

/// The value of a digit string with one more digit read.
pub proof fn lemma_decimal_value_step(s: Seq<char>, k: int)
    requires
        0 <= k < s.len(),
    ensures
        decimal_value(s.take(k + 1)) == decimal_value(s.take(k)) * 10 + digit_value(s[k]),
{
    assert(s.take(k + 1).drop_last() =~= s.take(k));
}

/// The characters of `s`, one by one.
pub fn to_chars(s: &str) -> (chars: Vec<char>)
    ensures
        chars@ == s@,
{
    let mut chars: Vec<char> = Vec::new();
    for c in it: s.chars()
        invariant
            chars@ == it.seq().take(it.index() as int),
            it.seq() == s@,
    {
        chars.push(c);
    }
    chars
}

/// Whether `c` is one of the ten ASCII digits.
pub fn is_ascii_digit(c: char) -> (digit: bool)
    ensures
        digit == is_digit(c),
{
    '0' <= c && c <= '9'
}

/// The number that `s[from..to]` spells, if it spells one that is `limit` at
/// most.
pub fn parse_number(s: &[char], from: usize, to: usize, limit: u64) -> (value: Option<u64>)
    requires
        from <= to <= s.len(),
    ensures
        value == if is_number(s@.subrange(from as int, to as int)) && decimal_value(
            s@.subrange(from as int, to as int),
        ) <= limit {
            Some(decimal_value(s@.subrange(from as int, to as int)) as u64)
        } else {
            None
        },
{
    let ghost text = s@.subrange(from as int, to as int);
    if from == to {
        return None;
    }
    let mut acc: u64 = 0;
    let mut i: usize = from;
    while i < to
        invariant
            from <= i <= to <= s.len(),
            text == s@.subrange(from as int, to as int),
            all_digits(text.take(i - from)),
            acc == decimal_value(text.take(i - from)),
            acc <= limit,
        decreases to - i,
    {
        let c = s[i];
        assert(text[i - from] == c);
        if !is_ascii_digit(c) {
            return None;
        }
        let digit: u64 = (c as u32 - '0' as u32) as u64;
        proof {
            lemma_decimal_value_step(text, i - from);
            lemma_decimal_value_grows(text, i - from + 1);
        }
        let next: u128 = acc as u128 * 10 + digit as u128;
        if next > limit as u128 {
            return None;
        }
        acc = acc * 10 + digit;
        proof {
            assert forall|k: int| 0 <= k < i - from + 1 implies is_digit(
                #[trigger] text.take(i - from + 1)[k],
            ) by {
                if k < i - from {
                    assert(text.take(i - from)[k] == text[k]);
                }
            }
        }
        i += 1;
    }
    assert(text.take(to - from) =~= text);
    Some(acc)
}

/// The `i64` that `s[from..to]` spells.
pub fn parse_i64_in(s: &[char], from: usize, to: usize) -> (value: Option<i64>)
    requires
        from <= to <= s.len(),
    ensures
        value == spec_parse_i64(s@.subrange(from as int, to as int)),
{
    let ghost text = s@.subrange(from as int, to as int);
    if from == to {
        return None;
    }
    assert(text.skip(1) =~= s@.subrange(from + 1, to as int));
    assert(text[0] == s@[from as int]);
    if s[from] == '-' {
        match parse_number(s, from + 1, to, 0x8000_0000_0000_0000u64) {
            Some(magnitude) => if magnitude == 0x8000_0000_0000_0000u64 {
                Some(i64::MIN)
            } else {
                Some(-(magnitude as i64))
            },
            None => None,
        }
    } else if s[from] == '+' {
        match parse_number(s, from + 1, to, 0x7fff_ffff_ffff_ffffu64) {
            Some(magnitude) => Some(magnitude as i64),
            None => None,
        }
    } else {
        match parse_number(s, from, to, 0x7fff_ffff_ffff_ffffu64) {
            Some(magnitude) => Some(magnitude as i64),
            None => None,
        }
    }
}

/// The `i32` that `s[from..to]` spells.
pub fn parse_i32_in(s: &[char], from: usize, to: usize) -> (value: Option<i32>)
    requires
        from <= to <= s.len(),
    ensures
        value == spec_parse_i32(s@.subrange(from as int, to as int)),
{
    let ghost text = s@.subrange(from as int, to as int);
    if from == to {
        return None;
    }
    assert(text.skip(1) =~= s@.subrange(from + 1, to as int));
    assert(text[0] == s@[from as int]);
    if s[from] == '-' {
        match parse_number(s, from + 1, to, 0x8000_0000u64) {
            Some(magnitude) => if magnitude == 0x8000_0000u64 {
                Some(i32::MIN)
            } else {
                Some(-(magnitude as i32))
            },
            None => None,
        }
    } else if s[from] == '+' {
        match parse_number(s, from + 1, to, 0x7fff_ffffu64) {
            Some(magnitude) => Some(magnitude as i32),
            None => None,
        }
    } else {
        match parse_number(s, from, to, 0x7fff_ffffu64) {
            Some(magnitude) => Some(magnitude as i32),
            None => None,
        }
    }
}

/// The `u32` that `s[from..to]` spells.
pub fn parse_u32_in(s: &[char], from: usize, to: usize) -> (value: Option<u32>)
    requires
        from <= to <= s.len(),
    ensures
        value == spec_parse_u32(s@.subrange(from as int, to as int)),
{
    let ghost text = s@.subrange(from as int, to as int);
    if from == to {
        return None;
    }
    assert(text.skip(1) =~= s@.subrange(from + 1, to as int));
    assert(text[0] == s@[from as int]);
    if s[from] == '-' {
        None
    } else if s[from] == '+' {
        match parse_number(s, from + 1, to, 0xffff_ffffu64) {
            Some(magnitude) => Some(magnitude as u32),
            None => None,
        }
    } else {
        match parse_number(s, from, to, 0xffff_ffffu64) {
            Some(magnitude) => Some(magnitude as u32),
            None => None,
        }
    }
}

/// The `u64` that `s[from..to]` spells.
pub fn parse_u64_in(s: &[char], from: usize, to: usize) -> (value: Option<u64>)
    requires
        from <= to <= s.len(),
    ensures
        value == spec_parse_u64(s@.subrange(from as int, to as int)),
{
    let ghost text = s@.subrange(from as int, to as int);
    if from == to {
        return None;
    }
    assert(text.skip(1) =~= s@.subrange(from + 1, to as int));
    assert(text[0] == s@[from as int]);
    if s[from] == '-' {
        None
    } else if s[from] == '+' {
        parse_number(s, from + 1, to, 0xffff_ffff_ffff_ffffu64)
    } else {
        parse_number(s, from, to, 0xffff_ffff_ffff_ffffu64)
    }
}

/// The `u64` that `s` spells: digits, with a `+` in front at most.
pub fn parse_u64(s: &str) -> (value: Option<u64>)
    ensures
        value == spec_parse_u64(s@),
{
    let chars = to_chars(s);
    assert(chars@.subrange(0, chars@.len() as int) =~= s@);
    parse_u64_in(chars.as_slice(), 0, chars.len())
}

/// The `i64` that `s` spells: digits, with one sign in front at most.
pub fn parse_i64(s: &str) -> (value: Option<i64>)
    ensures
        value == spec_parse_i64(s@),
{
    let chars = to_chars(s);
    assert(chars@.subrange(0, chars@.len() as int) =~= s@);
    parse_i64_in(chars.as_slice(), 0, chars.len())
}

/// The `i32` that `s` spells: digits, with one sign in front at most.
pub fn parse_i32(s: &str) -> (value: Option<i32>)
    ensures
        value == spec_parse_i32(s@),
{
    let chars = to_chars(s);
    assert(chars@.subrange(0, chars@.len() as int) =~= s@);
    parse_i32_in(chars.as_slice(), 0, chars.len())
}

/// The `u32` that `s` spells: digits, with a `+` in front at most.
pub fn parse_u32(s: &str) -> (value: Option<u32>)
    ensures
        value == spec_parse_u32(s@),
{
    let chars = to_chars(s);
    assert(chars@.subrange(0, chars@.len() as int) =~= s@);
    parse_u32_in(chars.as_slice(), 0, chars.len())
}

/// `fields` are the places of the fields of `s` between the separators `sep`: the
/// first begins where `s` begins, each ends at a separator behind which the next
/// begins, and the last ends where `s` ends.
pub open spec fn is_split(s: Seq<char>, sep: char, fields: Seq<(usize, usize)>) -> bool {
    &&& fields.len() == spec_split(s, sep).len()
    &&& fields.len() >= 1
    &&& fields[0].0 == 0
    &&& fields[fields.len() - 1].1 == s.len()
    &&& forall|k: int|
        0 <= k < fields.len() ==> {
            &&& (#[trigger] fields[k]).0 <= fields[k].1 <= s.len()
            &&& s.subrange(fields[k].0 as int, fields[k].1 as int) == spec_split(s, sep)[k]
        }
    &&& forall|k: int|
        0 <= k < fields.len() - 1 ==> {
            &&& s[(#[trigger] fields[k]).1 as int] == sep
            &&& fields[k + 1].0 == fields[k].1 + 1
        }
}

/// Where the fields of `s` between the separators `sep` begin and end.
pub fn split(s: &[char], sep: char) -> (fields: Vec<(usize, usize)>)
    ensures
        is_split(s@, sep, fields@),
{
    let mut fields: Vec<(usize, usize)> = Vec::new();
    let mut start: usize = 0;
    let mut i: usize = 0;
    assert(s@.take(0) =~= Seq::<char>::empty());
    assert(s@.subrange(0, 0) =~= Seq::<char>::empty());
    while i < s.len()
        invariant
            start <= i <= s.len(),
            fields@.len() + 1 == spec_split(s@.take(i as int), sep).len(),
            spec_split(s@.take(i as int), sep).last() == s@.subrange(start as int, i as int),
            fields@.len() == 0 ==> start == 0,
            fields@.len() > 0 ==> fields@[0].0 == 0 && start == fields@[fields@.len()
                - 1].1 + 1,
            forall|k: int|
                0 <= k < fields@.len() ==> {
                    &&& (#[trigger] fields@[k]).0 <= fields@[k].1 < s@.len()
                    &&& s@[fields@[k].1 as int] == sep
                    &&& s@.subrange(fields@[k].0 as int, fields@[k].1 as int) == spec_split(
                        s@.take(i as int),
                        sep,
                    )[k]
                },
            forall|k: int|
                0 <= k < fields@.len() - 1 ==> (#[trigger] fields@[k + 1]).0 == fields@[k].1 + 1,
        decreases s.len() - i,
    {
        proof {
            assert(s@.take(i + 1).drop_last() =~= s@.take(i as int));
            assert(s@.take(i + 1).last() == s@[i as int]);
        }
        if s[i] == sep {
            fields.push((start, i));
            start = i + 1;
            proof {
                assert(s@.subrange(start as int, i + 1) =~= Seq::<char>::empty());
            }
        } else {
            proof {
                assert(s@.subrange(start as int, i + 1) =~= s@.subrange(
                    start as int,
                    i as int,
                ).push(s@[i as int]));
            }
        }
        i += 1;
    }
    proof {
        assert(s@.take(i as int) =~= s@);
    }
    fields.push((start, i));
    fields
}

/// Whether `a[from..to]` and `b` hold the same characters.
pub fn same_chars(a: &[char], from: usize, to: usize, b: &[char]) -> (same: bool)
    requires
        from <= to <= a.len(),
    ensures
        same == (a@.subrange(from as int, to as int) == b@),
{
    let ghost part = a@.subrange(from as int, to as int);
    if to - from != b.len() {
        return false;
    }
    let mut i: usize = 0;
    while i < b.len()
        invariant
            i <= b.len(),
            from <= to <= a.len(),
            to - from == b.len(),
            part == a@.subrange(from as int, to as int),
            forall|k: int| 0 <= k < i ==> part[k] == b@[k],
        decreases b.len() - i,
    {
        if a[from + i] != b[i] {
            assert(part[i as int] != b@[i as int]);
            return false;
        }
        i += 1;
    }
    assert(part =~= b@);
    true
}

/// The characters `s[from..to]`.
pub fn copy_range(s: &[char], from: usize, to: usize) -> (part: Vec<char>)
    requires
        from <= to <= s.len(),
    ensures
        part@ == s@.subrange(from as int, to as int),
{
    let mut part: Vec<char> = Vec::new();
    let mut i: usize = from;
    while i < to
        invariant
            from <= i <= to <= s.len(),
            part@ == s@.subrange(from as int, i as int),
        decreases to - i,
    {
        part.push(s[i]);
        i += 1;
    }
    part
}

/// Whether `a` and `b` hold the same characters.
pub fn same_text(a: &str, b: &str) -> (same: bool)
    ensures
        same == (a@ == b@),
{
    let a_chars = to_chars(a);
    let b_chars = to_chars(b);
    assert(a_chars@.subrange(0, a_chars@.len() as int) =~= a@);
    same_chars(a_chars.as_slice(), 0, a_chars.len(), b_chars.as_slice())
}

/// Whether `s` begins with the characters of `prefix`.
pub fn starts_with(s: &[char], prefix: &[char]) -> (starts: bool)
    ensures
        starts == begins_with(s@, prefix@),
{
    if prefix.len() > s.len() {
        return false;
    }
    same_chars(s, 0, prefix.len(), prefix)
}

} // verus!
