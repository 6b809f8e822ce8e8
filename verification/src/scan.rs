//! Scanning byte strings: the first place where a pattern occurs, blanks at
//! the ends, percent escapes, decimal numbers, and names compared without
//! regard to the case of their letters.

use vstd::prelude::*;
use vstd::slice::slice_subrange;

verus! {

/// The space.
pub const SP: u8 = 32;

/// The horizontal tab.
pub const HTAB: u8 = 9;

/// The percent sign, which opens an escape.
pub const PERCENT: u8 = 37;

/// Whether `pattern` stands in `s` at index `i`.
pub open spec fn occurs_at(s: Seq<u8>, pattern: Seq<u8>, i: int) -> bool {
    0 <= i && i + pattern.len() <= s.len() && s.subrange(i, i + pattern.len()) =~= pattern
}

/// Whether `i` is the first index at which `pattern` stands in `s`.
pub open spec fn first_at(s: Seq<u8>, pattern: Seq<u8>, i: int) -> bool {
    occurs_at(s, pattern, i) && forall|j: int| 0 <= j < i ==> !occurs_at(s, pattern, j)
}

/// The first index at which `pattern` stands in `s`, where it stands anywhere.
pub open spec fn position_of(s: Seq<u8>, pattern: Seq<u8>) -> Option<int> {
    if exists|i: int| occurs_at(s, pattern, i) {
        Some(choose|i: int| first_at(s, pattern, i))
    } else {
        None
    }
}

/// The first occurrence is the position, and there is one position at most.
pub proof fn lemma_position_of(s: Seq<u8>, pattern: Seq<u8>, i: int)
    requires
        first_at(s, pattern, i),
    ensures
        position_of(s, pattern) == Some(i),
{
    let c = choose|c: int| first_at(s, pattern, c);
    assert(first_at(s, pattern, c));
}

/// What a position says of the sequence it was found in.
pub proof fn lemma_position_found(s: Seq<u8>, pattern: Seq<u8>)
    ensures
        position_of(s, pattern) matches Some(i) ==> first_at(s, pattern, i),
        position_of(s, pattern) is None ==> forall|i: int| !occurs_at(s, pattern, i),
{
    if exists|i: int| occurs_at(s, pattern, i) {
        let w = choose|i: int| occurs_at(s, pattern, i);
        lemma_first_exists(s, pattern, w);
    }
}

proof fn lemma_first_exists(s: Seq<u8>, pattern: Seq<u8>, w: int)
    requires
        occurs_at(s, pattern, w),
    ensures
        exists|i: int| first_at(s, pattern, i),
    decreases w,
{
    if exists|j: int| 0 <= j < w && occurs_at(s, pattern, j) {
        let j = choose|j: int| 0 <= j < w && occurs_at(s, pattern, j);
        lemma_first_exists(s, pattern, j);
    } else {
        assert(first_at(s, pattern, w));
    }
}

/// Whether `pattern` stands in `s` at index `at`.
fn matches_at(s: &[u8], pattern: &[u8], at: usize) -> (out: bool)
    requires
        at + pattern.len() <= s.len(),
    ensures
        out == occurs_at(s@, pattern@, at as int),
{
    let mut k: usize = 0;
    while k < pattern.len()
        invariant
            k <= pattern.len(),
            at + pattern.len() <= s.len(),
            forall|j: int| 0 <= j < k ==> s@[at + j] == pattern@[j],
        decreases pattern.len() - k,
    {
        if s[at + k] != pattern[k] {
            return false;
        }
        k += 1;
    }
    true
}

/// Finds the first index at which `pattern` stands in `s`.
pub fn find(s: &[u8], pattern: &[u8]) -> (out: Option<usize>)
    ensures
        position_of(s@, pattern@) == match out {
            Some(i) => Some(i as int),
            None => None,
        },
        out matches Some(i) ==> i + pattern@.len() <= s@.len() && first_at(
            s@,
            pattern@,
            i as int,
        ),
        out is None ==> forall|i: int| !occurs_at(s@, pattern@, i),
{
    if pattern.len() > s.len() {
        return None;
    }
    let last: usize = s.len() - pattern.len();
    let mut i: usize = 0;
    while i <= last
        invariant
            i <= last + 1,
            last == s.len() - pattern.len(),
            forall|j: int| 0 <= j < i ==> !occurs_at(s@, pattern@, j),
        decreases last + 1 - i,
    {
        if matches_at(s, pattern, i) {
            proof {
                lemma_position_of(s@, pattern@, i as int);
            }
            return Some(i);
        }
        i += 1;
    }
    None
}

/// Finds the first index at which the byte `b` stands in `s`.
pub fn find_byte(s: &[u8], b: u8) -> (out: Option<usize>)
    ensures
        position_of(s@, seq![b]) == match out {
            Some(i) => Some(i as int),
            None => None,
        },
        out matches Some(i) ==> i < s.len() && first_at(s@, seq![b], i as int),
        out is None ==> forall|i: int| !occurs_at(s@, seq![b], i),
{
    let mut pattern: Vec<u8> = Vec::new();
    pattern.push(b);
    find(s, pattern.as_slice())
}

/// Whether a byte is a blank: a space or a horizontal tab.
pub open spec fn is_blank(b: u8) -> bool {
    b == SP || b == HTAB
}

/// How many blanks `s` begins with.
pub open spec fn leading_blanks(s: Seq<u8>) -> nat
    decreases s.len(),
{
    if s.len() > 0 && is_blank(s[0]) {
        1 + leading_blanks(s.skip(1))
    } else {
        0
    }
}

/// How many blanks `s` ends with.
pub open spec fn trailing_blanks(s: Seq<u8>) -> nat
    decreases s.len(),
{
    if s.len() > 0 && is_blank(s.last()) {
        1 + trailing_blanks(s.drop_last())
    } else {
        0
    }
}

/// `s` without the blanks at its ends.
pub open spec fn trimmed(s: Seq<u8>) -> Seq<u8> {
    let rest = s.skip(leading_blanks(s) as int);
    rest.take(rest.len() - trailing_blanks(rest))
}

proof fn lemma_leading_blanks(s: Seq<u8>, n: int)
    requires
        0 <= n <= s.len(),
        forall|j: int| 0 <= j < n ==> is_blank(s[j]),
        n == s.len() || !is_blank(s[n]),
    ensures
        leading_blanks(s) == n,
    decreases n,
{
    if n > 0 {
        lemma_leading_blanks(s.skip(1), n - 1);
    }
}

proof fn lemma_trailing_blanks(s: Seq<u8>, n: int)
    requires
        0 <= n <= s.len(),
        forall|j: int| s.len() - n <= j < s.len() ==> is_blank(s[j]),
        n == s.len() || !is_blank(s[s.len() - n - 1]),
    ensures
        trailing_blanks(s) == n,
    decreases n,
{
    if n > 0 {
        lemma_trailing_blanks(s.drop_last(), n - 1);
    }
}

/// Strips the blanks from both ends of `s`.
pub fn trim(s: &[u8]) -> (out: &[u8])
    ensures
        out@ == trimmed(s@),
{
    let mut start: usize = 0;
    while start < s.len() && (s[start] == SP || s[start] == HTAB)
        invariant
            start <= s.len(),
            forall|j: int| 0 <= j < start ==> is_blank(s@[j]),
        decreases s.len() - start,
    {
        start += 1;
    }
    let mut end: usize = s.len();
    while end > start && (s[end - 1] == SP || s[end - 1] == HTAB)
        invariant
            start <= end <= s.len(),
            forall|j: int| end <= j < s.len() ==> is_blank(s@[j]),
        decreases end,
    {
        end -= 1;
    }
    proof {
        lemma_leading_blanks(s@, start as int);
        let rest = s@.skip(start as int);
        lemma_trailing_blanks(rest, s.len() - end);
    }
    slice_subrange(s, start, end)
}

/// The value of a hexadecimal digit.
pub open spec fn hex_value(b: u8) -> Option<u8> {
    if 48 <= b <= 57 {
        Some((b - 48) as u8)
    } else if 65 <= b <= 70 {
        Some((b - 55) as u8)
    } else if 97 <= b <= 102 {
        Some((b - 87) as u8)
    } else {
        None
    }
}

/// Whether `s` begins with a percent escape: a percent sign and two
/// hexadecimal digits.
pub open spec fn escape_at_start(s: Seq<u8>) -> bool {
    s.len() >= 3 && s[0] == PERCENT && hex_value(s[1]) is Some && hex_value(s[2]) is Some
}

/// `s` with each percent escape replaced by the byte it stands for. A percent
/// sign that no two hexadecimal digits follow stays as it is.
pub open spec fn percent_decoded(s: Seq<u8>) -> Seq<u8>
    decreases s.len(),
{
    if s.len() == 0 {
        s
    } else if escape_at_start(s) {
        seq![(hex_value(s[1])->0 * 16 + hex_value(s[2])->0) as u8] + percent_decoded(s.skip(3))
    } else {
        seq![s[0]] + percent_decoded(s.skip(1))
    }
}

/// The value of a hexadecimal digit.
pub fn hex_digit(b: u8) -> (out: Option<u8>)
    ensures
        out == hex_value(b),
{
    if 48 <= b && b <= 57 {
        Some(b - 48)
    } else if 65 <= b && b <= 70 {
        Some(b - 55)
    } else if 97 <= b && b <= 102 {
        Some(b - 87)
    } else {
        None
    }
}

/// Replaces each percent escape in `s` by the byte it stands for.
pub fn percent_decode(s: &[u8]) -> (out: Vec<u8>)
    ensures
        out@ == percent_decoded(s@),
{
    let mut out: Vec<u8> = Vec::new();
    let mut i: usize = 0;
    proof {
        assert(s@.skip(0) =~= s@);
    }
    while i < s.len()
        invariant
            i <= s.len(),
            out@ + percent_decoded(s@.skip(i as int)) == percent_decoded(s@),
        decreases s.len() - i,
    {
        let ghost rest = s@.skip(i as int);
        let mut step: usize = 1;
        let mut byte: u8 = s[i];
        if s[i] == PERCENT && s.len() - i >= 3 {
            match (hex_digit(s[i + 1]), hex_digit(s[i + 2])) {
                (Some(high), Some(low)) => {
                    byte = high * 16 + low;
                    step = 3;
                },
                _ => {},
            }
        }
        proof {
            assert(rest.skip(step as int) =~= s@.skip(i + step));
            assert(out@.push(byte) + percent_decoded(s@.skip(i + step)) =~= out@ + (seq![byte]
                + percent_decoded(rest.skip(step as int))));
        }
        out.push(byte);
        i += step;
    }
    out
}

/// Whether a byte is a decimal digit.
pub open spec fn is_digit(b: u8) -> bool {
    48 <= b <= 57
}

/// Whether `s` is a decimal number: one digit or more, and digits only.
pub open spec fn is_decimal(s: Seq<u8>) -> bool {
    s.len() > 0 && forall|i: int| 0 <= i < s.len() ==> is_digit(s[i])
}

/// The number that a run of decimal digits stands for.
pub open spec fn decimal_value(s: Seq<u8>) -> nat
    decreases s.len(),
{
    if s.len() == 0 {
        0
    } else {
        decimal_value(s.drop_last()) * 10 + (s.last() - 48) as nat
    }
}

proof fn lemma_decimal_value_grows(s: Seq<u8>, n: int)
    requires
        0 <= n <= s.len(),
        forall|i: int| 0 <= i < s.len() ==> is_digit(s[i]),
    ensures
        decimal_value(s.take(n)) <= decimal_value(s),
    decreases s.len() - n,
{
    if n < s.len() {
        lemma_decimal_value_grows(s, n + 1);
        assert(s.take(n + 1).drop_last() =~= s.take(n));
    } else {
        assert(s.take(n) =~= s);
    }
}

/// Reads a decimal number. There is none where `s` is not a decimal number,
/// and none where the number does not fit.
pub fn parse_decimal(s: &[u8]) -> (out: Option<usize>)
    ensures
        out is Some == (is_decimal(s@) && decimal_value(s@) <= usize::MAX),
        out matches Some(n) ==> n == decimal_value(s@),
{
    if s.len() == 0 {
        return None;
    }
    let mut value: usize = 0;
    let mut i: usize = 0;
    while i < s.len()
        invariant
            i <= s.len(),
            forall|j: int| 0 <= j < i ==> is_digit(s@[j]),
            value == decimal_value(s@.take(i as int)),
        decreases s.len() - i,
    {
        let b: u8 = s[i];
        if b < 48 || b > 57 {
            return None;
        }
        proof {
            assert(s@.take(i + 1).drop_last() =~= s@.take(i as int));
        }
        let digit: usize = (b - 48) as usize;
        let next: Option<usize> = match value.checked_mul(10) {
            Some(tens) => tens.checked_add(digit),
            None => None,
        };
        match next {
            Some(n) => {
                value = n;
            },
            None => {
                proof {
                    if is_decimal(s@) {
                        lemma_decimal_value_grows(s@, i + 1);
                    }
                }
                return None;
            },
        }
        i += 1;
    }
    proof {
        assert(s@.take(s.len() as int) =~= s@);
    }
    Some(value)
}

/// A letter in its lower case, and any other byte as it is.
pub open spec fn lowered(b: u8) -> u8 {
    if 65 <= b <= 90 {
        (b + 32) as u8
    } else {
        b
    }
}

/// Whether two names are the same but for the case of their letters.
pub open spec fn same_name(a: Seq<u8>, b: Seq<u8>) -> bool {
    a.len() == b.len() && forall|i: int| 0 <= i < a.len() ==> lowered(a[i]) == lowered(b[i])
}

/// A letter in its lower case, and any other byte as it is.
pub fn to_lower(b: u8) -> (out: u8)
    ensures
        out == lowered(b),
{
    if 65 <= b && b <= 90 {
        b + 32
    } else {
        b
    }
}

/// Whether two names are the same but for the case of their letters.
pub fn names_match(a: &[u8], b: &[u8]) -> (out: bool)
    ensures
        out == same_name(a@, b@),
{
    if a.len() != b.len() {
        return false;
    }
    let mut i: usize = 0;
    while i < a.len()
        invariant
            i <= a.len(),
            a.len() == b.len(),
            forall|j: int| 0 <= j < i ==> lowered(a@[j]) == lowered(b@[j]),
        decreases a.len() - i,
    {
        if to_lower(a[i]) != to_lower(b[i]) {
            return false;
        }
        i += 1;
    }
    true
}

} // verus!
