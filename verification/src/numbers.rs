//! Decimal text of integers: printing, parsing and digit grouping.

use vstd::prelude::*;
use crate::text::{string_of, trim, trim_chars};

verus! {

/// The ASCII character of decimal digit `d`.
pub open spec fn digit_char(d: int) -> char {
    ((d + 48) as u32) as char
}

/// The decimal digits of `n`, most significant first, without leading zeros.
pub open spec fn nat_digits(n: nat) -> Seq<char>
    decreases n,
{
    if n < 10 {
        seq![digit_char(n as int)]
    } else {
        nat_digits(n / 10).push(digit_char((n % 10) as int))
    }
}

/// The decimal text of `v`, with a leading '-' when negative, as
/// `to_string` prints an integer.
pub open spec fn int_text(v: int) -> Seq<char> {
    if v < 0 {
        seq!['-'] + nat_digits((-v) as nat)
    } else {
        nat_digits(v as nat)
    }
}

/// The digit character for `d`.
fn digit_of(d: u64) -> (r: char)
    requires
        d < 10,
    ensures
        r == digit_char(d as int),
{
    let code: u8 = (d as u8) + 48;
    code as char
}

/// Appends the decimal digits of `n`.
fn push_digits(n: u64, out: &mut Vec<char>)
    ensures
        final(out)@ == old(out)@ + nat_digits(n as nat),
    decreases n,
{
    if n < 10 {
        out.push(digit_of(n));
    } else {
        push_digits(n / 10, out);
        out.push(digit_of(n % 10));
    }
}

/// The decimal text of `n`.
pub fn u64_chars(n: u64) -> (r: Vec<char>)
    ensures
        r@ == int_text(n as int),
{
    let mut out: Vec<char> = Vec::new();
    push_digits(n, &mut out);
    assert(out@ =~= nat_digits(n as nat));
    out
}

/// The decimal text of `v`.
pub fn int_chars(v: i64) -> (r: Vec<char>)
    ensures
        r@ == int_text(v as int),
{
    let mut out: Vec<char> = Vec::new();
    if v < 0 {
        out.push('-');
        let magnitude: u64 = (0i128 - (v as i128)) as u64;
        push_digits(magnitude, &mut out);
    } else {
        push_digits(v as u64, &mut out);
    }
    out
}

/// `s` split into groups of three characters from the right, joined by
/// commas; a leading sign counts as a character, so -123 reads "-,123".
pub open spec fn group_thousands(s: Seq<char>) -> Seq<char>
    decreases s.len(),
{
    if s.len() <= 3 {
        s
    } else {
        group_thousands(s.subrange(0, s.len() - 3)) + seq![','] + s.subrange(
            s.len() - 3,
            s.len() as int,
        )
    }
}

/// Appends `group_thousands` of the first `end` characters of `s`.
fn push_grouped(s: &Vec<char>, end: usize, out: &mut Vec<char>)
    requires
        end <= s@.len(),
    ensures
        final(out)@ == old(out)@ + group_thousands(s@.subrange(0, end as int)),
    decreases end,
{
    let ghost prefix = s@.subrange(0, end as int);
    if end <= 3 {
        let mut k: usize = 0;
        while k < end
            invariant
                k <= end <= s@.len(),
                prefix == s@.subrange(0, end as int),
                out@ == old(out)@ + prefix.subrange(0, k as int),
            decreases end - k,
        {
            out.push(s[k]);
            assert(prefix.subrange(0, k + 1) =~= prefix.subrange(0, k as int).push(s@[k as int]));
            k = k + 1;
        }
        assert(prefix.subrange(0, end as int) =~= prefix);
    } else {
        push_grouped(s, end - 3, out);
        assert(prefix.subrange(0, prefix.len() - 3) =~= s@.subrange(0, end - 3));
        out.push(',');
        out.push(s[end - 3]);
        out.push(s[end - 2]);
        out.push(s[end - 1]);
        assert(prefix.subrange(prefix.len() - 3, prefix.len() as int) =~= seq![
            s@[end - 3],
            s@[end - 2],
            s@[end - 1],
        ]);
    }
}

/// The count written with a comma between each group of three characters,
/// counting from the right.
pub fn format_count(value: i64) -> (r: String)
    ensures
        r@ == group_thousands(int_text(value as int)),
{
    let raw = int_chars(value);
    let mut out: Vec<char> = Vec::new();
    push_grouped(&raw, raw.len(), &mut out);
    assert(raw@.subrange(0, raw@.len() as int) =~= raw@);
    string_of(&out)
}

/// Whether `c` is an ASCII decimal digit.
pub open spec fn is_digit(c: char) -> bool {
    '0' <= c <= '9'
}

/// The value of a run of decimal digits.
pub open spec fn digits_value(s: Seq<char>) -> int
    decreases s.len(),
{
    if s.len() == 0 {
        0
    } else {
        digits_value(s.drop_last()) * 10 + ((s.last() as u32) - 48)
    }
}

/// Whether the text starts with a sign character.
pub open spec fn has_sign(s: Seq<char>) -> bool {
    s.len() > 0 && (s[0] == '+' || s[0] == '-')
}

/// The text after its sign, if any.
pub open spec fn unsigned_part(s: Seq<char>) -> Seq<char> {
    if has_sign(s) {
        s.drop_first()
    } else {
        s
    }
}

/// Whether every character is a decimal digit.
pub open spec fn all_digits(s: Seq<char>) -> bool {
    forall|i: int| 0 <= i < s.len() ==> is_digit(s[i])
}

/// The value the text denotes when it is a signed run of digits.
pub open spec fn signed_value(s: Seq<char>) -> int {
    if s.len() > 0 && s[0] == '-' {
        -digits_value(unsigned_part(s))
    } else {
        digits_value(unsigned_part(s))
    }
}

/// What `str::parse::<i64>` accepts: an optional '+' or '-', then one or
/// more decimal digits, whose value fits in an `i64`.
pub open spec fn parse_i64(s: Seq<char>) -> Option<i64> {
    if unsigned_part(s).len() > 0 && all_digits(unsigned_part(s)) && i64::MIN <= signed_value(s)
        <= i64::MAX {
        Some(signed_value(s) as i64)
    } else {
        None
    }
}

proof fn lemma_digits_value_nonneg(s: Seq<char>)
    requires
        forall|i: int| 0 <= i < s.len() ==> is_digit(s[i]),
    ensures
        digits_value(s) >= 0,
    decreases s.len(),
{
    if s.len() > 0 {
        lemma_digits_value_nonneg(s.drop_last());
    }
}

proof fn lemma_digits_value_grows(s: Seq<char>, k: int)
    requires
        0 <= k <= s.len(),
        forall|i: int| 0 <= i < s.len() ==> is_digit(s[i]),
    ensures
        digits_value(s.subrange(0, k)) <= digits_value(s),
    decreases s.len() - k,
{
    if k < s.len() {
        lemma_digits_value_grows(s, k + 1);
        assert(s.subrange(0, k + 1).drop_last() =~= s.subrange(0, k));
        lemma_digits_value_nonneg(s.subrange(0, k));
    } else {
        assert(s.subrange(0, k) =~= s);
    }
}

/// Parses `s` as `str::parse::<i64>` does.
pub fn parse_i64_chars(s: &Vec<char>) -> (r: Option<i64>)
    ensures
        r == parse_i64(s@),
{
    let n = s.len();
    let negative = n > 0 && s[0] == '-';
    let start: usize = if n > 0 && (s[0] == '+' || s[0] == '-') {
        1
    } else {
        0
    };
    let ghost digits = unsigned_part(s@);
    assert(digits =~= s@.subrange(start as int, n as int));
    if start >= n {
        return None;
    }
    let limit: i128 = 9223372036854775808;
    let mut acc: i128 = 0;
    let mut k: usize = start;
    while k < n
        invariant
            start <= k <= n == s@.len(),
            start < n,
            digits == unsigned_part(s@),
            digits == s@.subrange(start as int, n as int),
            forall|i: int| start <= i < k ==> is_digit(s@[i]),
            acc == digits_value(s@.subrange(start as int, k as int)),
            limit == 9223372036854775808,
            0 <= acc <= limit,
        decreases n - k,
    {
        let c = s[k];
        if !('0' <= c && c <= '9') {
            assert(digits[k - start] == c);
            assert(!is_digit(digits[k - start]));
            return None;
        }
        let d: i128 = (c as u32 - 48) as i128;
        assert(s@.subrange(start as int, k + 1).drop_last() =~= s@.subrange(start as int, k as int));
        acc = acc * 10 + d;
        k = k + 1;
        if acc > limit {
            proof {
                if all_digits(digits) {
                    assert(s@.subrange(start as int, k as int) =~= digits.subrange(0, k - start));
                    lemma_digits_value_grows(digits, k - start);
                }
            }
            return None;
        }
    }
    assert(s@.subrange(start as int, k as int) =~= digits);
    if negative {
        Some((0 - acc) as i64)
    } else if acc <= 9223372036854775807 {
        Some(acc as i64)
    } else {
        None
    }
}

/// `s` with every comma removed.
pub open spec fn remove_commas(s: Seq<char>) -> Seq<char> {
    s.filter(|c: char| c != ',')
}

/// The characters of `s` other than commas.
pub fn without_commas(s: &Vec<char>) -> (r: Vec<char>)
    ensures
        r@ == remove_commas(s@),
{
    let mut out: Vec<char> = Vec::new();
    let mut k: usize = 0;
    while k < s.len()
        invariant
            k <= s@.len(),
            out@ == remove_commas(s@.subrange(0, k as int)),
        decreases s@.len() - k,
    {
        proof {
            assert(s@.subrange(0, k + 1).drop_last() =~= s@.subrange(0, k as int));
            reveal_with_fuel(Seq::filter, 1);
        }
        if s[k] != ',' {
            out.push(s[k]);
        }
        k = k + 1;
    }
    assert(s@.subrange(0, s@.len() as int) =~= s@);
    out
}

/// How a textual count reads as an integer: surrounding whitespace trimmed,
/// thousands separators dropped, then parsed as an `i64`.
pub open spec fn count_text_value(s: Seq<char>) -> Option<i64> {
    parse_i64(remove_commas(trim(s)))
}

/// Reads a textual count.
pub fn parse_count_text(s: &str) -> (r: Option<i64>)
    ensures
        r == count_text_value(s@),
{
    let chars = crate::text::chars_of(s);
    parse_i64_chars(&without_commas(&trim_chars(&chars)))
}

} // verus!
