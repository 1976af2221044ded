//! Strings as sequences of characters: conversion, replacement of a pattern,
//! and the decimal form of integers.

use vstd::prelude::*;

verus! {

/// `String::push` appends one character to the end of the string.
pub assume_specification[ String::push ](s: &mut String, c: char)
    ensures
        final(s)@ == old(s)@.push(c),
;

/// The text that `String::from_utf8_lossy` makes of `bytes`.
pub uninterp spec fn lossy_text(bytes: Seq<u8>) -> Seq<char>;

/// Calls `String::from_utf8_lossy` on `bytes` and owns the result. The text is
/// a function of the bytes alone; nothing more is claimed of it.
#[verifier::external_body]
pub(crate) fn text_of_bytes(bytes: &[u8]) -> (r: String)
    ensures
        r@ == lossy_text(bytes@),
{
    String::from_utf8_lossy(bytes).into_owned()
}

/// The characters of `s`, in order.
pub fn chars_of(s: &str) -> (r: Vec<char>)
    ensures
        r@ == s@,
{
    let mut out: Vec<char> = Vec::new();
    for c in it: s.chars()
        invariant
            it.seq() == s@,
            out@ == s@.take(it.index() as int),
    {
        out.push(c);
    }
    out
}

/// Whether `a` and `b` have the same characters.
pub fn same_text(a: &str, b: &str) -> (r: bool)
    ensures
        r == (a@ == b@),
{
    let left = chars_of(a);
    let right = chars_of(b);
    if left.len() != right.len() {
        return false;
    }
    let mut i: usize = 0;
    while i < left.len()
        invariant
            i <= left.len(),
            left.len() == right.len(),
            left@ == a@,
            right@ == b@,
            forall|k: int| 0 <= k < i ==> left@[k] == right@[k],
        decreases left.len() - i,
    {
        if left[i] != right[i] {
            return false;
        }
        i += 1;
    }
    assert(left@ =~= right@);
    true
}

/// The string whose characters are those of `chars`, in order.
pub fn string_of(chars: &Vec<char>) -> (r: String)
    ensures
        r@ == chars@,
{
    let mut out = String::new();
    let mut i: usize = 0;
    while i < chars.len()
        invariant
            i <= chars.len(),
            out@ == chars@.take(i as int),
        decreases chars.len() - i,
    {
        out.push(chars[i]);
        i += 1;
    }
    out
}

/// The number that `c` stands for, if it is a decimal digit.
pub open spec fn digit_value(c: char) -> Option<int> {
    if '0' <= c <= '9' {
        Some(c as int - '0' as int)
    } else {
        None
    }
}

/// The digit that stands for `d`, a number below ten.
pub open spec fn digit_char(d: int) -> char {
    ((48 + d) as u8) as char
}

/// Whether `s` holds decimal digits only.
pub open spec fn all_digits(s: Seq<char>) -> bool {
    forall|i: int| 0 <= i < s.len() ==> digit_value(#[trigger] s[i]) is Some
}

/// The number that the digits of `s` write, zero for no digit.
pub open spec fn digits_value(s: Seq<char>) -> int
    decreases s.len(),
{
    if s.len() == 0 {
        0
    } else {
        digits_value(s.drop_last()) * 10 + digit_value(s.last()).unwrap_or(0)
    }
}

/// `s` without the sign that it may begin with.
pub open spec fn unsigned_part(s: Seq<char>) -> Seq<char> {
    if s.len() > 0 && (s[0] == '-' || s[0] == '+') {
        s.drop_first()
    } else {
        s
    }
}

/// The number that `s` writes in decimal, where it is an optional sign and at
/// least one digit and the number fits in 32 bits.
pub open spec fn parsed_i32(s: Seq<char>) -> Option<int> {
    let digits = unsigned_part(s);
    let value = if s.len() > 0 && s[0] == '-' {
        -digits_value(digits)
    } else {
        digits_value(digits)
    };
    if digits.len() > 0 && all_digits(digits) && i32::MIN <= value <= i32::MAX {
        Some(value)
    } else {
        None
    }
}

/// The decimal digits of `n`, without leading zeros.
pub open spec fn decimal_nat(n: nat) -> Seq<char>
    decreases n,
{
    if n < 10 {
        seq![digit_char(n as int)]
    } else {
        decimal_nat(n / 10).push(digit_char((n % 10) as int))
    }
}

/// `n` written in decimal, with a minus sign where it is negative.
pub open spec fn decimal(n: int) -> Seq<char> {
    if n < 0 {
        seq!['-'] + decimal_nat((-n) as nat)
    } else {
        decimal_nat(n as nat)
    }
}

/// Digits that are followed by more digits write no greater a number.
proof fn lemma_digits_value_grows(s: Seq<char>, k: int)
    requires
        0 <= k <= s.len(),
        all_digits(s),
    ensures
        0 <= digits_value(s.take(k)) <= digits_value(s),
    decreases s.len(),
{
    if s.len() == 0 {
        assert(s.take(k) == s);
    } else {
        let front = s.drop_last();
        assert forall|i: int| 0 <= i < front.len() implies digit_value(#[trigger] front[i]) is Some by {
            assert(front[i] == s[i]);
        }
        assert(digit_value(s.last()) is Some);
        if k == s.len() {
            lemma_digits_value_grows(front, k - 1);
            assert(s.take(k) == s);
        } else {
            lemma_digits_value_grows(front, k);
            assert(front.take(k) == s.take(k));
        }
    }
}

/// The decimal digits of a number are digits, at least one, and write that
/// number.
pub proof fn lemma_decimal_nat_is_read_back(n: nat)
    ensures
        decimal_nat(n).len() > 0,
        all_digits(decimal_nat(n)),
        digits_value(decimal_nat(n)) == n,
    decreases n,
{
    let s = decimal_nat(n);
    if n < 10 {
        assert(digit_value(digit_char(n as int)) == Some(n as int));
        assert(s.drop_last() == Seq::<char>::empty());
        assert(digits_value(s.drop_last()) == 0);
    } else {
        lemma_decimal_nat_is_read_back(n / 10);
        let front = decimal_nat(n / 10);
        assert(digit_value(digit_char((n % 10) as int)) == Some((n % 10) as int));
        assert(s.drop_last() == front);
        assert forall|i: int| 0 <= i < s.len() implies digit_value(#[trigger] s[i]) is Some by {
            if i < front.len() {
                assert(s[i] == front[i]);
            }
        }
    }
}

/// A number of 32 bits, written in decimal and read again, is the same number.
pub proof fn law_decimal_round_trip(n: int)
    requires
        i32::MIN <= n <= i32::MAX,
    ensures
        parsed_i32(decimal(n)) == Some(n),
{
    if n < 0 {
        let digits = decimal_nat((-n) as nat);
        lemma_decimal_nat_is_read_back((-n) as nat);
        assert(decimal(n).drop_first() == digits);
    } else {
        lemma_decimal_nat_is_read_back(n as nat);
        assert(digit_value(decimal(n)[0]) is Some);
    }
}

/// The number that `s` writes in decimal: an optional sign, then digits.
/// `None` where `s` is anything else, or the number does not fit.
pub fn parse_i32(s: &str) -> (r: Option<i32>)
    ensures
        match r {
            Some(v) => parsed_i32(s@) == Some(v as int),
            None => parsed_i32(s@) is None,
        },
{
    let chars = chars_of(s);
    let n = chars.len();
    let negative = n > 0 && chars[0] == '-';
    let start: usize = if n > 0 && (chars[0] == '-' || chars[0] == '+') {
        1
    } else {
        0
    };
    let ghost digits = unsigned_part(s@);
    assert(digits == chars@.skip(start as int));
    if start == n {
        return None;
    }
    let mut acc: i64 = 0;
    let mut i: usize = start;
    while i < n
        invariant
            start <= i <= n,
            n == chars.len(),
            digits == chars@.skip(start as int),
            digits == unsigned_part(s@),
            all_digits(digits.take(i - start)),
            acc == digits_value(digits.take(i - start)),
            0 <= acc <= 2147483648,
        decreases n - i,
    {
        let c = chars[i];
        if c < '0' || c > '9' {
            assert(digits[i - start] == c);
            assert(digit_value(digits[i - start]) is None);
            return None;
        }
        let d: i64 = (c as u32 - '0' as u32) as i64;
        acc = acc * 10 + d;
        proof {
            let upto = digits.take(i - start + 1);
            assert(upto.drop_last() == digits.take(i - start));
            assert(upto.last() == c);
            assert forall|j: int| 0 <= j < upto.len() implies digit_value(#[trigger] upto[j]) is Some by {
                if j < i - start {
                    assert(digits.take(i - start)[j] == upto[j]);
                }
            }
        }
        if acc > 2147483648 {
            proof {
                if all_digits(digits) {
                    lemma_digits_value_grows(digits, i - start + 1);
                    assert(digits_value(digits) > 2147483648);
                }
            }
            return None;
        }
        i += 1;
    }
    assert(digits.take(n - start) == digits);
    if negative {
        Some((-acc) as i32)
    } else if acc <= 2147483647 {
        Some(acc as i32)
    } else {
        None
    }
}

/// Appends the decimal digits of `n` to `out`.
fn push_decimal(out: &mut Vec<char>, n: u32)
    ensures
        final(out)@ == old(out)@ + decimal_nat(n as nat),
    decreases n,
{
    if n >= 10 {
        push_decimal(out, n / 10);
    }
    let ghost before = out@;
    out.push(((48 + n % 10) as u8) as char);
    proof {
        if n >= 10 {
            assert(before.push(digit_char((n % 10) as int)) == old(out)@ + decimal_nat(n as nat));
        } else {
            assert(before.push(digit_char(n as int)) == old(out)@ + decimal_nat(n as nat));
        }
    }
}

/// `n` written in decimal.
pub fn decimal_of(n: i32) -> (r: String)
    ensures
        r@ == decimal(n as int),
{
    let mut out: Vec<char> = Vec::new();
    if n < 0 {
        out.push('-');
        push_decimal(&mut out, (-(n as i64)) as u32);
        assert(out@ == seq!['-'] + decimal_nat((-n) as nat));
    } else {
        push_decimal(&mut out, n as u32);
        assert(out@ == decimal_nat(n as nat));
    }
    string_of(&out)
}

/// `text` with every occurrence of `pat` replaced by `sub`, reading from the
/// left and never inside what was already replaced. An empty `pat` occurs
/// nowhere.
pub open spec fn replaced(text: Seq<char>, pat: Seq<char>, sub: Seq<char>) -> Seq<char>
    decreases text.len(),
{
    if pat.len() == 0 || text.len() < pat.len() {
        text
    } else if text.take(pat.len() as int) == pat {
        sub + replaced(text.skip(pat.len() as int), pat, sub)
    } else {
        seq![text[0]] + replaced(text.drop_first(), pat, sub)
    }
}

/// A text that lacks the first character of a pattern is left as it is.
pub proof fn lemma_replaced_without_first(text: Seq<char>, pat: Seq<char>, sub: Seq<char>)
    requires
        pat.len() > 0,
        !text.contains(pat[0]),
    ensures
        replaced(text, pat, sub) == text,
    decreases text.len(),
{
    if text.len() >= pat.len() {
        assert(text.contains(text[0]));
        assert(text.take(pat.len() as int)[0] == text[0]);
        let rest = text.drop_first();
        assert forall|i: int| 0 <= i < rest.len() implies rest[i] != pat[0] by {
            assert(rest[i] == text[i + 1]);
            assert(text.contains(text[i + 1]));
        }
        lemma_replaced_without_first(rest, pat, sub);
        assert(seq![text[0]] + rest == text);
    }
}

/// Whether `pat` stands in `text` at position `at`.
pub open spec fn occurs_at(text: Seq<char>, at: int, pat: Seq<char>) -> bool {
    0 <= at && at + pat.len() <= text.len() && text.subrange(at, at + pat.len()) == pat
}

/// Whether `pat` stands in `text` at position `at`.
fn matches_at(text: &Vec<char>, at: usize, pat: &Vec<char>) -> (r: bool)
    requires
        at <= text@.len(),
    ensures
        r == occurs_at(text@, at as int, pat@),
{
    if pat.len() > text.len() - at {
        return false;
    }
    let mut k: usize = 0;
    while k < pat.len()
        invariant
            k <= pat@.len(),
            at + pat.len() <= text.len(),
            forall|j: int| 0 <= j < k ==> text@[at + j] == pat@[j],
        decreases pat@.len() - k,
    {
        if text[at + k] != pat[k] {
            assert(text@.subrange(at as int, at + pat@.len())[k as int] != pat@[k as int]);
            return false;
        }
        k += 1;
    }
    assert(text@.subrange(at as int, at + pat@.len()) =~= pat@);
    true
}

/// Every occurrence of `pat` in `text` replaced by `sub`.
pub fn replace_chars(text: &Vec<char>, pat: &Vec<char>, sub: &Vec<char>) -> (r: Vec<char>)
    ensures
        r@ == replaced(text@, pat@, sub@),
{
    if pat.len() == 0 {
        return text.clone();
    }
    let mut out: Vec<char> = Vec::new();
    let mut i: usize = 0;
    proof {
        assert(text@.skip(0) == text@);
        assert(out@ + text@ == text@);
    }
    while i < text.len()
        invariant
            i <= text.len(),
            pat@.len() > 0,
            out@ + replaced(text@.skip(i as int), pat@, sub@) == replaced(text@, pat@, sub@),
        decreases text@.len() - i,
    {
        let ghost rest = text@.skip(i as int);
        if matches_at(text, i, pat) {
            let mut k: usize = 0;
            let ghost before = out@;
            while k < sub.len()
                invariant
                    k <= sub@.len(),
                    out@ == before + sub@.take(k as int),
                decreases sub@.len() - k,
            {
                out.push(sub[k]);
                k += 1;
                assert(sub@.take(k as int) == sub@.take(k - 1).push(sub@[k - 1]));
            }
            proof {
                assert(sub@.take(sub@.len() as int) == sub@);
                assert(rest.take(pat@.len() as int) == text@.subrange(i as int, i + pat@.len()));
                assert(rest.skip(pat@.len() as int) == text@.skip(i + pat@.len()));
                assert(before + sub@ + replaced(text@.skip(i + pat@.len()), pat@, sub@) == before
                    + (sub@ + replaced(text@.skip(i + pat@.len()), pat@, sub@)));
            }
            i += pat.len();
        } else {
            let ghost before = out@;
            out.push(text[i]);
            proof {
                assert(rest.drop_first() == text@.skip(i + 1));
                assert(rest[0] == text@[i as int]);
                if rest.len() >= pat@.len() {
                    assert(rest.take(pat@.len() as int) == text@.subrange(
                        i as int,
                        i + pat@.len(),
                    ));
                } else {
                    assert(replaced(rest.drop_first(), pat@, sub@) == rest.drop_first());
                    assert(rest == seq![rest[0]] + rest.drop_first());
                }
                assert(replaced(rest, pat@, sub@) == seq![rest[0]] + replaced(
                    rest.drop_first(),
                    pat@,
                    sub@,
                ));
                assert(before.push(text@[i as int]) + replaced(text@.skip(i + 1), pat@, sub@)
                    == before + (seq![rest[0]] + replaced(rest.drop_first(), pat@, sub@)));
            }
            i += 1;
        }
    }
    proof {
        assert(text@.skip(i as int).len() == 0);
        assert(out@ + Seq::<char>::empty() == out@);
    }
    out
}

/// Every occurrence of `pat` in `text` replaced by `sub`.
pub fn replace_all(text: &str, pat: &str, sub: &str) -> (r: String)
    ensures
        r@ == replaced(text@, pat@, sub@),
{
    let out = replace_chars(&chars_of(text), &chars_of(pat), &chars_of(sub));
    string_of(&out)
}

} // verus!
