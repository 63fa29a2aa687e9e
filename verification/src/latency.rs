//! Reading a round-trip time out of the text a probe prints.
//!
//! The text is split at whitespace: the ASCII whitespace bytes and the UTF-8
//! encodings of the other characters with the Unicode property White_Space.
//! Bytes that are no valid UTF-8 part nothing. A token reads as a latency when,
//! letter case aside, it is `time=` or `zeit=` followed by a decimal number of
//! milliseconds, or `time<` or `zeit<` followed by one; any run of trailing
//! `ms` is dropped first. The first token that reads decides.
//!
//! A number is written as a decimal float: an optional sign, digits with at
//! most one `.` and a digit on at least one side of it, and optionally `e`,
//! an optional sign and digits. `inf`, `infinity` and `nan` are read too.
//! Latencies are whole microseconds, held within `u64`: digits past the
//! microsecond are cut off, a value beyond `u64` or infinite is held at
//! `u64::MAX`, and a value below zero at zero. A `time=` token whose value
//! is `nan` ends the reading without a latency.

use vstd::prelude::*;
use vstd::slice::slice_subrange;

verus! {

/// ASCII `0`.
pub const DIGIT_0: u8 = 0x30;

/// ASCII `9`.
pub const DIGIT_9: u8 = 0x39;

/// ASCII `+`.
pub const PLUS: u8 = 0x2b;

/// ASCII `-`.
pub const MINUS: u8 = 0x2d;

/// ASCII `.`.
pub const DOT: u8 = 0x2e;

/// ASCII `<`.
pub const LESS: u8 = 0x3c;

/// ASCII `=`.
pub const EQUALS: u8 = 0x3d;

/// ASCII `A`.
pub const UPPER_A: u8 = 0x41;

/// ASCII `Z`.
pub const UPPER_Z: u8 = 0x5a;

/// ASCII `a`.
pub const LETTER_A: u8 = 0x61;

/// ASCII `e`.
pub const LETTER_E: u8 = 0x65;

/// ASCII `f`.
pub const LETTER_F: u8 = 0x66;

/// ASCII `n`.
pub const LETTER_N: u8 = 0x6e;

/// ASCII `y`.
pub const LETTER_Y: u8 = 0x79;

/// The greatest size of an exponent that is told apart; a greater one is
/// held at this.
pub const EXPONENT_CAP: u128 = 0x10_0000_0000_0000_0000_0000_0000;

/// ASCII `i`.
pub const LETTER_I: u8 = 0x69;

/// ASCII `m`.
pub const LETTER_M: u8 = 0x6d;

/// ASCII `s`.
pub const LETTER_S: u8 = 0x73;

/// ASCII `t`.
pub const LETTER_T: u8 = 0x74;

/// ASCII `z`.
pub const LETTER_Z: u8 = 0x7a;

/// Whether `b` is a whitespace character of one byte: space, tab, line feed,
/// vertical tab, form feed or carriage return.
pub open spec fn is_space(b: u8) -> bool {
    b == 0x20 || (0x09 <= b && b <= 0x0d)
}

/// ASCII decimal digit.
pub open spec fn is_digit(b: u8) -> bool {
    DIGIT_0 <= b && b <= DIGIT_9
}

/// The byte with an ASCII upper-case letter made lower case.
pub open spec fn lower(b: u8) -> u8 {
    if UPPER_A <= b && b <= UPPER_Z {
        (b + 32) as u8
    } else {
        b
    }
}

/// `s` with every ASCII upper-case letter made lower case.
pub open spec fn lowered(s: Seq<u8>) -> Seq<u8> {
    Seq::new(s.len(), |i: int| lower(s[i]))
}

/// Whether `a`, `b`, `c` are the UTF-8 encoding of a whitespace character
/// of three bytes: U+1680, U+2000 to U+200A, U+2028, U+2029, U+202F, U+205F
/// or U+3000.
pub open spec fn is_wide_space(a: u8, b: u8, c: u8) -> bool {
    ||| (a == 0xe1 && b == 0x9a && c == 0x80)
    ||| (a == 0xe2 && b == 0x80 && ((0x80 <= c && c <= 0x8a) || c == 0xa8 || c == 0xa9 || c
        == 0xaf))
    ||| (a == 0xe2 && b == 0x81 && c == 0x9f)
    ||| (a == 0xe3 && b == 0x80 && c == 0x80)
}

/// Whether `a`, `b` are the UTF-8 encoding of a whitespace character of two
/// bytes: U+0085 or U+00A0.
pub open spec fn is_narrow_space(a: u8, b: u8) -> bool {
    a == 0xc2 && (b == 0x85 || b == 0xa0)
}

/// The number of bytes of the whitespace character that starts at place `i`
/// of `s`; 0 if none starts there.
pub open spec fn space_len(s: Seq<u8>, i: int) -> nat {
    if i < 0 || i >= s.len() {
        0
    } else if is_space(s[i]) {
        1
    } else if i + 1 < s.len() && is_narrow_space(s[i], s[i + 1]) {
        2
    } else if i + 2 < s.len() && is_wide_space(s[i], s[i + 1], s[i + 2]) {
        3
    } else {
        0
    }
}

/// The place just past the token that starts at place `i` of `s`: the first
/// place from `i` on where a whitespace character starts, or the end of `s`.
pub open spec fn token_end(s: Seq<u8>, i: int) -> int
    decreases s.len() - i,
{
    if i >= s.len() || space_len(s, i) > 0 {
        i
    } else {
        token_end(s, i + 1)
    }
}

/// Length of the leading run of digits of `s`.
pub open spec fn digit_run(s: Seq<u8>) -> nat
    decreases s.len(),
{
    if s.len() == 0 || !is_digit(s[0]) {
        0
    } else {
        1 + digit_run(s.skip(1))
    }
}

/// Whether every byte of `s` is a digit.
pub open spec fn all_digits(s: Seq<u8>) -> bool {
    forall|i: int| 0 <= i < s.len() ==> is_digit(#[trigger] s[i])
}

/// The number that a string of digits writes in base ten; 0 for the empty string.
pub open spec fn number(digits: Seq<u8>) -> nat
    decreases digits.len(),
{
    if digits.len() == 0 {
        0
    } else {
        number(digits.drop_last()) * 10 + (digits.last() - DIGIT_0) as nat
    }
}

/// What the value part of a token stands for.
#[derive(Clone, Copy, Debug, PartialEq, Eq, Structural)]
pub enum Amount {
    /// A number of microseconds, held within `u64`.
    Micros(u64),
    /// The text `nan`: no number.
    NotANumber,
}

/// How far an exponent reaches: its direction, and its size held at
/// [`EXPONENT_CAP`].
#[derive(Clone, Copy, Debug, PartialEq, Eq, Structural)]
pub struct Reach {
    pub negative: bool,
    pub size: u128,
}

/// Whether `b` is a sign.
pub open spec fn is_sign(b: u8) -> bool {
    b == PLUS || b == MINUS
}

/// `s` without the sign at its head, if it has one.
pub open spec fn unsigned_part(s: Seq<u8>) -> Seq<u8> {
    if s.len() > 0 && is_sign(s[0]) {
        s.skip(1)
    } else {
        s
    }
}

/// Whether `s` starts with a minus sign.
pub open spec fn is_negative(s: Seq<u8>) -> bool {
    s.len() > 0 && s[0] == MINUS
}

/// Whether `s` is `inf` or `infinity`.
pub open spec fn is_inf_word(s: Seq<u8>) -> bool {
    ||| (s.len() == 3 && s[0] == LETTER_I && s[1] == LETTER_N && s[2] == LETTER_F)
    ||| (s.len() == 8 && s[0] == LETTER_I && s[1] == LETTER_N && s[2] == LETTER_F && s[3]
        == LETTER_I && s[4] == LETTER_N && s[5] == LETTER_I && s[6] == LETTER_T && s[7]
        == LETTER_Y)
}

/// Whether `s` is `nan`.
pub open spec fn is_nan_word(s: Seq<u8>) -> bool {
    s.len() == 3 && s[0] == LETTER_N && s[1] == LETTER_A && s[2] == LETTER_N
}

/// The number that the first `places` digits of `digits` write, with zeros
/// standing in for digits past its end; 0 for no place.
///
/// With the digits of a number and the place of its point moved as the
/// exponent says, this is the number cut off at whole units.
pub open spec fn scaled(digits: Seq<u8>, places: int) -> nat
    decreases places,
{
    if places <= 0 {
        0
    } else if places <= digits.len() {
        number(digits.take(places))
    } else {
        scaled(digits, places - 1) * 10
    }
}

/// The exponent that `tail` writes: zero for the empty text, else `e`, an
/// optional sign and digits; `None` for any other text.
pub open spec fn exponent(tail: Seq<u8>) -> Option<int> {
    if tail.len() == 0 {
        Some(0)
    } else if tail[0] != LETTER_E {
        None
    } else {
        let digits = unsigned_part(tail.skip(1));
        if digits.len() > 0 && all_digits(digits) {
            Some(
                if is_negative(tail.skip(1)) {
                    -(number(digits) as int)
                } else {
                    number(digits) as int
                },
            )
        } else {
            None
        }
    }
}

/// The microseconds that the unsigned decimal number of milliseconds `body`
/// stands for, cut off at whole microseconds; `None` if `body` is no such
/// number.
pub open spec fn number_micros(body: Seq<u8>) -> Option<nat> {
    let k = digit_run(body) as int;
    let whole = body.take(k);
    let rest = body.skip(k);
    let after = if rest.len() > 0 && rest[0] == DOT {
        rest.skip(1)
    } else {
        rest
    };
    let f = digit_run(after) as int;
    let frac = after.take(f);
    if k + f == 0 {
        None
    } else {
        match exponent(after.skip(f)) {
            Some(e) => Some(scaled(whole + frac, k + 3 + e)),
            None => None,
        }
    }
}

/// What the text `s` of a value in milliseconds stands for; `None` if it is
/// no number, `inf`, `infinity` or `nan`, signed or not.
pub open spec fn millis_amount(s: Seq<u8>) -> Option<Amount> {
    let body = unsigned_part(s);
    if is_inf_word(body) {
        Some(
            Amount::Micros(
                if is_negative(s) {
                    0
                } else {
                    u64::MAX
                },
            ),
        )
    } else if is_nan_word(body) {
        Some(Amount::NotANumber)
    } else {
        match number_micros(body) {
            Some(n) => Some(
                Amount::Micros(
                    if is_negative(s) {
                        0
                    } else {
                        clamp(n)
                    },
                ),
            ),
            None => None,
        }
    }
}

/// `n` held at [`EXPONENT_CAP`].
pub open spec fn capped(n: nat) -> u128 {
    if n > EXPONENT_CAP {
        EXPONENT_CAP
    } else {
        n as u128
    }
}

/// Whether `reach` stands for the exponent `e`.
pub open spec fn reach_of(reach: Reach, e: int) -> bool {
    &&& reach.negative ==> e <= 0 && reach.size == capped((-e) as nat)
    &&& !reach.negative ==> e >= 0 && reach.size == capped(e as nat)
}

/// Whether `s` ends in `ms`.
pub open spec fn ends_with_ms(s: Seq<u8>) -> bool {
    s.len() >= 2 && s[s.len() - 2] == LETTER_M && s[s.len() - 1] == LETTER_S
}

/// `s` without any run of `ms` at its end.
pub open spec fn strip_ms(s: Seq<u8>) -> Seq<u8>
    decreases s.len(),
{
    if ends_with_ms(s) {
        strip_ms(s.take(s.len() - 2))
    } else {
        s
    }
}

/// Whether the lower-case token `low` starts with `time` or `zeit` and then `mark`.
pub open spec fn has_label(low: Seq<u8>, mark: u8) -> bool {
    &&& low.len() >= 5
    &&& low[4] == mark
    &&& {
        ||| (low[0] == LETTER_T && low[1] == LETTER_I && low[2] == LETTER_M && low[3] == LETTER_E)
        ||| (low[0] == LETTER_Z && low[1] == LETTER_E && low[2] == LETTER_I && low[3] == LETTER_T)
    }
}

/// `n` held at `u64::MAX`.
pub open spec fn clamp(n: nat) -> u64 {
    if n > u64::MAX {
        u64::MAX
    } else {
        n as u64
    }
}

/// Half of `us` microseconds, with `us` held at one millisecond.
pub open spec fn below_bound(us: u64) -> u64 {
    if us >= 1000 {
        500
    } else {
        us / 2
    }
}

/// What one token says: `None` if it says nothing of a latency, else
/// `Some` of the latency in microseconds that the reading ends with, or of
/// `None` where it ends without one.
///
/// `time<X` reports a time below `X`: it reads as half of `X`, with `X` held
/// at one millisecond, also where `X` is no number. `time=<X` reads as half
/// a millisecond. `time=nan` ends the reading without a latency.
pub open spec fn token_reading(tok: Seq<u8>) -> Option<Option<u64>> {
    let low = lowered(tok);
    if has_label(low, LESS) {
        match millis_amount(strip_ms(low.skip(5))) {
            Some(Amount::Micros(us)) => Some(Some(below_bound(us))),
            Some(Amount::NotANumber) => Some(Some(500u64)),
            None => None,
        }
    } else if has_label(low, EQUALS) {
        let value = strip_ms(low.skip(5));
        if value.len() > 0 && value[0] == LESS {
            Some(Some(500u64))
        } else {
            match millis_amount(value) {
                Some(Amount::Micros(us)) => Some(Some(us)),
                Some(Amount::NotANumber) => Some(None),
                None => None,
            }
        }
    } else {
        None
    }
}

/// What the first token of `s`, from place `i` on, that says anything of a
/// latency says.
pub open spec fn reading_from(s: Seq<u8>, i: int) -> Option<u64>
    decreases s.len() - i,
    via reading_from_decreases
{
    if i < 0 || i >= s.len() {
        None
    } else if space_len(s, i) > 0 {
        reading_from(s, i + space_len(s, i))
    } else {
        let end = token_end(s, i);
        match token_reading(s.subrange(i, end)) {
            Some(reading) => reading,
            None => reading_from(s, end),
        }
    }
}

#[via_fn]
proof fn reading_from_decreases(s: Seq<u8>, i: int) {
    if 0 <= i {
        lemma_token_end_bound(s, i);
    }
}

/// What the first token of `s` that says anything of a latency says.
pub open spec fn first_reading(s: Seq<u8>) -> Option<u64> {
    reading_from(s, 0)
}

/// A token that starts inside the text ends inside it, past its first byte.
pub proof fn lemma_token_end_bound(s: Seq<u8>, i: int)
    requires
        0 <= i,
    ensures
        i <= token_end(s, i),
        i <= s.len() ==> token_end(s, i) <= s.len(),
        i < s.len() && space_len(s, i) == 0 ==> token_end(s, i) > i,
    decreases s.len() - i,
{
    if i < s.len() && space_len(s, i) == 0 {
        lemma_token_end_bound(s, i + 1);
    }
}

/// The token from place `i` ends at place `end` when no whitespace
/// character starts from `i` up to `end` and the text ends at `end` or one
/// starts there.
pub proof fn lemma_token_end_is(s: Seq<u8>, i: int, end: int)
    requires
        0 <= i <= end <= s.len(),
        forall|j: int| i <= j < end ==> space_len(s, j) == 0,
        end == s.len() || space_len(s, end) > 0,
    ensures
        token_end(s, i) == end,
    decreases end - i,
{
    if i < end {
        lemma_token_end_is(s, i + 1, end);
    }
}

/// The digits at the head of `s` number `k` when the first `k` bytes are
/// digits and the text ends or goes on with another byte after them.
pub proof fn lemma_digit_run_is(s: Seq<u8>, k: int)
    requires
        0 <= k <= s.len(),
        forall|i: int| 0 <= i < k ==> is_digit(#[trigger] s[i]),
        k == s.len() || !is_digit(s[k]),
    ensures
        digit_run(s) == k,
    decreases k,
{
    if k > 0 {
        let t = s.skip(1);
        assert forall|i: int| 0 <= i < k - 1 implies is_digit(#[trigger] t[i]) by {
            assert(t[i] == s[i + 1]);
        }
        lemma_digit_run_is(t, k - 1);
    }
}

/// Holding a number at `u64::MAX` before or after it is scaled and added to
/// gives the same.
pub proof fn lemma_clamp_scaled(n: nat, scale: nat, add: nat)
    requires
        scale >= 1,
    ensures
        clamp(clamp(n) as nat * scale + add) == clamp(n * scale + add),
{
    if n > u64::MAX {
        assert(n * scale + add > u64::MAX) by (nonlinear_arith)
            requires
                n > u64::MAX,
                scale >= 1,
        ;
        assert(u64::MAX as nat * scale + add >= u64::MAX) by (nonlinear_arith)
            requires
                scale >= 1,
        ;
    }
}

/// Holding a number at [`EXPONENT_CAP`] before or after a digit is added to
/// it gives the same.
pub proof fn lemma_capped_push(n: nat, digit: nat)
    ensures
        capped(capped(n) as nat * 10 + digit) == capped(n * 10 + digit),
{
}

/// Zeros after the digits of zero give zero.
pub proof fn lemma_scaled_zero(digits: Seq<u8>, places: int)
    requires
        places >= digits.len(),
        number(digits) == 0,
    ensures
        scaled(digits, places) == 0,
    decreases places,
{
    if places > digits.len() {
        lemma_scaled_zero(digits, places - 1);
    } else {
        assert(digits.take(places) =~= digits);
    }
}

/// Twenty zeros or more after the digits of a number that is not zero give
/// more than `u64` holds.
pub proof fn lemma_scaled_big(digits: Seq<u8>, places: int)
    requires
        places >= digits.len() + 20,
        number(digits) >= 1,
    ensures
        scaled(digits, places) > u64::MAX,
    decreases places,
{
    if places > digits.len() + 20 {
        lemma_scaled_big(digits, places - 1);
    } else {
        let n = digits.len() as int;
        assert(digits.take(n) =~= digits);
        lemma_scaled_pads(digits, 20);
    }
}

/// The power of ten with `k` zeros.
pub open spec fn pow10(k: nat) -> nat
    decreases k,
{
    if k == 0 {
        1
    } else {
        pow10((k - 1) as nat) * 10
    }
}

/// `k` zeros after the digits of a number multiply it by the power of ten
/// with `k` zeros, which is at least `k + 1` and, from twenty zeros on,
/// more than `u64` holds.
pub proof fn lemma_scaled_pads(digits: Seq<u8>, k: nat)
    ensures
        scaled(digits, (digits.len() + k) as int) == number(digits) * pow10(k),
        pow10(k) >= 1,
        k >= 20 ==> pow10(k) > u64::MAX,
        k >= 20 && number(digits) >= 1 ==> scaled(digits, (digits.len() + k) as int) > u64::MAX,
    decreases k,
{
    let n = digits.len() as int;
    if k == 0 {
        assert(digits.take(n) =~= digits);
        if n == 0 {
            assert(number(digits) == 0);
        }
    } else {
        lemma_scaled_pads(digits, (k - 1) as nat);
        let before = scaled(digits, n + k - 1);
        assert(scaled(digits, n + k) == before * 10);
        assert(number(digits) * pow10((k - 1) as nat) * 10 == number(digits) * (pow10(
            (k - 1) as nat,
        ) * 10)) by (nonlinear_arith);
        if k == 20 {
            assert(pow10(20) == 100_000_000_000_000_000_000nat) by {
                reveal_with_fuel(pow10, 21);
            }
        }
        if k >= 20 && number(digits) >= 1 {
            assert(number(digits) * pow10(k) >= pow10(k)) by (nonlinear_arith)
                requires
                    number(digits) >= 1,
            ;
        }
    }
}

/// The number of bytes of the whitespace character that starts at place
/// `i`; 0 if none starts there.
fn space_at(text: &[u8], i: usize) -> (n: usize)
    ensures
        n == space_len(text@, i as int),
{
    let len: usize = text.len();
    if i >= len {
        return 0;
    }
    let a: u8 = text[i];
    if a == 0x20 || (0x09 <= a && a <= 0x0d) {
        1
    } else if len - i >= 2 && a == 0xc2 && (text[i + 1] == 0x85 || text[i + 1] == 0xa0) {
        2
    } else if len - i >= 3 {
        let b: u8 = text[i + 1];
        let c: u8 = text[i + 2];
        let wide: bool = (a == 0xe1 && b == 0x9a && c == 0x80) || (a == 0xe2 && b == 0x80 && ((0x80
            <= c && c <= 0x8a) || c == 0xa8 || c == 0xa9 || c == 0xaf)) || (a == 0xe2 && b == 0x81
            && c == 0x9f) || (a == 0xe3 && b == 0x80 && c == 0x80);
        if wide {
            3
        } else {
            0
        }
    } else {
        0
    }
}

fn byte_is_digit(b: u8) -> (r: bool)
    ensures
        r == is_digit(b),
{
    DIGIT_0 <= b && b <= DIGIT_9
}

fn byte_lower(b: u8) -> (r: u8)
    ensures
        r == lower(b),
{
    if UPPER_A <= b && b <= UPPER_Z {
        b + 32
    } else {
        b
    }
}

/// `acc * 10 + digit`, held at `u64::MAX`.
fn push_digit(acc: u64, digit: u8) -> (r: u64)
    requires
        digit <= 9,
    ensures
        r == clamp(acc as nat * 10 + digit as nat),
{
    if acc > (u64::MAX - digit as u64) / 10 {
        u64::MAX
    } else {
        acc * 10 + digit as u64
    }
}

/// `acc * 10 + digit`, held at [`EXPONENT_CAP`].
fn push_capped(acc: u128, digit: u8) -> (r: u128)
    requires
        digit <= 9,
        acc <= EXPONENT_CAP,
    ensures
        r == capped(acc as nat * 10 + digit as nat),
{
    if acc > (EXPONENT_CAP - digit as u128) / 10 {
        EXPONENT_CAP
    } else {
        acc * 10 + digit as u128
    }
}

/// The number of digits at the head of `text`.
fn count_digits(text: &[u8]) -> (k: usize)
    ensures
        k == digit_run(text@),
        k <= text@.len(),
        forall|i: int| 0 <= i < k ==> is_digit(#[trigger] text@[i]),
{
    let len: usize = text.len();
    let mut k: usize = 0;
    while k < len && byte_is_digit(text[k])
        invariant
            k <= len,
            len == text@.len(),
            forall|i: int| 0 <= i < k ==> is_digit(#[trigger] text@[i]),
        decreases len - k,
    {
        k += 1;
    }
    proof {
        lemma_digit_run_is(text@, k as int);
    }
    k
}

/// Whether `body` is `inf` or `infinity`.
fn word_is_inf(body: &[u8]) -> (r: bool)
    ensures
        r == is_inf_word(body@),
{
    let len: usize = body.len();
    (len == 3 && body[0] == LETTER_I && body[1] == LETTER_N && body[2] == LETTER_F) || (len == 8
        && body[0] == LETTER_I && body[1] == LETTER_N && body[2] == LETTER_F && body[3]
        == LETTER_I && body[4] == LETTER_N && body[5] == LETTER_I && body[6] == LETTER_T
        && body[7] == LETTER_Y)
}

/// Whether `body` is `nan`.
fn word_is_nan(body: &[u8]) -> (r: bool)
    ensures
        r == is_nan_word(body@),
{
    body.len() == 3 && body[0] == LETTER_N && body[1] == LETTER_A && body[2] == LETTER_N
}

/// `text` without the sign at its head, if it has one.
fn without_sign(text: &[u8]) -> (body: &[u8])
    ensures
        body@ == unsigned_part(text@),
{
    let len: usize = text.len();
    if len > 0 && (text[0] == PLUS || text[0] == MINUS) {
        slice_subrange(text, 1, len)
    } else {
        slice_subrange(text, 0, len)
    }
}

/// Reads the exponent at the end of a number.
fn parse_exponent(tail: &[u8]) -> (reach: Option<Reach>)
    ensures
        match exponent(tail@) {
            Some(e) => reach is Some && reach_of(reach->0, e),
            None => reach is None,
        },
{
    let len: usize = tail.len();
    if len == 0 {
        return Some(Reach { negative: false, size: 0 });
    }
    if tail[0] != LETTER_E {
        return None;
    }
    let signed = slice_subrange(tail, 1, len);
    assert(signed@ == tail@.skip(1));
    let negative: bool = signed.len() > 0 && signed[0] == MINUS;
    let digits = without_sign(signed);
    let count: usize = digits.len();
    if count == 0 {
        return None;
    }
    let mut size: u128 = 0;
    let mut i: usize = 0;
    assert(digits@.take(0) =~= Seq::<u8>::empty());
    while i < count
        invariant
            i <= count,
            count == digits@.len(),
            tail@.len() > 0,
            tail@[0] == LETTER_E,
            digits@ == unsigned_part(tail@.skip(1)),
            forall|j: int| 0 <= j < i ==> is_digit(#[trigger] digits@[j]),
            size == capped(number(digits@.take(i as int))),
        decreases count - i,
    {
        if !byte_is_digit(digits[i]) {
            assert(!is_digit(digits@[i as int]));
            return None;
        }
        let digit: u8 = digits[i] - DIGIT_0;
        proof {
            assert(digits@.take(i + 1).drop_last() =~= digits@.take(i as int));
            lemma_capped_push(number(digits@.take(i as int)), digit as nat);
        }
        size = push_capped(size, digit);
        i += 1;
    }
    assert(digits@.take(count as int) =~= digits@);
    Some(Reach { negative, size })
}

/// The digit at place `i` of `whole` followed by `frac`.
fn digit_of(whole: &[u8], frac: &[u8], i: usize) -> (d: u8)
    requires
        i < whole@.len() + frac@.len(),
        all_digits(whole@),
        all_digits(frac@),
    ensures
        d == (whole@ + frac@)[i as int] - DIGIT_0,
        d <= 9,
{
    if i < whole.len() {
        whole[i] - DIGIT_0
    } else {
        frac[i - whole.len()] - DIGIT_0
    }
}

/// The number that the first `keep` digits of `whole` followed by `frac`
/// write, held at `u64::MAX`.
fn digits_value(whole: &[u8], frac: &[u8], keep: usize) -> (r: u64)
    requires
        keep <= whole@.len() + frac@.len(),
        all_digits(whole@),
        all_digits(frac@),
    ensures
        r == clamp(number((whole@ + frac@).take(keep as int))),
{
    let ghost digits = whole@ + frac@;
    let mut acc: u64 = 0;
    let mut i: usize = 0;
    assert(digits.take(0) =~= Seq::<u8>::empty());
    while i < keep
        invariant
            i <= keep,
            keep <= whole@.len() + frac@.len(),
            all_digits(whole@),
            all_digits(frac@),
            digits == whole@ + frac@,
            acc == clamp(number(digits.take(i as int))),
        decreases keep - i,
    {
        let digit: u8 = digit_of(whole, frac, i);
        proof {
            assert(digits.take(i + 1).drop_last() =~= digits.take(i as int));
            lemma_clamp_scaled(number(digits.take(i as int)), 10, digit as nat);
        }
        acc = push_digit(acc, digit);
        i += 1;
    }
    acc
}

/// The number that `places` digits write, taken from `whole` followed by
/// `frac` and from zeros past their end, held at `u64::MAX`.
fn value_at(whole: &[u8], frac: &[u8], places: u128) -> (r: u64)
    requires
        whole@.len() + frac@.len() <= usize::MAX,
        all_digits(whole@),
        all_digits(frac@),
    ensures
        r == clamp(scaled(whole@ + frac@, places as int)),
{
    let ghost digits = whole@ + frac@;
    let total: usize = whole.len() + frac.len();
    if places == 0 {
        0
    } else if places <= total as u128 {
        digits_value(whole, frac, places as usize)
    } else {
        let value: u64 = digits_value(whole, frac, total);
        let pad: u128 = places - total as u128;
        proof {
            assert(digits.take(total as int) =~= digits);
        }
        if value == 0 {
            proof {
                lemma_scaled_zero(digits, places as int);
            }
            0
        } else if pad >= 20 {
            proof {
                lemma_scaled_big(digits, places as int);
            }
            u64::MAX
        } else {
            let mut acc: u64 = value;
            let mut done: u128 = 0;
            while done < pad
                invariant
                    done <= pad,
                    pad < 20,
                    total == digits.len(),
                    total > 0 || value == 0,
                    acc == clamp(scaled(digits, total + done)),
                decreases pad - done,
            {
                proof {
                    lemma_clamp_scaled(scaled(digits, total + done), 10, 0);
                }
                acc = push_digit(acc, 0);
                done += 1;
            }
            acc
        }
    }
}

/// The number that the digits `whole` and `frac` about a point write in
/// microseconds, with the point moved as `reach` says, held at `u64::MAX`.
fn scale(whole: &[u8], frac: &[u8], reach: Reach, Ghost(e): Ghost<int>) -> (r: u64)
    requires
        whole@.len() + frac@.len() <= usize::MAX,
        all_digits(whole@),
        all_digits(frac@),
        reach_of(reach, e),
    ensures
        r == clamp(scaled(whole@ + frac@, whole@.len() + 3 + e)),
{
    let ghost digits = whole@ + frac@;
    let base: u128 = whole.len() as u128 + 3;
    if reach.negative {
        if reach.size >= base {
            0
        } else {
            value_at(whole, frac, base - reach.size)
        }
    } else if reach.size >= EXPONENT_CAP {
        let value: u64 = digits_value(whole, frac, whole.len() + frac.len());
        proof {
            assert(digits.take(digits.len() as int) =~= digits);
            if value == 0 {
                lemma_scaled_zero(digits, whole@.len() + 3 + e);
            } else {
                lemma_scaled_big(digits, whole@.len() + 3 + e);
            }
        }
        if value == 0 {
            0
        } else {
            u64::MAX
        }
    } else {
        value_at(whole, frac, base + reach.size)
    }
}

/// Reads an unsigned decimal number of milliseconds as microseconds.
fn parse_number(body: &[u8]) -> (micros: Option<u64>)
    ensures
        micros == match number_micros(body@) {
            Some(n) => Some(clamp(n)),
            None => None,
        },
{
    let len: usize = body.len();
    let k: usize = count_digits(body);
    let whole = slice_subrange(body, 0, k);
    let rest = slice_subrange(body, k, len);
    let after = if rest.len() > 0 && rest[0] == DOT {
        slice_subrange(rest, 1, rest.len())
    } else {
        rest
    };
    let f: usize = count_digits(after);
    let frac = slice_subrange(after, 0, f);
    let tail = slice_subrange(after, f, after.len());
    assert(whole@ == body@.take(k as int));
    assert(rest@ == body@.skip(k as int));
    assert(frac@ == after@.take(f as int));
    assert(tail@ == after@.skip(f as int));
    if k == 0 && f == 0 {
        return None;
    }
    match parse_exponent(tail) {
        Some(reach) => Some(scale(whole, frac, reach, Ghost(exponent(tail@)->0))),
        None => None,
    }
}

/// Reads the text of a value in milliseconds.
///
/// `Some` exactly for a decimal float, `inf`, `infinity` and `nan`, signed
/// or not. A number is cut off at whole microseconds and held within `u64`:
/// at `u64::MAX` where it is greater or infinite, at zero where it is below
/// zero.
pub fn parse_millis(text: &[u8]) -> (amount: Option<Amount>)
    ensures
        amount == millis_amount(text@),
{
    let negative: bool = text.len() > 0 && text[0] == MINUS;
    let body = without_sign(text);
    if word_is_inf(body) {
        Some(
            Amount::Micros(
                if negative {
                    0
                } else {
                    u64::MAX
                },
            ),
        )
    } else if word_is_nan(body) {
        Some(Amount::NotANumber)
    } else {
        match parse_number(body) {
            Some(us) => Some(
                Amount::Micros(
                    if negative {
                        0
                    } else {
                        us
                    },
                ),
            ),
            None => None,
        }
    }
}

/// The length that is left of `text` once any run of `ms` at its end is dropped.
fn stripped_len(text: &[u8]) -> (end: usize)
    ensures
        end <= text@.len(),
        text@.take(end as int) == strip_ms(text@),
{
    let mut end: usize = text.len();
    assert(text@.take(end as int) == text@);
    while end >= 2 && text[end - 2] == LETTER_M && text[end - 1] == LETTER_S
        invariant
            end <= text@.len(),
            strip_ms(text@.take(end as int)) == strip_ms(text@),
        decreases end,
    {
        assert(text@.take(end as int).take(end - 2) == text@.take(end - 2));
        end -= 2;
    }
    end
}

/// Whether the lower-case token starts with `time` or `zeit` and `mark`.
fn label_matches(low: &[u8], mark: u8) -> (r: bool)
    ensures
        r == has_label(low@, mark),
{
    low.len() >= 5 && low[4] == mark && ((low[0] == LETTER_T && low[1] == LETTER_I && low[2] == LETTER_M
        && low[3] == LETTER_E) || (low[0] == LETTER_Z && low[1] == LETTER_E && low[2] == LETTER_I && low[3]
        == LETTER_T))
}

/// A lower-case copy of `tok`.
fn lower_copy(tok: &[u8]) -> (low: Vec<u8>)
    ensures
        low@ == lowered(tok@),
{
    let mut low: Vec<u8> = Vec::new();
    let mut i: usize = 0;
    while i < tok.len()
        invariant
            i <= tok@.len(),
            low@.len() == i,
            forall|j: int| 0 <= j < i ==> low@[j] == lower(tok@[j]),
        decreases tok@.len() - i,
    {
        low.push(byte_lower(tok[i]));
        i += 1;
    }
    low
}

/// The value part of a labelled lower-case token: what follows the label,
/// without trailing `ms`.
fn value_part(low: &[u8]) -> (value: &[u8])
    requires
        low@.len() >= 5,
    ensures
        value@ == strip_ms(low@.skip(5)),
{
    let tail = slice_subrange(low, 5, low.len());
    let end: usize = stripped_len(tail);
    slice_subrange(tail, 0, end)
}

/// Reads one whitespace-free token: `None` if it says nothing of a
/// latency, else `Some` of what the reading ends with.
pub fn read_token(tok: &[u8]) -> (reading: Option<Option<u64>>)
    ensures
        reading == token_reading(tok@),
{
    let low = lower_copy(tok);
    if label_matches(low.as_slice(), LESS) {
        let value = value_part(low.as_slice());
        match parse_millis(value) {
            Some(Amount::Micros(us)) => if us >= 1000 {
                Some(Some(500))
            } else {
                Some(Some(us / 2))
            },
            Some(Amount::NotANumber) => Some(Some(500)),
            None => None,
        }
    } else if label_matches(low.as_slice(), EQUALS) {
        let value = value_part(low.as_slice());
        if value.len() > 0 && value[0] == LESS {
            Some(Some(500))
        } else {
            match parse_millis(value) {
                Some(Amount::Micros(us)) => Some(Some(us)),
                Some(Amount::NotANumber) => Some(None),
                None => None,
            }
        }
    } else {
        None
    }
}

/// The index just past the token that starts at `from`.
fn find_token_end(text: &[u8], from: usize) -> (end: usize)
    requires
        from < text@.len(),
        space_len(text@, from as int) == 0,
    ensures
        from < end <= text@.len(),
        end == token_end(text@, from as int),
{
    let len: usize = text.len();
    let mut end: usize = from + 1;
    while end < len && space_at(text, end) == 0
        invariant
            from < end <= len,
            len == text@.len(),
            forall|j: int| from <= j < end ==> space_len(text@, j) == 0,
        decreases len - end,
    {
        end += 1;
    }
    proof {
        lemma_token_end_is(text@, from as int, end as int);
    }
    end
}

/// The latency, in microseconds, that a probe's output reports.
///
/// `None` when no token of the output says anything of a latency, or the
/// first that does is `time=nan`.
pub fn parse_time(stdout: &[u8]) -> (latency_us: Option<u64>)
    ensures
        latency_us == first_reading(stdout@),
{
    let len: usize = stdout.len();
    let mut i: usize = 0;
    while i < len
        invariant
            i <= len,
            len == stdout@.len(),
            first_reading(stdout@) == reading_from(stdout@, i as int),
        decreases len - i,
    {
        let gap: usize = space_at(stdout, i);
        if gap > 0 {
            i += gap;
        } else {
            let end: usize = find_token_end(stdout, i);
            let tok = slice_subrange(stdout, i, end);
            match read_token(tok) {
                Some(reading) => {
                    return reading;
                },
                None => {},
            }
            i = end;
        }
    }
    None
}

} // verus!
