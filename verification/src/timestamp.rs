//! Timestamp tokens of the form `minutes:seconds[.fraction]` and their value
//! in milliseconds.

use vstd::arithmetic::div_mod::lemma_fundamental_div_mod_converse;
use vstd::prelude::*;
use crate::text::{chars_of, find_from, next_index, slice_of};

verus! {

/// Whether `c` is one of the decimal digits `0` to `9`.
pub open spec fn is_digit(c: char) -> bool {
    0x30 <= (c as u32) <= 0x39
}

/// The number that the decimal digit `c` stands for.
pub open spec fn digit_value(c: char) -> nat {
    if is_digit(c) {
        ((c as u32) - 0x30) as nat
    } else {
        0
    }
}

/// Whether `s` holds decimal digits only.
pub open spec fn all_digits(s: Seq<char>) -> bool {
    forall|i: int| 0 <= i < s.len() ==> is_digit(#[trigger] s[i])
}

/// The number written by the decimal digits `s`; 0 for no digits.
pub open spec fn decimal_value(s: Seq<char>) -> nat
    decreases s.len(),
{
    if s.len() == 0 {
        0
    } else {
        decimal_value(s.drop_last()) * 10 + digit_value(s.last())
    }
}

/// The digit of `s` at `i`, or 0 where `s` has no such place.
pub open spec fn digit_at(s: Seq<char>, i: int) -> nat {
    if 0 <= i < s.len() {
        digit_value(s[i])
    } else {
        0
    }
}

/// The thousandths that the fraction digits `f` stand for, rounded to the
/// nearest whole number, halves upwards: the first three digits, and one more
/// when the fourth digit is 5 or above.
pub open spec fn fraction_millis(f: Seq<char>) -> nat {
    digit_at(f, 0) * 100 + digit_at(f, 1) * 10 + digit_at(f, 2) + if digit_at(f, 3) >= 5 {
        1nat
    } else {
        0nat
    }
}

/// The whole-number part of a seconds field: what stands before the first
/// decimal point.
pub open spec fn whole_part(s: Seq<char>) -> Seq<char> {
    s.subrange(0, next_index(s, '.', 0))
}

/// The fraction part of a seconds field: what stands after the first decimal
/// point, or nothing.
pub open spec fn fraction_part(s: Seq<char>) -> Seq<char> {
    let dot = next_index(s, '.', 0);
    if dot < s.len() {
        s.subrange(dot + 1, s.len() as int)
    } else {
        Seq::empty()
    }
}

/// The minutes field: one or more digits.
pub open spec fn minutes_value(s: Seq<char>) -> Option<nat> {
    if s.len() > 0 && all_digits(s) {
        Some(decimal_value(s))
    } else {
        None
    }
}

/// The seconds field in milliseconds: digits, optionally a decimal point and
/// more digits, with at least one digit in all.
pub open spec fn seconds_millis(s: Seq<char>) -> Option<nat> {
    let whole = whole_part(s);
    let frac = fraction_part(s);
    if all_digits(whole) && all_digits(frac) && whole.len() + frac.len() > 0 {
        Some(decimal_value(whole) * 1000 + fraction_millis(frac))
    } else {
        None
    }
}

/// The minutes field of a token: what stands before the first colon.
pub open spec fn minutes_field(t: Seq<char>) -> Seq<char> {
    t.subrange(0, next_index(t, ':', 0))
}

/// The seconds field of a token: what stands between the first colon and the
/// second, or the end of the token.
pub open spec fn seconds_field(t: Seq<char>) -> Seq<char> {
    let first = next_index(t, ':', 0);
    t.subrange(first + 1, next_index(t, ':', first + 1))
}

/// The value of a timestamp token in milliseconds, as an unbounded number:
/// the minutes times 60000 plus the seconds in milliseconds. A token without
/// a colon, or with a field that is not numeric, has no value. Whatever
/// follows a second colon is ignored.
pub open spec fn timestamp_value(t: Seq<char>) -> Option<nat> {
    if next_index(t, ':', 0) >= t.len() {
        None
    } else {
        match (minutes_value(minutes_field(t)), seconds_millis(seconds_field(t))) {
            (Some(m), Some(ms)) => Some(m * 60000 + ms),
            _ => None,
        }
    }
}

/// The value of a timestamp token as the parser gives it: the value in
/// milliseconds where it fits in 32 bits, otherwise none.
pub open spec fn timestamp_ms(t: Seq<char>) -> Option<u32> {
    match timestamp_value(t) {
        Some(v) => if v <= u32::MAX {
            Some(v as u32)
        } else {
            None
        },
        None => None,
    }
}

/// The largest value that a parsed timestamp can have.
pub const MAX_MS: u64 = 4294967295;

/// Appending a digit multiplies the value by ten and adds the digit.
pub proof fn lemma_decimal_value_push(s: Seq<char>, c: char)
    ensures
        decimal_value(s.push(c)) == decimal_value(s) * 10 + digit_value(c),
{
    assert(s.push(c).drop_last() =~= s);
}

/// Whether `chars` holds decimal digits only.
pub fn is_all_digits(chars: &Vec<char>) -> (b: bool)
    ensures
        b == all_digits(chars@),
{
    let mut i: usize = 0;
    while i < chars.len()
        invariant
            i <= chars@.len(),
            forall|j: int| 0 <= j < i ==> is_digit(#[trigger] chars@[j]),
        decreases chars@.len() - i,
    {
        let n: u32 = chars[i] as u32;
        if n < 0x30 || n > 0x39 {
            return false;
        }
        i += 1;
    }
    true
}

/// Reads the decimal digits `chars`. The result is none where `chars` holds
/// anything but digits; otherwise the number written, or `MAX_MS + 1` where
/// the number is larger than `MAX_MS`.
pub fn parse_digits(chars: &Vec<char>) -> (r: Option<u64>)
    ensures
        r is Some <==> all_digits(chars@),
        r matches Some(v) ==> v == if decimal_value(chars@) <= MAX_MS {
            decimal_value(chars@)
        } else {
            (MAX_MS + 1) as nat
        },
{
    let mut acc: u64 = 0;
    let mut i: usize = 0;
    while i < chars.len()
        invariant
            i <= chars@.len(),
            forall|j: int| 0 <= j < i ==> is_digit(#[trigger] chars@[j]),
            acc <= MAX_MS + 1,
            acc == if decimal_value(chars@.take(i as int)) <= MAX_MS {
                decimal_value(chars@.take(i as int))
            } else {
                (MAX_MS + 1) as nat
            },
        decreases chars@.len() - i,
    {
        let n: u32 = chars[i] as u32;
        if n < 0x30 || n > 0x39 {
            return None;
        }
        let d: u64 = (n - 0x30) as u64;
        proof {
            lemma_decimal_value_push(chars@.take(i as int), chars@[i as int]);
            assert(chars@.take(i + 1) =~= chars@.take(i as int).push(chars@[i as int]));
        }
        let next: u64 = acc * 10 + d;
        acc = if next > MAX_MS {
            MAX_MS + 1
        } else {
            next
        };
        i += 1;
    }
    assert(chars@.take(i as int) =~= chars@);
    Some(acc)
}

/// Reads a seconds field and gives it in milliseconds: none where the field
/// is not numeric; otherwise the value, or some number above `MAX_MS` where
/// the value is above `MAX_MS`.
pub fn parse_seconds(chars: &Vec<char>) -> (r: Option<u64>)
    ensures
        r is Some <==> seconds_millis(chars@) is Some,
        r matches Some(v) ==> (if seconds_millis(chars@)->0 <= MAX_MS {
            v == seconds_millis(chars@)->0
        } else {
            v > MAX_MS
        }),
{
    let dot = find_from(chars, '.', 0);
    let whole = slice_of(chars, 0, dot);
    let frac = if dot < chars.len() {
        slice_of(chars, dot + 1, chars.len())
    } else {
        Vec::new()
    };
    assert(whole@ == whole_part(chars@));
    assert(frac@ =~= fraction_part(chars@));
    if whole.len() + frac.len() == 0 {
        return None;
    }
    if !is_all_digits(&frac) {
        return None;
    }
    match parse_digits(&whole) {
        None => None,
        Some(w) => {
            let d0: u64 = if frac.len() > 0 {
                (frac[0] as u32 - 0x30) as u64
            } else {
                0
            };
            let d1: u64 = if frac.len() > 1 {
                (frac[1] as u32 - 0x30) as u64
            } else {
                0
            };
            let d2: u64 = if frac.len() > 2 {
                (frac[2] as u32 - 0x30) as u64
            } else {
                0
            };
            let up: u64 = if frac.len() > 3 && (frac[3] as u32 - 0x30) >= 5 {
                1
            } else {
                0
            };
            Some(w * 1000 + d0 * 100 + d1 * 10 + d2 + up)
        },
    }
}

/// Reads a timestamp token given as characters.
pub fn parse_ts_chars(token: &Vec<char>) -> (r: Option<u32>)
    ensures
        r == timestamp_ms(token@),
{
    let first = find_from(token, ':', 0);
    if first >= token.len() {
        return None;
    }
    let second = find_from(token, ':', first + 1);
    let minutes = slice_of(token, 0, first);
    let seconds = slice_of(token, first + 1, second);
    assert(minutes@ == minutes_field(token@));
    assert(seconds@ == seconds_field(token@));
    if minutes.len() == 0 {
        return None;
    }
    let m = match parse_digits(&minutes) {
        Some(m) => m,
        None => {
            return None;
        },
    };
    let s = match parse_seconds(&seconds) {
        Some(s) => s,
        None => {
            return None;
        },
    };
    if m > MAX_MS || s > MAX_MS {
        return None;
    }
    let total: u64 = m * 60000 + s;
    if total > MAX_MS {
        None
    } else {
        Some(total as u32)
    }
}

/// Reads a timestamp token `minutes:seconds[.fraction]` and gives its value
/// in milliseconds: the minutes times 60000 plus the seconds times 1000,
/// rounded to the nearest millisecond. The result is none where the token
/// has no colon, where a field is not numeric, and where the value does not
/// fit in 32 bits.
pub fn parse_ts(ts: &str) -> (r: Option<u32>)
    ensures
        r == timestamp_ms(ts@),
{
    let token = chars_of(ts);
    parse_ts_chars(&token)
}

/// Ten to the power `n`.
pub open spec fn pow10(n: nat) -> nat
    decreases n,
{
    if n == 0 {
        1
    } else {
        10 * pow10((n - 1) as nat)
    }
}

/// The whole number nearest to `a / b`, halves upwards; `b` is not 0.
pub open spec fn round_half_up(a: nat, b: nat) -> nat {
    ((2 * a + b) / (2 * b)) as nat
}

/// The seconds written with the whole digits `whole` and the fraction
/// digits `frac`, times 1000 and rounded to the nearest whole number.
pub open spec fn rounded_millis(whole: Seq<char>, frac: Seq<char>) -> nat {
    round_half_up(decimal_value(whole + frac) * 1000, pow10(frac.len()))
}

/// The token written with the minutes `m`, the whole seconds `s` and the
/// fraction digits `f`.
pub open spec fn token_of(m: Seq<char>, s: Seq<char>, f: Seq<char>) -> Seq<char> {
    m + seq![':'] + s + seq!['.'] + f
}

proof fn lemma_pow10_positive(n: nat)
    ensures
        pow10(n) > 0,
    decreases n,
{
    if n > 0 {
        lemma_pow10_positive((n - 1) as nat);
    }
}

/// Digits write a number below the power of ten of their count.
proof fn lemma_decimal_value_bound(s: Seq<char>)
    ensures
        decimal_value(s) < pow10(s.len()),
    decreases s.len(),
{
    if s.len() > 0 {
        lemma_decimal_value_bound(s.drop_last());
    }
}

/// The value of digits written one after the other.
proof fn lemma_decimal_value_concat(a: Seq<char>, b: Seq<char>)
    ensures
        decimal_value(a + b) == decimal_value(a) * pow10(b.len()) + decimal_value(b),
    decreases b.len(),
{
    if b.len() == 0 {
        assert(a + b =~= a);
        assert(pow10(b.len()) == 1);
        assert(decimal_value(a) * 1 == decimal_value(a));
    } else {
        lemma_decimal_value_concat(a, b.drop_last());
        assert((a + b).drop_last() =~= a + b.drop_last());
        let x = decimal_value(a) as int;
        let p = pow10(b.drop_last().len()) as int;
        let y = decimal_value(b.drop_last()) as int;
        let d = digit_value(b.last()) as int;
        assert((a + b).last() == b.last());
        assert(pow10(b.len()) == 10 * p);
        assert(decimal_value(a + b) == (x * p + y) * 10 + d);
        assert(decimal_value(b) == y * 10 + d);
        let whole = decimal_value(a + b) as int;
        let part = decimal_value(b) as int;
        let pw = pow10(b.len()) as int;
        assert(whole == x * pw + part) by (nonlinear_arith)
            requires
                whole == (x * p + y) * 10 + d,
                part == y * 10 + d,
                pw == 10 * p,
        ;
    }
}

/// The quotient is `q` where the dividend lies between `q` and `q + 1`
/// times the divisor.
proof fn lemma_quotient_is(x: int, d: int, q: int)
    requires
        d > 0,
        q * d <= x < q * d + d,
    ensures
        x / d == q,
{
    lemma_fundamental_div_mod_converse(x, d, q, x - q * d);
}

/// The value of at most four digits, digit by digit.
proof fn lemma_decimal_value_short(f: Seq<char>)
    requires
        f.len() <= 4,
    ensures
        f.len() == 0 ==> decimal_value(f) == 0,
        f.len() == 1 ==> decimal_value(f) == digit_at(f, 0),
        f.len() == 2 ==> decimal_value(f) == digit_at(f, 0) * 10 + digit_at(f, 1),
        f.len() == 3 ==> decimal_value(f) == digit_at(f, 0) * 100 + digit_at(f, 1) * 10 + digit_at(
            f,
            2,
        ),
        f.len() == 4 ==> decimal_value(f) == digit_at(f, 0) * 1000 + digit_at(f, 1) * 100
            + digit_at(f, 2) * 10 + digit_at(f, 3),
    decreases f.len(),
{
    if f.len() > 0 {
        let g = f.drop_last();
        lemma_decimal_value_short(g);
        assert forall|i: int| 0 <= i < g.len() implies digit_at(g, i) == digit_at(f, i) by {
            assert(g[i] == f[i]);
        }
        if g.len() >= 1 {
            assert(digit_at(g, 0) == digit_at(f, 0));
        }
        if g.len() >= 2 {
            assert(digit_at(g, 1) == digit_at(f, 1));
        }
        if g.len() >= 3 {
            assert(digit_at(g, 2) == digit_at(f, 2));
        }
    }
}

/// The thousandths that fraction digits stand for are their value times
/// 1000, divided by the power of ten of their count and rounded to the
/// nearest whole number.
pub proof fn lemma_fraction_rounding(f: Seq<char>)
    ensures
        round_half_up(decimal_value(f) * 1000, pow10(f.len())) == fraction_millis(f),
{
    let v = decimal_value(f) as int;
    let p = pow10(f.len()) as int;
    lemma_pow10_positive(f.len());
    lemma_decimal_value_bound(f);
    if f.len() <= 3 {
        lemma_decimal_value_short(f);
        reveal_with_fuel(pow10, 5);
        let q = fraction_millis(f) as int;
        assert(pow10(0) == 1 && pow10(1) == 10 && pow10(2) == 100 && pow10(3) == 1000);
        if f.len() == 0 {
            assert(p == 1 && v == 0 && q == 0);
            lemma_quotient_is(1, 2, 0);
        } else if f.len() == 1 {
            assert(p == 10 && q == 100 * v);
            assert((100 * v) * 20 == 2000 * v);
            lemma_quotient_is(2000 * v + 10, 20, 100 * v);
        } else if f.len() == 2 {
            assert(p == 100 && q == 10 * v);
            assert((10 * v) * 200 == 2000 * v);
            lemma_quotient_is(2000 * v + 100, 200, 10 * v);
        } else {
            assert(p == 1000 && q == v);
            lemma_quotient_is(2000 * v + 1000, 2000, v);
        }
    } else {
        let head = f.take(4);
        let tail = f.skip(4);
        assert(head + tail =~= f);
        lemma_decimal_value_concat(head, tail);
        lemma_decimal_value_short(head);
        lemma_decimal_value_bound(tail);
        lemma_pow10_positive(tail.len());
        let t = pow10(tail.len()) as int;
        let r = decimal_value(tail) as int;
        let h = decimal_value(head) as int;
        let d3 = digit_at(f, 3) as int;
        let h3 = (digit_at(f, 0) * 100 + digit_at(f, 1) * 10 + digit_at(f, 2)) as int;
        assert(digit_at(head, 0) == digit_at(f, 0) && digit_at(head, 1) == digit_at(f, 1)
            && digit_at(head, 2) == digit_at(f, 2) && digit_at(head, 3) == digit_at(f, 3));
        assert(h == h3 * 10 + d3);
        assert(v == h * t + r);
        assert(p == 10000 * t) by {
            lemma_pow10_add4(tail.len());
            assert(f.len() == tail.len() + 4);
        }
        let q = fraction_millis(f) as int;
        let up: int = if d3 >= 5 {
            1
        } else {
            0
        };
        assert(q == h3 + up);
        assert(0 <= d3 <= 9);
        assert(0 <= r < t);
        let x = 2 * (v * 1000) + p;
        let d = 2 * p;
        assert(q * d <= x < q * d + d) by (nonlinear_arith)
            requires
                x == 2 * (((h3 * 10 + d3) * t + r) * 1000) + 10000 * t,
                d == 2 * (10000 * t),
                q == h3 + up,
                up == (if d3 >= 5 {
                    1int
                } else {
                    0int
                }),
                0 <= d3 <= 9,
                0 <= r < t,
                h3 >= 0,
        ;
        lemma_quotient_is(x, d, q);
    }
}

proof fn lemma_pow10_add4(n: nat)
    ensures
        pow10(n + 4) == 10000 * pow10(n),
{
    reveal_with_fuel(pow10, 5);
}

/// The seconds field `s.f`, read digit by digit, is the number it writes
/// times 1000, rounded to the nearest whole number.
pub proof fn lemma_seconds_rounding(s: Seq<char>, f: Seq<char>)
    ensures
        decimal_value(s) * 1000 + fraction_millis(f) == rounded_millis(s, f),
{
    let p = pow10(f.len()) as int;
    let a = decimal_value(s) as int;
    let v = decimal_value(f) as int;
    lemma_pow10_positive(f.len());
    lemma_decimal_value_concat(s, f);
    lemma_fraction_rounding(f);
    let q = fraction_millis(f) as int;
    // q is the quotient of 2000 v + p by 2 p
    let x = 2 * (v * 1000) + p;
    assert(x / (2 * p) == q);
    let rem = x - q * (2 * p);
    assert(0 <= rem < 2 * p) by {
        vstd::arithmetic::div_mod::lemma_fundamental_div_mod(x, 2 * p);
        vstd::arithmetic::div_mod::lemma_mod_bound(x, 2 * p);
        assert(x == (2 * p) * (x / (2 * p)) + x % (2 * p));
        assert((2 * p) * q == q * (2 * p)) by (nonlinear_arith);
    }
    let whole = 2 * ((a * p + v) * 1000) + p;
    assert(whole == (a * 1000 + q) * (2 * p) + rem) by (nonlinear_arith)
        requires
            whole == 2 * ((a * p + v) * 1000) + p,
            rem == 2 * (v * 1000) + p - q * (2 * p),
    ;
    lemma_fundamental_div_mod_converse(whole, 2 * p, a * 1000 + q, rem);
}

/// Where `s` holds no `c` from `from` up to `at`, and holds one at `at` or
/// ends there, the first `c` at or after `from` is at `at`.
pub proof fn lemma_next_index_is(s: Seq<char>, c: char, from: int, at: int)
    requires
        0 <= from <= at <= s.len(),
        forall|i: int| from <= i < at ==> s[i] != c,
        at < s.len() ==> s[at] == c,
    ensures
        next_index(s, c, from) == at,
    decreases at - from,
{
    if from < at {
        lemma_next_index_is(s, c, from + 1, at);
    }
}

/// A token `minutes:seconds.fraction` made of digits has the value of the
/// minutes times 60000 plus the seconds times 1000, rounded to the nearest
/// millisecond. The minutes have at least one digit; the seconds have at
/// least one digit before or after the point.
pub proof fn lemma_timestamp_of_token(m: Seq<char>, s: Seq<char>, f: Seq<char>)
    requires
        all_digits(m),
        all_digits(s),
        all_digits(f),
        m.len() > 0,
        s.len() + f.len() > 0,
    ensures
        timestamp_value(token_of(m, s, f)) == Some(decimal_value(m) * 60000 + rounded_millis(s, f)),
        decimal_value(m) * 60000 + rounded_millis(s, f) <= u32::MAX ==> timestamp_ms(
            token_of(m, s, f),
        ) == Some((decimal_value(m) * 60000 + rounded_millis(s, f)) as u32),
{
    let t = token_of(m, s, f);
    let first = m.len() as int;
    let dot = first + 1 + s.len();
    assert(t.len() == dot + 1 + f.len());
    assert forall|i: int| 0 <= i < t.len() && i != first && i != dot implies is_digit(t[i]) by {
        if i < first {
            assert(t[i] == m[i]);
        } else if i < dot {
            assert(t[i] == s[i - first - 1]);
        } else {
            assert(t[i] == f[i - dot - 1]);
        }
    }
    assert(t[first] == ':');
    assert(t[dot] == '.');
    lemma_next_index_is(t, ':', 0, first);
    lemma_next_index_is(t, ':', first + 1, t.len() as int);
    assert(minutes_field(t) =~= m);
    let field = seconds_field(t);
    assert(field =~= s + seq!['.'] + f);
    lemma_next_index_is(field, '.', 0, s.len() as int);
    assert(whole_part(field) =~= s);
    assert(fraction_part(field) =~= f);
    lemma_seconds_rounding(s, f);
}

/// A token `minutes:seconds` made of digits has the value of the minutes
/// times 60000 plus the seconds times 1000.
pub proof fn lemma_timestamp_of_whole_seconds(m: Seq<char>, s: Seq<char>)
    requires
        all_digits(m),
        all_digits(s),
        m.len() > 0,
        s.len() > 0,
    ensures
        timestamp_value(m + seq![':'] + s) == Some(
            decimal_value(m) * 60000 + decimal_value(s) * 1000,
        ),
{
    let t = m + seq![':'] + s;
    let first = m.len() as int;
    assert forall|i: int| 0 <= i < t.len() && i != first implies is_digit(t[i]) by {
        if i < first {
            assert(t[i] == m[i]);
        } else {
            assert(t[i] == s[i - first - 1]);
        }
    }
    assert(t[first] == ':');
    lemma_next_index_is(t, ':', 0, first);
    lemma_next_index_is(t, ':', first + 1, t.len() as int);
    assert(minutes_field(t) =~= m);
    let field = seconds_field(t);
    assert(field =~= s);
    lemma_next_index_is(field, '.', 0, s.len() as int);
    assert(whole_part(field) =~= s);
    assert(fraction_part(field) =~= Seq::<char>::empty());
}

} // verus!
