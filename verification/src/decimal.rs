//! Reading and writing decimal numbers as fixed-point amounts.
//!
//! A decimal number is an optional sign, digits with an optional point
//! among them, and an optional exponent: `e` or `E`, an optional sign and
//! digits. It stands for its digits times a power of ten, counted in units
//! and rounded towards zero.

use vstd::prelude::*;
use vstd::arithmetic::div_mod::lemma_basic_div;
use vstd::arithmetic::div_mod::lemma_div_denominator;
use vstd::arithmetic::div_mod::lemma_fundamental_div_mod;
use vstd::arithmetic::div_mod::lemma_fundamental_div_mod_converse;
use vstd::arithmetic::div_mod::lemma_mod_bound;
use vstd::arithmetic::div_mod::lemma_small_mod;
use vstd::utf8::is_ascii_chars;
use crate::fixed::DECIMALS;
use crate::fixed::SCALE;

verus! {

/// The size from which on an exponent is no longer told from a greater
/// one: it is far beyond the length of any text.
pub const EXPONENT_CAP: i128 = 100_000_000_000_000_000_000;

/// Whether a character is one of the ten decimal digits.
pub open spec fn is_digit(c: char) -> bool {
    '0' <= c && c <= '9'
}

/// The value of a decimal digit.
pub open spec fn digit_value(c: char) -> int {
    c as int - '0' as int
}

/// Whether every character of a text is a decimal digit.
pub open spec fn all_digits(s: Seq<char>) -> bool {
    forall|i: int| 0 <= i < s.len() ==> is_digit(#[trigger] s[i])
}

/// The number that a string of decimal digits writes; zero for none.
pub open spec fn digits_value(s: Seq<char>) -> int
    decreases s.len(),
{
    if s.len() == 0 {
        0
    } else {
        digits_value(s.drop_last()) * 10 + digit_value(s.last())
    }
}

/// Ten to the power of `e`.
pub open spec fn pow10(e: nat) -> int
    decreases e,
{
    if e == 0 {
        1
    } else {
        10 * pow10((e - 1) as nat)
    }
}

/// A number times ten to the power of `k`; for a power below zero, the
/// quotient rounded down.
pub open spec fn times_pow10(v: int, k: int) -> int {
    if k >= 0 {
        v * pow10(k as nat)
    } else {
        v / pow10((-k) as nat)
    }
}

/// The position of the first `.`, or the length when there is none.
pub open spec fn dot_index(s: Seq<char>) -> int
    decreases s.len(),
{
    if s.len() == 0 || s[0] == '.' {
        0
    } else {
        1 + dot_index(s.drop_first())
    }
}

/// Whether a character opens an exponent.
pub open spec fn is_exponent_mark(c: char) -> bool {
    c == 'e' || c == 'E'
}

/// The position of the first `e` or `E`, or the length when there is none.
pub open spec fn exponent_index(s: Seq<char>) -> int
    decreases s.len(),
{
    if s.len() == 0 || is_exponent_mark(s[0]) {
        0
    } else {
        1 + exponent_index(s.drop_first())
    }
}

/// Whether a text starts with a plus or a minus sign.
pub open spec fn has_sign(s: Seq<char>) -> bool {
    s.len() > 0 && (s[0] == '-' || s[0] == '+')
}

/// The text without its sign.
pub open spec fn unsigned_text(s: Seq<char>) -> Seq<char> {
    if has_sign(s) {
        s.drop_first()
    } else {
        s
    }
}

/// The digits before the point.
pub open spec fn whole_digits(s: Seq<char>) -> Seq<char> {
    unsigned_text(s).take(dot_index(unsigned_text(s)))
}

/// The digits after the point; none when there is no point.
pub open spec fn fraction_digits(s: Seq<char>) -> Seq<char> {
    let body = unsigned_text(s);
    if dot_index(body) < body.len() {
        body.skip(dot_index(body) + 1)
    } else {
        Seq::empty()
    }
}

/// A decimal number without an exponent: an optional sign, digits, and
/// optionally a point and more digits, with at least one digit in all.
pub open spec fn is_plain_decimal(s: Seq<char>) -> bool {
    &&& all_digits(whole_digits(s))
    &&& all_digits(fraction_digits(s))
    &&& whole_digits(s).len() + fraction_digits(s).len() >= 1
}

/// A whole number: an optional sign and at least one digit.
pub open spec fn is_integer_text(s: Seq<char>) -> bool {
    unsigned_text(s).len() >= 1 && all_digits(unsigned_text(s))
}

/// The whole number that a text writes.
pub open spec fn integer_value(s: Seq<char>) -> int {
    if s.len() > 0 && s[0] == '-' {
        -digits_value(unsigned_text(s))
    } else {
        digits_value(unsigned_text(s))
    }
}

/// The part of a text before its exponent mark.
pub open spec fn mantissa_text(s: Seq<char>) -> Seq<char> {
    s.take(exponent_index(s))
}

/// The part of a text after its exponent mark, if it has one.
pub open spec fn exponent_text(s: Seq<char>) -> Option<Seq<char>> {
    if exponent_index(s) < s.len() {
        Some(s.skip(exponent_index(s) + 1))
    } else {
        None
    }
}

/// The exponent of a text; zero when it has none.
pub open spec fn exponent_of(s: Seq<char>) -> int {
    match exponent_text(s) {
        Some(t) => integer_value(t),
        None => 0,
    }
}

/// A decimal number: a decimal number without an exponent, followed or not
/// by an exponent mark and a whole number. No blanks.
pub open spec fn is_decimal(s: Seq<char>) -> bool {
    &&& is_plain_decimal(mantissa_text(s))
    &&& match exponent_text(s) {
        Some(t) => is_integer_text(t),
        None => true,
    }
}

/// All digits of a decimal number without an exponent, the point left out.
pub open spec fn mantissa_digits(s: Seq<char>) -> Seq<char> {
    whole_digits(s) + fraction_digits(s)
}

/// The size of a decimal number in units, without its sign: its digits
/// read as one number, times ten to the power that the place of the point
/// and the exponent give. What lies beyond the eighth place after the
/// point is cut off.
pub open spec fn decimal_magnitude(s: Seq<char>) -> int {
    times_pow10(
        digits_value(mantissa_digits(mantissa_text(s))),
        DECIMALS - fraction_digits(mantissa_text(s)).len() + exponent_of(s),
    )
}

/// The amount that a text writes: the units of a decimal number whose size
/// is at most the greatest amount; nothing for any other text.
pub open spec fn decimal_value(s: Seq<char>) -> Option<i64> {
    if is_decimal(s) && decimal_magnitude(s) <= i64::MAX {
        if s[0] == '-' {
            Some((-decimal_magnitude(s)) as i64)
        } else {
            Some(decimal_magnitude(s) as i64)
        }
    } else {
        None
    }
}

proof fn lemma_dot_index(s: Seq<char>, j: int)
    requires
        0 <= j <= s.len(),
        forall|k: int| 0 <= k < j ==> s[k] != '.',
    ensures
        j <= dot_index(s) <= s.len(),
        (j == s.len() || s[j] == '.') ==> dot_index(s) == j,
        dot_index(s) < s.len() ==> s[dot_index(s)] == '.',
    decreases j,
{
    lemma_dot_index_bound(s);
    if j > 0 {
        let rest = s.drop_first();
        assert forall|k: int| 0 <= k < j - 1 implies rest[k] != '.' by {
            assert(rest[k] == s[k + 1]);
        }
        lemma_dot_index(rest, j - 1);
        if j < s.len() {
            assert(rest[j - 1] == s[j]);
        }
    }
}

proof fn lemma_dot_index_bound(s: Seq<char>)
    ensures
        0 <= dot_index(s) <= s.len(),
        dot_index(s) < s.len() ==> s[dot_index(s)] == '.',
    decreases s.len(),
{
    if s.len() > 0 && s[0] != '.' {
        lemma_dot_index_bound(s.drop_first());
    }
}

proof fn lemma_exponent_index(s: Seq<char>, j: int)
    requires
        0 <= j <= s.len(),
        forall|k: int| 0 <= k < j ==> !is_exponent_mark(s[k]),
    ensures
        j <= exponent_index(s) <= s.len(),
        (j == s.len() || is_exponent_mark(s[j])) ==> exponent_index(s) == j,
        exponent_index(s) < s.len() ==> is_exponent_mark(s[exponent_index(s)]),
    decreases j,
{
    lemma_exponent_index_bound(s);
    if j > 0 {
        let rest = s.drop_first();
        assert forall|k: int| 0 <= k < j - 1 implies !is_exponent_mark(rest[k]) by {
            assert(rest[k] == s[k + 1]);
        }
        lemma_exponent_index(rest, j - 1);
        if j < s.len() {
            assert(rest[j - 1] == s[j]);
        }
    }
}

proof fn lemma_exponent_index_bound(s: Seq<char>)
    ensures
        0 <= exponent_index(s) <= s.len(),
        exponent_index(s) < s.len() ==> is_exponent_mark(s[exponent_index(s)]),
    decreases s.len(),
{
    if s.len() > 0 && !is_exponent_mark(s[0]) {
        lemma_exponent_index_bound(s.drop_first());
    }
}

proof fn lemma_digits_value_grows(s: Seq<char>, n: int)
    requires
        all_digits(s),
        0 <= n <= s.len(),
    ensures
        0 <= digits_value(s.take(n)) <= digits_value(s),
    decreases s.len() - n,
{
    lemma_digits_value_nonneg(s.take(n));
    if n < s.len() {
        lemma_digits_value_grows(s, n + 1);
        assert(s.take(n + 1).drop_last() =~= s.take(n));
        assert(s.take(n + 1).last() == s[n]);
        assert(is_digit(s[n]));
    } else {
        assert(s.take(n) =~= s);
    }
}

proof fn lemma_digits_value_nonneg(s: Seq<char>)
    requires
        all_digits(s),
    ensures
        0 <= digits_value(s),
    decreases s.len(),
{
    if s.len() > 0 {
        assert(is_digit(s.last()));
        lemma_digits_value_nonneg(s.drop_last());
    }
}

proof fn lemma_pow10_positive(e: nat)
    ensures
        pow10(e) > 0,
    decreases e,
{
    if e > 0 {
        lemma_pow10_positive((e - 1) as nat);
    }
}

proof fn lemma_pow10_monotone(a: nat, b: nat)
    requires
        a <= b,
    ensures
        0 < pow10(a) <= pow10(b),
    decreases b - a,
{
    lemma_pow10_positive(a);
    if a < b {
        lemma_pow10_monotone(a + 1, b);
    }
}

proof fn lemma_pow10_nineteen()
    ensures
        pow10(19) == 10_000_000_000_000_000_000,
        pow10(19) > i64::MAX,
{
    reveal_with_fuel(pow10, 20);
}

proof fn lemma_digits_bound(s: Seq<char>)
    requires
        all_digits(s),
    ensures
        0 <= digits_value(s) < pow10(s.len()),
    decreases s.len(),
{
    if s.len() > 0 {
        assert(is_digit(s.last()));
        lemma_digits_bound(s.drop_last());
    }
}

/// Cutting the last `j` digits off divides by ten to the power of `j`.
proof fn lemma_digits_cut(s: Seq<char>, j: int)
    requires
        all_digits(s),
        0 <= j,
    ensures
        j <= s.len() ==> digits_value(s) / pow10(j as nat) == digits_value(s.take(s.len() - j)),
        j >= s.len() ==> digits_value(s) / pow10(j as nat) == 0,
    decreases j,
{
    lemma_digits_bound(s);
    if j >= s.len() {
        lemma_pow10_monotone(s.len(), j as nat);
        lemma_basic_div(digits_value(s), pow10(j as nat));
        if j == s.len() {
            assert(s.take(0) =~= Seq::<char>::empty());
        }
    } else if j == 0 {
        assert(s.take(s.len() as int) =~= s);
    } else {
        let rest = s.drop_last();
        assert(is_digit(s.last()));
        assert forall|i: int| 0 <= i < rest.len() implies is_digit(#[trigger] rest[i]) by {
            assert(rest[i] == s[i]);
        }
        lemma_digits_value_nonneg(rest);
        lemma_fundamental_div_mod_converse(
            digits_value(s),
            10,
            digits_value(rest),
            digit_value(s.last()),
        );
        lemma_pow10_positive((j - 1) as nat);
        lemma_div_denominator(digits_value(s), 10, pow10((j - 1) as nat));
        lemma_digits_cut(rest, j - 1);
        assert(rest.take(rest.len() - (j - 1)) =~= s.take(s.len() - j));
    }
}

/// The digits of two strings read as one number.
proof fn lemma_digits_joined(a: Seq<char>, b: Seq<char>)
    ensures
        digits_value(a + b) == digits_value(a) * pow10(b.len()) + digits_value(b),
    decreases b.len(),
{
    if b.len() == 0 {
        assert(a + b =~= a);
    } else {
        lemma_digits_joined(a, b.drop_last());
        assert((a + b).drop_last() =~= a + b.drop_last());
        assert((a + b).last() == b.last());
        let p = pow10((b.len() - 1) as nat);
        assert((digits_value(a) * p + digits_value(b.drop_last())) * 10 == digits_value(a) * (10
            * p) + digits_value(b.drop_last()) * 10) by (nonlinear_arith);
    }
}

fn digit_of(b: u8, Ghost(c): Ghost<char>) -> (d: Option<i64>)
    requires
        c <= '\u{7f}',
        b == c as u8,
    ensures
        is_digit(c) ==> d == Some(digit_value(c) as i64),
        !is_digit(c) ==> d.is_none(),
        d is Some ==> 0 <= d->Some_0 <= 9,
{
    if 48 <= b && b <= 57 {
        Some((b - 48) as i64)
    } else {
        None
    }
}

/// A decimal number without an exponent is written in ASCII, and without
/// an exponent mark.
proof fn lemma_plain_decimal_chars(s: Seq<char>, i: int)
    requires
        is_plain_decimal(s),
        0 <= i < s.len(),
    ensures
        '\0' <= s[i] <= '\u{7f}',
        !is_exponent_mark(s[i]),
{
    let body = unsigned_text(s);
    let start = if has_sign(s) { 1int } else { 0int };
    let d = dot_index(body);
    lemma_dot_index_bound(body);
    if i >= start {
        let j = i - start;
        assert(body[j] == s[i]);
        if j < d {
            assert(whole_digits(s)[j] == body[j]);
            assert(is_digit(whole_digits(s)[j]));
        } else if j > d {
            assert(fraction_digits(s)[j - d - 1] == body[j]);
            assert(is_digit(fraction_digits(s)[j - d - 1]));
        }
    }
}

/// A decimal number is written in ASCII.
proof fn lemma_decimal_is_ascii(s: Seq<char>)
    requires
        is_decimal(s),
    ensures
        is_ascii_chars(s),
{
    let at = exponent_index(s);
    lemma_exponent_index_bound(s);
    assert forall|i: int| 0 <= i < s.len() implies '\0' <= #[trigger] s[i] <= '\u{7f}' by {
        if i < at {
            assert(mantissa_text(s)[i] == s[i]);
            lemma_plain_decimal_chars(mantissa_text(s), i);
        } else if i > at {
            let t = exponent_text(s).unwrap();
            let j = i - at - 1;
            assert(t[j] == s[i]);
            if has_sign(t) {
                if j > 0 {
                    assert(unsigned_text(t)[j - 1] == t[j]);
                    assert(is_digit(unsigned_text(t)[j - 1]));
                }
            } else {
                assert(unsigned_text(t)[j] == t[j]);
                assert(is_digit(unsigned_text(t)[j]));
            }
        }
    }
}

/// The position of the exponent mark of a text, or its length.
fn find_exponent(text: &str) -> (at: usize)
    requires
        text.is_ascii(),
    ensures
        at == exponent_index(text@),
        at <= text@.len(),
{
    let n = text.unicode_len();
    let mut i: usize = 0;
    while i < n
        invariant
            i <= n,
            n == text@.len(),
            text.is_ascii(),
            forall|k: int| 0 <= k < i ==> !is_exponent_mark(text@[k]),
        decreases n - i,
    {
        let b = text.get_ascii(i);
        if b == 101 || b == 69 {
            proof {
                lemma_exponent_index(text@, i as int);
            }
            return i;
        }
        i += 1;
    }
    proof {
        lemma_exponent_index(text@, i as int);
    }
    i
}

/// The position after the run of digits that starts at `start`.
fn scan_digits(text: &str, start: usize) -> (end: usize)
    requires
        text.is_ascii(),
        start <= text@.len(),
    ensures
        start <= end <= text@.len(),
        all_digits(text@.subrange(start as int, end as int)),
        end == text@.len() || !is_digit(text@[end as int]),
{
    let n = text.unicode_len();
    let mut i: usize = start;
    while i < n
        invariant
            start <= i <= n,
            n == text@.len(),
            text.is_ascii(),
            all_digits(text@.subrange(start as int, i as int)),
        decreases n - i,
    {
        let ghost c = text@[i as int];
        if digit_of(text.get_ascii(i), Ghost(c)).is_none() {
            return i;
        }
        proof {
            let grown = text@.subrange(start as int, i + 1);
            assert forall|k: int| 0 <= k < grown.len() implies is_digit(#[trigger] grown[k]) by {
                if k < grown.len() - 1 {
                    assert(grown[k] == text@.subrange(start as int, i as int)[k]);
                }
            }
        }
        i += 1;
    }
    i
}

/// Finds the digits of a decimal number without an exponent: where its
/// whole digits start and end, and where its fraction digits start; they
/// end with the text. Nothing when the text is no such number.
fn scan_mantissa(text: &str) -> (r: Option<(usize, usize, usize)>)
    requires
        text.is_ascii(),
    ensures
        match r {
            Some((from, dot, after)) => {
                &&& is_plain_decimal(text@)
                &&& from <= dot <= after <= text@.len()
                &&& whole_digits(text@) == text@.subrange(from as int, dot as int)
                &&& fraction_digits(text@) == text@.subrange(after as int, text@.len() as int)
            },
            None => !is_plain_decimal(text@),
        },
{
    let n = text.unicode_len();
    let mut from: usize = 0;
    if n > 0 {
        let sign = text.get_ascii(0);
        if sign == 45 || sign == 43 {
            from = 1;
        }
    }
    let ghost body = unsigned_text(text@);
    assert(body =~= text@.skip(from as int));
    let dot = scan_digits(text, from);
    let ghost read = text@.subrange(from as int, dot as int);
    proof {
        assert(body.take(dot - from) =~= read);
        assert forall|k: int| 0 <= k < dot - from implies body[k] != '.' by {
            assert(read[k] == body[k]);
            assert(is_digit(read[k]));
        }
        lemma_dot_index(body, dot - from);
    }
    let mut after = dot;
    if dot < n {
        let ghost c = text@[dot as int];
        if text.get_ascii(dot) != 46 {
            proof {
                assert(body[dot - from] == c);
                assert(whole_digits(text@)[dot - from] == c);
            }
            return None;
        }
        after = dot + 1;
    }
    proof {
        assert(whole_digits(text@) =~= read);
        assert(fraction_digits(text@) =~= text@.subrange(after as int, n as int));
    }
    let end = scan_digits(text, after);
    if end < n {
        proof {
            assert(fraction_digits(text@)[end - after] == text@[end as int]);
        }
        return None;
    }
    if (dot - from) + (n - after) == 0 {
        return None;
    }
    Some((from, dot, after))
}

/// The whole number that a text writes, held within the exponent cap;
/// nothing when the text writes none.
fn scan_exponent(text: &str) -> (r: Option<i128>)
    requires
        text.is_ascii(),
    ensures
        match r {
            Some(e) => {
                &&& is_integer_text(text@)
                &&& -EXPONENT_CAP <= e <= EXPONENT_CAP
                &&& -EXPONENT_CAP <= integer_value(text@) <= EXPONENT_CAP ==> e == integer_value(
                    text@,
                )
                &&& integer_value(text@) > EXPONENT_CAP ==> e == EXPONENT_CAP
                &&& integer_value(text@) < -EXPONENT_CAP ==> e == -EXPONENT_CAP
            },
            None => !is_integer_text(text@),
        },
{
    let n = text.unicode_len();
    let mut from: usize = 0;
    let mut negative = false;
    if n > 0 {
        let sign = text.get_ascii(0);
        if sign == 45 || sign == 43 {
            negative = sign == 45;
            from = 1;
        }
    }
    let ghost body = unsigned_text(text@);
    assert(body =~= text@.skip(from as int));
    let mut size: i128 = 0;
    let mut i: usize = from;
    assert(body.take(0) =~= Seq::<char>::empty());
    while i < n
        invariant
            from <= i <= n,
            n == text@.len(),
            text.is_ascii(),
            body == text@.skip(from as int),
            body == unsigned_text(text@),
            all_digits(body.take(i - from)),
            0 <= size <= EXPONENT_CAP,
            digits_value(body.take(i - from)) <= EXPONENT_CAP ==> size == digits_value(
                body.take(i - from),
            ),
            digits_value(body.take(i - from)) > EXPONENT_CAP ==> size == EXPONENT_CAP,
        decreases n - i,
    {
        let ghost c = text@[i as int];
        match digit_of(text.get_ascii(i), Ghost(c)) {
            None => {
                proof {
                    assert(body[i - from] == c);
                }
                return None;
            },
            Some(d) => {
                proof {
                    let grown = body.take(i + 1 - from);
                    assert(grown.drop_last() =~= body.take(i - from));
                    assert(grown.last() == c);
                    assert forall|k: int| 0 <= k < grown.len() implies is_digit(
                        #[trigger] grown[k],
                    ) by {
                        if k < grown.len() - 1 {
                            assert(grown[k] == body.take(i - from)[k]);
                        }
                    }
                    lemma_digits_value_nonneg(body.take(i - from));
                }
                let next = size * 10 + d as i128;
                size = if next > EXPONENT_CAP {
                    EXPONENT_CAP
                } else {
                    next
                };
                i += 1;
            },
        }
    }
    assert(body.take(body.len() as int) =~= body);
    if n - from == 0 {
        return None;
    }
    if negative {
        Some(-size)
    } else {
        Some(size)
    }
}

/// The number that the first `keep` digits of a decimal number without an
/// exponent write, or nothing when it is beyond every amount. The whole
/// digits stand at `[from, dot)`, the fraction digits from `after` on.
fn leading_value(text: &str, from: usize, dot: usize, after: usize, keep: usize) -> (r: Option<
    i64,
>)
    requires
        text.is_ascii(),
        from <= dot <= after <= text@.len(),
        all_digits(text@.subrange(from as int, dot as int)),
        all_digits(text@.subrange(after as int, text@.len() as int)),
        keep <= (dot - from) + (text@.len() - after),
    ensures
        ({
            let digits = text@.subrange(from as int, dot as int) + text@.subrange(
                after as int,
                text@.len() as int,
            );
            &&& digits_value(digits.take(keep as int)) <= i64::MAX ==> r == Some(
                digits_value(digits.take(keep as int)) as i64,
            )
            &&& digits_value(digits.take(keep as int)) > i64::MAX ==> r.is_none()
            &&& 0 <= digits_value(digits.take(keep as int))
        }),
{
    let ghost digits = text@.subrange(from as int, dot as int) + text@.subrange(
        after as int,
        text@.len() as int,
    );
    let ghost kept = digits.take(keep as int);
    proof {
        assert forall|k: int| 0 <= k < digits.len() implies is_digit(#[trigger] digits[k]) by {
            if k < dot - from {
                assert(digits[k] == text@.subrange(from as int, dot as int)[k]);
            } else {
                assert(digits[k] == text@.subrange(after as int, text@.len() as int)[k - (dot
                    - from)]);
            }
        }
        assert forall|k: int| 0 <= k < kept.len() implies is_digit(#[trigger] kept[k]) by {
            assert(kept[k] == digits[k]);
        }
        lemma_digits_value_nonneg(kept);
        assert(kept.take(0) =~= Seq::<char>::empty());
    }
    let n = text.unicode_len();
    let whole = dot - from;
    let mut value: i64 = 0;
    let mut j: usize = 0;
    while j < keep
        invariant
            j <= keep,
            n == text@.len(),
            whole == dot - from,
            from <= dot <= after <= text@.len(),
            keep <= whole + (text@.len() - after),
            text.is_ascii(),
            kept == digits.take(keep as int),
            digits == text@.subrange(from as int, dot as int) + text@.subrange(
                after as int,
                text@.len() as int,
            ),
            all_digits(kept),
            value == digits_value(kept.take(j as int)),
            0 <= value,
        decreases keep - j,
    {
        let at = if j < whole {
            from + j
        } else {
            after + (j - whole)
        };
        let ghost c = text@[at as int];
        proof {
            assert(kept[j as int] == digits[j as int]);
            assert(digits[j as int] == c);
            assert(is_digit(kept[j as int]));
            let grown = kept.take(j + 1);
            assert(grown.drop_last() =~= kept.take(j as int));
            assert(grown.last() == c);
            lemma_digits_value_grows(kept, j + 1);
            assert(kept.take(keep as int) =~= kept);
        }
        let d = match digit_of(text.get_ascii(at), Ghost(c)) {
            Some(d) => d,
            None => 0,
        };
        let next: i128 = value as i128 * 10 + d as i128;
        if next > i64::MAX as i128 {
            return None;
        }
        value = next as i64;
        j += 1;
    }
    assert(kept.take(keep as int) =~= kept);
    Some(value)
}

/// A number above zero times ten to the power of `power`, or nothing when
/// that is beyond every amount. The power is given as `shift`, which is it
/// or, for a power too great to hold, at least nineteen.
fn scale_up(value: i64, shift: i128, Ghost(power): Ghost<int>) -> (r: Option<i64>)
    requires
        0 < value,
        0 <= shift <= power,
        shift < power ==> shift >= 19,
    ensures
        value * pow10(power as nat) <= i64::MAX ==> r == Some(
            (value * pow10(power as nat)) as i64,
        ),
        value * pow10(power as nat) > i64::MAX ==> r.is_none(),
{
    let mut scaled: i64 = value;
    let mut t: i128 = 0;
    assert(value * pow10(0) == value) by (nonlinear_arith)
        requires
            pow10(0) == 1,
    ;
    while t < shift
        invariant
            0 <= t <= shift <= power,
            0 < value,
            scaled == value * pow10(t as nat),
            0 < scaled,
        decreases shift - t,
    {
        proof {
            lemma_pow10_monotone((t + 1) as nat, power as nat);
            let p = pow10(t as nat);
            let q = pow10(power as nat);
            assert(pow10((t + 1) as nat) == 10 * p);
            assert(value * (10 * p) == (value * p) * 10) by (nonlinear_arith);
            assert(value * (10 * p) <= value * q) by (nonlinear_arith)
                requires
                    0 < value,
                    10 * p <= q,
            ;
        }
        if scaled > i64::MAX / 10 {
            return None;
        }
        scaled = scaled * 10;
        t = t + 1;
    }
    proof {
        if shift < power {
            lemma_pow10_nineteen();
            lemma_pow10_monotone(19, shift as nat);
            let p = pow10(shift as nat);
            assert(value * p >= p) by (nonlinear_arith)
                requires
                    value >= 1,
                    p > 0,
            ;
        }
    }
    Some(scaled)
}

/// Reads a decimal number into an amount; see [`decimal_value`].
pub fn parse_decimal(text: &str) -> (r: Option<i64>)
    ensures
        r == decimal_value(text@),
{
    if !text.is_ascii() {
        proof {
            if is_decimal(text@) {
                lemma_decimal_is_ascii(text@);
            }
        }
        return None;
    }
    let n = text.unicode_len();
    let at = find_exponent(text);
    let mantissa = text.substring_ascii(0, at);
    assert(mantissa@ =~= mantissa_text(text@));
    let (from, dot, after) = match scan_mantissa(mantissa) {
        None => {
            return None;
        },
        Some(found) => found,
    };
    let exponent: i128 = if at < n {
        let tail = text.substring_ascii(at + 1, n);
        assert(tail@ =~= exponent_text(text@).unwrap());
        match scan_exponent(tail) {
            None => {
                return None;
            },
            Some(e) => e,
        }
    } else {
        0
    };
    let negative = text.get_ascii(0) == 45;
    let fraction = at - after;
    let total = (dot - from) + fraction;
    let shift: i128 = DECIMALS as i128 - fraction as i128 + exponent;
    let ghost digits = mantissa_digits(mantissa@);
    let ghost power = DECIMALS - fraction + exponent_of(text@);
    proof {
        assert(fraction_digits(mantissa@).len() == fraction);
        assert(digits.len() == total);
        assert forall|k: int| 0 <= k < digits.len() implies is_digit(#[trigger] digits[k]) by {
            if k < dot - from {
                assert(digits[k] == whole_digits(mantissa@)[k]);
            } else {
                assert(digits[k] == fraction_digits(mantissa@)[k - (dot - from)]);
            }
        }
        lemma_digits_value_nonneg(digits);
        assert(decimal_magnitude(text@) == times_pow10(digits_value(digits), power));
        assert(text@[0] == mantissa@[0]);
    }
    let size: i64 = if shift < 0 {
        let cut = -shift;
        if cut >= total as i128 {
            proof {
                lemma_digits_cut(digits, -power);
            }
            0
        } else {
            let keep = total - cut as usize;
            proof {
                lemma_digits_cut(digits, -power);
            }
            match leading_value(mantissa, from, dot, after, keep) {
                None => {
                    return None;
                },
                Some(v) => v,
            }
        }
    } else {
        proof {
            assert(digits.take(total as int) =~= digits);
            lemma_pow10_monotone(0, power as nat);
            let p = pow10(power as nat);
            let v = digits_value(digits);
            assert(v * p >= v) by (nonlinear_arith)
                requires
                    v >= 0,
                    p >= 1,
            ;
            assert(0 * p == 0) by (nonlinear_arith);
        }
        match leading_value(mantissa, from, dot, after, total) {
            None => {
                return None;
            },
            Some(v) => if v == 0 {
                0
            } else {
                match scale_up(v, shift, Ghost(power)) {
                    None => {
                        return None;
                    },
                    Some(scaled) => scaled,
                }
            },
        }
    };
    if negative {
        Some(-size)
    } else {
        Some(size)
    }
}

/// The character that writes a decimal digit.
pub open spec fn digit_char(d: int) -> char {
    if d == 0 {
        '0'
    } else if d == 1 {
        '1'
    } else if d == 2 {
        '2'
    } else if d == 3 {
        '3'
    } else if d == 4 {
        '4'
    } else if d == 5 {
        '5'
    } else if d == 6 {
        '6'
    } else if d == 7 {
        '7'
    } else if d == 8 {
        '8'
    } else {
        '9'
    }
}

/// The digits of a number, without leading zeros; `0` for zero.
pub open spec fn nat_digits(n: nat) -> Seq<char>
    decreases n,
{
    if n < 10 {
        seq![digit_char(n as int)]
    } else {
        nat_digits(n / 10).push(digit_char((n % 10) as int))
    }
}

/// The last `width` digits of a number, with leading zeros.
pub open spec fn fixed_digits(n: nat, width: nat) -> Seq<char>
    decreases width,
{
    if width == 0 {
        Seq::empty()
    } else {
        fixed_digits(n / 10, (width - 1) as nat).push(digit_char((n % 10) as int))
    }
}

/// The text that writes an amount in full: a minus sign if it is below
/// zero, the whole part, a point, and all eight digits after it.
pub open spec fn decimal_text(units: int) -> Seq<char> {
    let size = if units < 0 {
        -units
    } else {
        units
    };
    let sign = if units < 0 {
        seq!['-']
    } else {
        Seq::<char>::empty()
    };
    sign + nat_digits((size / (SCALE as int)) as nat) + seq!['.'] + fixed_digits(
        (size % (SCALE as int)) as nat,
        DECIMALS as nat,
    )
}

fn digit_text(d: u64) -> (r: &'static str)
    requires
        d < 10,
    ensures
        r@ == seq![digit_char(d as int)],
{
    proof {
        reveal_strlit("0");
        reveal_strlit("1");
        reveal_strlit("2");
        reveal_strlit("3");
        reveal_strlit("4");
        reveal_strlit("5");
        reveal_strlit("6");
        reveal_strlit("7");
        reveal_strlit("8");
        reveal_strlit("9");
    }
    let r = if d == 0 {
        "0"
    } else if d == 1 {
        "1"
    } else if d == 2 {
        "2"
    } else if d == 3 {
        "3"
    } else if d == 4 {
        "4"
    } else if d == 5 {
        "5"
    } else if d == 6 {
        "6"
    } else if d == 7 {
        "7"
    } else if d == 8 {
        "8"
    } else {
        "9"
    };
    assert(r@ =~= seq![digit_char(d as int)]);
    r
}

fn append_nat(out: &mut String, n: u64)
    ensures
        final(out)@ == old(out)@ + nat_digits(n as nat),
    decreases n,
{
    if n >= 10 {
        append_nat(out, n / 10);
    }
    out.append(digit_text(n % 10));
    assert(final(out)@ =~= old(out)@ + nat_digits(n as nat));
}

fn append_fixed(out: &mut String, n: u64, width: usize)
    ensures
        final(out)@ == old(out)@ + fixed_digits(n as nat, width as nat),
    decreases width,
{
    if width > 0 {
        append_fixed(out, n / 10, width - 1);
        out.append(digit_text(n % 10));
    }
    assert(final(out)@ =~= old(out)@ + fixed_digits(n as nat, width as nat));
}

/// Writes an amount in full; see [`decimal_text`].
pub fn format_decimal(units: i64) -> (text: String)
    ensures
        text@ == decimal_text(units as int),
{
    let mut out = String::new();
    let size: u64 = if units < 0 {
        proof {
            reveal_strlit("-");
        }
        out.append("-");
        (-(units as i128)) as u64
    } else {
        units as u64
    };
    append_nat(&mut out, size / (SCALE as u64));
    proof {
        reveal_strlit(".");
    }
    out.append(".");
    append_fixed(&mut out, size % (SCALE as u64), DECIMALS);
    assert(out@ =~= decimal_text(units as int));
    out
}

proof fn lemma_digit_char(d: int)
    requires
        0 <= d <= 9,
    ensures
        is_digit(digit_char(d)),
        digit_value(digit_char(d)) == d,
        digit_char(d) != '.',
        digit_char(d) != '-',
        digit_char(d) != '+',
{
}

proof fn lemma_nat_digits(n: nat)
    ensures
        nat_digits(n).len() >= 1,
        all_digits(nat_digits(n)),
        digits_value(nat_digits(n)) == n,
    decreases n,
{
    lemma_digit_char((n % 10) as int);
    if n < 10 {
        let s = nat_digits(n);
        assert(s.drop_last() =~= Seq::<char>::empty());
        assert(digits_value(s.drop_last()) == 0);
    } else {
        lemma_nat_digits(n / 10);
        let s = nat_digits(n);
        assert(s.drop_last() =~= nat_digits(n / 10));
        assert forall|i: int| 0 <= i < s.len() implies is_digit(#[trigger] s[i]) by {
            if i < s.len() - 1 {
                assert(s[i] == nat_digits(n / 10)[i]);
            }
        }
    }
}

proof fn lemma_fixed_digits(n: nat, width: nat)
    ensures
        fixed_digits(n, width).len() == width,
        all_digits(fixed_digits(n, width)),
        digits_value(fixed_digits(n, width)) == n % (pow10(width) as nat),
    decreases width,
{
    lemma_pow10_positive(width);
    if width > 0 {
        lemma_digit_char((n % 10) as int);
        lemma_fixed_digits(n / 10, (width - 1) as nat);
        lemma_pow10_positive((width - 1) as nat);
        let s = fixed_digits(n, width);
        let p = pow10((width - 1) as nat);
        assert(s.drop_last() =~= fixed_digits(n / 10, (width - 1) as nat));
        assert forall|i: int| 0 <= i < s.len() implies is_digit(#[trigger] s[i]) by {
            if i < s.len() - 1 {
                assert(s[i] == fixed_digits(n / 10, (width - 1) as nat)[i]);
            }
        }
        assert(((n / 10) % (p as nat)) * 10 + n % 10 == n % ((10 * p) as nat)) by {
            vstd::arithmetic::div_mod::lemma_fundamental_div_mod(n as int, 10);
            vstd::arithmetic::div_mod::lemma_fundamental_div_mod((n / 10) as int, p);
            let q = (n / 10) as int / p;
            let r = (n / 10) as int % p;
            assert(n == 10 * (p * q + r) + n % 10);
            assert(10 * (p * q + r) == (10 * p) * q + 10 * r) by (nonlinear_arith);
            assert(q * (10 * p) == (10 * p) * q) by (nonlinear_arith);
            vstd::arithmetic::div_mod::lemma_fundamental_div_mod_converse(
                n as int,
                10 * p,
                q,
                10 * r + n % 10,
            );
        }
    } else {
        assert(n % 1 == 0);
    }
}

/// Reading what was written gives the amount back, for every amount that
/// has a negation.
pub proof fn lemma_format_then_parse(units: i64)
    requires
        units > i64::MIN,
    ensures
        decimal_value(decimal_text(units as int)) == Some(units),
{
    let text = decimal_text(units as int);
    let size: int = if units < 0 {
        -units
    } else {
        units as int
    };
    let whole = nat_digits((size / (SCALE as int)) as nat);
    let frac = fixed_digits((size % (SCALE as int)) as nat, DECIMALS as nat);
    lemma_nat_digits((size / (SCALE as int)) as nat);
    lemma_fixed_digits((size % (SCALE as int)) as nat, DECIMALS as nat);
    assert(pow10(8) == 100_000_000) by {
        reveal_with_fuel(pow10, 9);
    }
    let body = whole + seq!['.'] + frac;
    assert(is_digit(whole[0]));
    if units < 0 {
        assert(text =~= seq!['-'] + body);
        assert(text[0] == '-');
    } else {
        assert(text =~= body);
        assert(text[0] == whole[0]);
    }
    let start = if units < 0 { 1int } else { 0int };
    assert forall|k: int| 0 <= k < text.len() implies !is_exponent_mark(text[k]) by {
        if k >= start {
            let j = k - start;
            assert(text[k] == body[j]);
            if j < whole.len() {
                assert(body[j] == whole[j]);
                assert(is_digit(whole[j]));
            } else if j > whole.len() {
                assert(body[j] == frac[j - whole.len() - 1]);
                assert(is_digit(frac[j - whole.len() - 1]));
            }
        }
    }
    lemma_exponent_index(text, text.len() as int);
    assert(mantissa_text(text) =~= text);
    assert(exponent_text(text).is_none());
    assert(unsigned_text(text) =~= body);
    assert forall|k: int| 0 <= k < whole.len() implies body[k] != '.' by {
        assert(body[k] == whole[k]);
        assert(is_digit(whole[k]));
    }
    assert(body[whole.len() as int] == '.');
    lemma_dot_index(body, whole.len() as int);
    assert(whole_digits(text) =~= whole);
    assert(fraction_digits(text) =~= frac);
    lemma_digits_joined(whole, frac);
    lemma_fundamental_div_mod(size, SCALE as int);
    assert((SCALE as int) * (size / (SCALE as int)) == (size / (SCALE as int)) * SCALE)
        by (nonlinear_arith);
    let part = (size % (SCALE as int)) as nat;
    lemma_mod_bound(size, SCALE as int);
    lemma_small_mod(part, 100_000_000);
    assert(digits_value(frac) == part);
    assert(pow10(0) == 1);
    let joined = digits_value(whole + frac);
    assert(joined == size);
    assert(joined * 1 == joined);
    assert(decimal_magnitude(text) == size);
}

} // verus!
