//! Currency amounts in major units, kept as fixed-point decimals, the two
//! ways of reading them from text, and the text in which they are shown.

use vstd::prelude::*;
use crate::text::chars_of;

verus! {

/// The number of digits after the decimal point that an amount keeps.
pub const SCALE: u32 = 18;

/// The number of units in one hundredth of the major unit.
pub const UNITS_PER_CENT: u128 = 10_000_000_000_000_000;

/// Ten to the power `k`.
pub open spec fn pow10(k: nat) -> nat
    decreases k,
{
    if k == 0 {
        1
    } else {
        10 * pow10((k - 1) as nat)
    }
}

/// A non-negative amount of currency, counted in units of ten to the minus
/// `SCALE` of the major unit.
#[derive(Clone, Copy, Debug, PartialEq, Eq, Structural)]
pub struct Amount {
    units: u128,
}

impl View for Amount {
    type V = nat;

    closed spec fn view(&self) -> nat {
        self.units as nat
    }
}

/// The character that shows the digit `d`.
pub open spec fn digit_char(d: nat) -> char {
    if d == 0 {
        '0'
    } else if d == 1 {
        '1'
    } else if d == 2 {
        '2'
    } else if d == 3 {
        '3'
    } else if d == 4 {
        '4'
    } else if d == 5 {
        '5'
    } else if d == 6 {
        '6'
    } else if d == 7 {
        '7'
    } else if d == 8 {
        '8'
    } else {
        '9'
    }
}

/// The decimal digits of `n`, without leading zeros.
pub open spec fn decimal_text(n: nat) -> Seq<char>
    decreases n,
{
    if n < 10 {
        seq![digit_char(n)]
    } else {
        decimal_text(n / 10).push(digit_char(n % 10))
    }
}

/// `n` divided by `d` and rounded to the nearest whole number; of two
/// equally near, the even one.
pub open spec fn round_half_even(n: nat, d: nat) -> nat {
    let whole = n / d;
    let rest = n % d;
    if rest * 2 > d || (rest * 2 == d && whole % 2 == 1) {
        whole + 1
    } else {
        whole
    }
}

/// The number of hundredths nearest to `units`; of two equally near, the
/// even one.
pub open spec fn cents_rounded(units: nat) -> nat {
    round_half_even(units, UNITS_PER_CENT as nat)
}

/// An amount as it is shown: the major units, a point, and two digits.
pub open spec fn two_decimals(units: nat) -> Seq<char> {
    let cents = cents_rounded(units);
    decimal_text(cents / 100) + seq!['.', digit_char((cents / 10) % 10), digit_char(cents % 10)]
}

/// Whether `c` is a decimal digit.
pub open spec fn is_digit(c: char) -> bool {
    '0' <= c && c <= '9'
}

/// The number that the digit `c` stands for.
pub open spec fn digit_value(c: char) -> nat {
    (c as u32 - '0' as u32) as nat
}

/// The number spelled by the digits of `s`, read in order; characters that
/// are no digits are passed over.
pub open spec fn digits_value(s: Seq<char>) -> nat
    decreases s.len(),
{
    if s.len() == 0 {
        0
    } else if is_digit(s.last()) {
        10 * digits_value(s.drop_last()) + digit_value(s.last())
    } else {
        digits_value(s.drop_last())
    }
}

/// Whether `s` is a decimal numeral: digits, with at most one point before,
/// among or after them, and at least one digit.
pub open spec fn is_numeral(s: Seq<char>) -> bool {
    &&& forall|i: int| 0 <= i < s.len() ==> is_digit(#[trigger] s[i]) || s[i] == '.'
    &&& forall|i: int, j: int|
        0 <= i < j < s.len() ==> !(#[trigger] s[i] == '.' && #[trigger] s[j] == '.')
    &&& exists|i: int| 0 <= i < s.len() && is_digit(#[trigger] s[i])
}

/// The number of digits after the point of a numeral; none where it has no
/// point.
pub open spec fn fraction_len(s: Seq<char>) -> nat {
    if s.contains('.') {
        (s.len() - 1 - s.index_of('.')) as nat
    } else {
        0
    }
}

/// How the text of a price is read.
#[derive(Clone, Copy, Debug, PartialEq, Eq, Structural)]
pub enum Strictness {
    /// The text must be a decimal numeral, and is read as major units;
    /// digits beyond those that an amount keeps are rounded away.
    Strict,
    /// Everything but the digits is discarded; the digits are read as a
    /// number of hundredths.
    Lenient,
}

/// The value of the numeral `s` in units. Where `s` has more digits after
/// the point than an amount keeps, the value is rounded to the nearest
/// unit; of two equally near, to the even one.
pub open spec fn numeral_value(s: Seq<char>) -> nat {
    if fraction_len(s) <= SCALE {
        digits_value(s) * pow10((SCALE - fraction_len(s)) as nat)
    } else {
        round_half_even(digits_value(s), pow10((fraction_len(s) - SCALE) as nat))
    }
}

/// The units that `s` stands for when read strictly: `s` must be a
/// numeral, and its value must fit.
pub open spec fn strict_units(s: Seq<char>) -> Option<nat> {
    if is_numeral(s) && numeral_value(s) <= u128::MAX {
        Some(numeral_value(s))
    } else {
        None
    }
}

/// The units that `s` stands for when read leniently: `s` must hold a
/// digit, and its digits, read as hundredths, must fit.
pub open spec fn lenient_units(s: Seq<char>) -> Option<nat> {
    if (exists|i: int| 0 <= i < s.len() && is_digit(#[trigger] s[i])) && digits_value(s)
        * UNITS_PER_CENT <= u128::MAX {
        Some(digits_value(s) * (UNITS_PER_CENT as nat))
    } else {
        None
    }
}

/// The units that `s` stands for under `policy`.
pub open spec fn numeral_units(s: Seq<char>, policy: Strictness) -> Option<nat> {
    match policy {
        Strictness::Strict => strict_units(s),
        Strictness::Lenient => lenient_units(s),
    }
}

/// One hundredth of the major unit is ten to the power `SCALE - 2` units.
pub proof fn lemma_units_per_cent()
    ensures
        UNITS_PER_CENT == pow10((SCALE - 2) as nat),
{
    reveal_with_fuel(pow10, 17);
}

/// The two readings agree on numerals with exactly two digits after the
/// point: on prices in whole cents, written without separators.
pub proof fn law_readings_agree_on_whole_cents(s: Seq<char>)
    requires
        is_numeral(s),
        fraction_len(s) == 2,
    ensures
        strict_units(s) == lenient_units(s),
{
    lemma_units_per_cent();
}

/// The decimal digits of a number are digits, and spell the number.
proof fn lemma_decimal_text_spells(n: nat)
    ensures
        decimal_text(n).len() >= 1,
        forall|i: int| 0 <= i < decimal_text(n).len() ==> is_digit(#[trigger] decimal_text(n)[i]),
        digits_value(decimal_text(n)) == n,
    decreases n,
{
    if n < 10 {
        let t = seq![digit_char(n)];
        assert(digits_value(t.drop_last()) == 0);
    } else {
        lemma_decimal_text_spells(n / 10);
        let t = decimal_text(n / 10).push(digit_char(n % 10));
        assert(t.drop_last() =~= decimal_text(n / 10));
    }
}

/// What is shown can be read back: read strictly, the text of an amount
/// with two decimals stands for the amount rounded to whole cents.
pub proof fn law_shown_amount_reads_back(units: nat)
    requires
        units <= u128::MAX,
    ensures
        strict_units(two_decimals(units)) == Some(cents_rounded(units) * (UNITS_PER_CENT as nat)),
{
    let cents = cents_rounded(units);
    let whole = decimal_text(cents / 100);
    let s = two_decimals(units);
    let p = whole.len() as int;
    lemma_decimal_text_spells(cents / 100);
    assert forall|i: int| 0 <= i < p implies s[i] == whole[i] by {}
    assert(s[p] == '.' && is_digit(s[p + 1]) && is_digit(s[p + 2]));
    assert(is_numeral(s)) by {
        assert(is_digit(s[0]));
    }
    assert(s.index_of('.') == p);
    assert(digits_value(s) == cents) by {
        let s2 = s.drop_last();
        let s1 = s2.drop_last();
        assert(s1.drop_last() =~= whole);
        assert(digits_value(s2) == 10 * digits_value(s1) + (cents / 10) % 10);
    }
    lemma_units_per_cent();
    assert(cents * (UNITS_PER_CENT as nat) <= u128::MAX) by (nonlinear_arith)
        requires
            units <= u128::MAX,
            cents == cents_rounded(units),
            UNITS_PER_CENT == 10_000_000_000_000_000,
            u128::MAX == 340282366920938463463374607431768211455,
    ;
}

/// Whether every character of `s` is a digit.
pub open spec fn all_digits(s: Seq<char>) -> bool {
    forall|i: int| 0 <= i < s.len() ==> is_digit(#[trigger] s[i])
}

/// Digits written behind a text shift the number that the text spells to
/// the left, and add their own.
proof fn lemma_digits_value_concat(a: Seq<char>, b: Seq<char>)
    requires
        all_digits(b),
    ensures
        digits_value(a + b) == digits_value(a) * pow10(b.len()) + digits_value(b),
    decreases b.len(),
{
    if b.len() == 0 {
        assert(a + b =~= a);
        assert(pow10(0) == 1);
        assert(digits_value(a) * 1 == digits_value(a));
    } else {
        let b0 = b.drop_last();
        assert((a + b).drop_last() =~= a + b0);
        assert((a + b).last() == b.last());
        assert(is_digit(b[b.len() - 1]));
        assert forall|i: int| 0 <= i < b0.len() implies is_digit(#[trigger] b0[i]) by {
            assert(b0[i] == b[i]);
        }
        lemma_digits_value_concat(a, b0);
        let x = digits_value(a);
        let p = pow10(b0.len());
        let y = digits_value(b0);
        let d = digit_value(b.last());
        assert(pow10(b.len()) == 10 * p);
        assert(digits_value(a + b) == 10 * (x * p + y) + d);
        assert(digits_value(b) == 10 * y + d);
        assert(10 * (x * p + y) + d == x * (10 * p) + (10 * y + d)) by (nonlinear_arith);
    }
}

/// A text of digits spells a number below ten to the power of its length;
/// it spells zero exactly where all its digits are zeros.
proof fn lemma_digits_value_bound(b: Seq<char>)
    requires
        all_digits(b),
    ensures
        digits_value(b) < pow10(b.len()),
        digits_value(b) == 0 <==> (forall|i: int| 0 <= i < b.len() ==> #[trigger] b[i] == '0'),
    decreases b.len(),
{
    if b.len() > 0 {
        let b0 = b.drop_last();
        lemma_digits_value_bound(b0);
        assert(pow10(b.len()) == 10 * pow10(b0.len()));
        if digits_value(b) == 0 {
            assert forall|i: int| 0 <= i < b.len() implies #[trigger] b[i] == '0' by {
                if i < b.len() - 1 {
                    assert(b0[i] == '0');
                }
            }
        } else if digits_value(b0) != 0 {
            let i = choose|i: int| 0 <= i < b0.len() && b0[i] != '0';
            assert(b[i] != '0');
        } else {
            assert(b[b.len() - 1] != '0');
        }
    }
}

/// Rounding a number by its digits: of `whole * 10 * p + first * p + rest`
/// over `10 * p`, with `first` a digit and `rest` below `p`, the rounding
/// goes up where `first` is above five, or is five with something behind
/// it or an odd number before it.
proof fn lemma_round_by_first_digit(whole: nat, first: nat, rest: nat, p: nat)
    requires
        first < 10,
        rest < p,
    ensures
        round_half_even(whole * (10 * p) + first * p + rest, 10 * p) == whole + if first > 5 || (
        first == 5 && (rest > 0 || whole % 2 == 1)) {
            1nat
        } else {
            0nat
        },
{
    let d = 10 * p;
    let r = first * p + rest;
    let n = whole * d + r;
    assert(r < d) by (nonlinear_arith)
        requires
            r == first * p + rest,
            d == 10 * p,
            first < 10,
            rest < p,
    ;
    vstd::arithmetic::div_mod::lemma_fundamental_div_mod_converse(
        n as int,
        d as int,
        whole as int,
        r as int,
    );
    assert(n / d == whole && n % d == r);
    assert(first > 5 ==> r * 2 > d) by (nonlinear_arith)
        requires
            r == first * p + rest,
            d == 10 * p,
            rest < p,
    ;
    assert(first < 5 ==> r * 2 < d) by (nonlinear_arith)
        requires
            r == first * p + rest,
            d == 10 * p,
            rest < p,
    ;
    assert(first == 5 ==> r * 2 == d + 2 * rest) by (nonlinear_arith)
        requires
            r == first * p + rest,
            d == 10 * p,
    ;
}

/// The value of a numeral is no less than the number that a beginning of
/// it spells which ends before the digits that rounding drops.
proof fn lemma_numeral_value_grows(s: Seq<char>, k: int)
    requires
        is_numeral(s),
        0 <= k <= s.len(),
        s.contains('.') ==> k <= s.index_of('.') + 1 + SCALE,
    ensures
        digits_value(s.take(k)) <= numeral_value(s),
{
    let f = fraction_len(s);
    lemma_digits_value_grows(s, k);
    if f <= SCALE {
        let e = (SCALE - f) as nat;
        lemma_pow10_positive(e);
        assert(digits_value(s) * pow10(e) >= digits_value(s)) by (nonlinear_arith)
            requires
                pow10(e) >= 1,
        ;
    } else {
        let q = s.index_of('.');
        let kept = q + 1 + SCALE;
        let e = (f - SCALE) as nat;
        let head = s.take(kept);
        let tail = s.skip(kept);
        assert(s =~= head + tail);
        assert(all_digits(tail)) by {
            assert forall|i: int| 0 <= i < tail.len() implies is_digit(#[trigger] tail[i]) by {
                assert(tail[i] == s[kept + i]);
                assert(s[q] == '.');
            }
        }
        lemma_digits_value_concat(head, tail);
        lemma_digits_value_grows(head, k);
        assert(head.take(k) =~= s.take(k));
        lemma_pow10_positive(e);
        let d = pow10(e);
        let n = digits_value(s);
        let h = digits_value(head);
        assert(n / d >= h) by (nonlinear_arith)
            requires
                n >= h * d,
                d >= 1,
        ;
    }
}

/// The value of a numeral with more digits after the point than an amount
/// keeps, by the digits that are dropped: the digits up to `kept` spell
/// `whole`; the first dropped digit is `first`, and `sticky` says whether
/// any behind it is not a zero.
proof fn lemma_dropped_digits(s: Seq<char>, kept: int, whole: nat, first: nat, sticky: bool)
    requires
        is_numeral(s),
        s.contains('.'),
        kept == s.index_of('.') + 1 + SCALE,
        kept < s.len(),
        whole == digits_value(s.take(kept)),
        first == digit_value(s[kept]),
        sticky == (exists|k: int| kept < k < s.len() && #[trigger] s[k] != '0'),
    ensures
        fraction_len(s) > SCALE,
        numeral_value(s) == whole + if first > 5 || (first == 5 && (sticky || whole % 2 == 1)) {
            1nat
        } else {
            0nat
        },
{
    let e = (s.len() - kept) as nat;
    let head = s.take(kept);
    let tail = s.skip(kept);
    let rest = tail.skip(1);
    assert(s[s.index_of('.')] == '.');
    assert(fraction_len(s) - SCALE == e);
    assert(s =~= head + tail);
    assert(tail =~= seq![s[kept]] + rest);
    assert(all_digits(tail)) by {
        assert forall|k: int| 0 <= k < tail.len() implies is_digit(#[trigger] tail[k]) by {
            assert(tail[k] == s[kept + k]);
        }
    }
    assert(all_digits(rest)) by {
        assert forall|k: int| 0 <= k < rest.len() implies is_digit(#[trigger] rest[k]) by {
            assert(rest[k] == tail[k + 1]);
        }
    }
    lemma_digits_value_concat(head, tail);
    lemma_digits_value_concat(seq![s[kept]], rest);
    lemma_digits_value_bound(rest);
    assert(digits_value(seq![s[kept]]) == first) by {
        let one = seq![s[kept]];
        assert(one.drop_last() =~= Seq::<char>::empty());
        assert(digits_value(one.drop_last()) == 0);
        assert(one.last() == tail[0] && is_digit(tail[0]));
    }
    assert(sticky == (digits_value(rest) > 0)) by {
        if sticky {
            let k = choose|k: int| kept < k < s.len() && #[trigger] s[k] != '0';
            assert(rest[k - kept - 1] == s[k]);
        } else {
            assert forall|k: int| 0 <= k < rest.len() implies #[trigger] rest[k] == '0' by {
                assert(rest[k] == s[kept + 1 + k]);
            }
        }
    }
    let unit = pow10(rest.len());
    assert(pow10(e) == 10 * unit);
    assert(digits_value(s) == whole * (10 * unit) + first * unit + digits_value(rest))
        by (nonlinear_arith)
        requires
            digits_value(s) == whole * pow10(e) + digits_value(tail),
            digits_value(tail) == first * unit + digits_value(rest),
            pow10(e) == 10 * unit,
    ;
    lemma_round_by_first_digit(whole, first, digits_value(rest), unit);
}

/// The digits of a longer text spell no smaller number than those of its
/// beginning.
proof fn lemma_digits_value_grows(s: Seq<char>, n: int)
    requires
        0 <= n <= s.len(),
    ensures
        digits_value(s.take(n)) <= digits_value(s),
    decreases s.len() - n,
{
    if n < s.len() {
        lemma_digits_value_grows(s, n + 1);
        assert(s.take(n + 1).drop_last() =~= s.take(n));
    } else {
        assert(s.take(n) =~= s);
    }
}

/// A power of ten is at least one.
proof fn lemma_pow10_positive(k: nat)
    ensures
        pow10(k) >= 1,
    decreases k,
{
    if k > 0 {
        lemma_pow10_positive((k - 1) as nat);
    }
}

/// The powers of ten grow with the exponent.
proof fn lemma_pow10_grows(a: nat, b: nat)
    requires
        a <= b,
    ensures
        pow10(a) <= pow10(b),
    decreases b,
{
    if a < b {
        lemma_pow10_grows(a, (b - 1) as nat);
        lemma_pow10_positive((b - 1) as nat);
    }
}

/// The text of one digit.
fn digit_str(d: u8) -> (r: &'static str)
    requires
        d < 10,
    ensures
        r@ == seq![digit_char(d as nat)],
{
    proof {
        reveal_strlit("0");
        reveal_strlit("1");
        reveal_strlit("2");
        reveal_strlit("3");
        reveal_strlit("4");
        reveal_strlit("5");
        reveal_strlit("6");
        reveal_strlit("7");
        reveal_strlit("8");
        reveal_strlit("9");
    }
    let r = match d {
        0 => "0",
        1 => "1",
        2 => "2",
        3 => "3",
        4 => "4",
        5 => "5",
        6 => "6",
        7 => "7",
        8 => "8",
        _ => "9",
    };
    r
}

/// Appends the decimal digits of `n` to `out`.
pub fn push_decimal(out: &mut String, n: u128)
    ensures
        final(out)@ == old(out)@ + decimal_text(n as nat),
    decreases n,
{
    if n >= 10 {
        push_decimal(out, n / 10);
    }
    let d: u8 = (n % 10) as u8;
    out.append(digit_str(d));
}

/// Ten to the power `k`, for the powers that an amount's scale reaches.
fn pow10_exec(k: u32) -> (r: u128)
    requires
        k <= SCALE,
    ensures
        r == pow10(k as nat),
{
    let mut r: u128 = 1;
    let mut i: u32 = 0;
    while i < k
        invariant
            i <= k <= SCALE,
            r == pow10(i as nat),
        decreases k - i,
    {
        proof {
            lemma_pow10_grows((i + 1) as nat, SCALE as nat);
            reveal_with_fuel(pow10, 19);
        }
        r = r * 10;
        i = i + 1;
    }
    r
}

/// The number that the digit `c` stands for.
fn digit_of(c: char) -> (r: Option<u8>)
    ensures
        r is Some == is_digit(c),
        r matches Some(d) ==> d == digit_value(c) && d < 10,
{
    if '0' <= c && c <= '9' {
        Some((c as u32 - '0' as u32) as u8)
    } else {
        None
    }
}

/// Reads `text` strictly.
fn parse_strict(text: &[char]) -> (r: Option<Amount>)
    ensures
        r is Some == strict_units(text@) is Some,
        r matches Some(a) ==> Some(a@) == strict_units(text@),
{
    let n = text.len();
    let ghost s = text@;
    let mut i: usize = 0;
    // The number spelled by the digits that are kept: all before the
    // point, and the first `SCALE` behind it.
    let mut acc: u128 = 0;
    let mut frac: u32 = 0;
    let mut seen_point = false;
    let mut any_digit = false;
    // Of the digits that rounding drops: whether there is one, the first,
    // and whether any behind the first is not a zero.
    let mut dropped = false;
    let mut first: u8 = 0;
    let mut sticky = false;
    let ghost mut p: int = n as int;
    while i < n
        invariant
            i <= n,
            n == s.len(),
            s == text@,
            forall|k: int| 0 <= k < i && k != p ==> is_digit(#[trigger] s[k]),
            seen_point ==> 0 <= p < i && s[p] == '.',
            !seen_point ==> p == n && !dropped,
            any_digit == (exists|k: int| 0 <= k < i && is_digit(#[trigger] s[k])),
            frac <= SCALE,
            !dropped ==> frac == (if seen_point { i - 1 - p } else { 0 }),
            !dropped ==> acc == digits_value(s.take(i as int)) && !sticky,
            dropped ==> frac == SCALE && p + 1 + SCALE < i,
            dropped ==> acc == digits_value(s.take(p + 1 + SCALE)),
            dropped ==> first == digit_value(s[p + 1 + SCALE]),
            dropped ==> sticky == (exists|k: int| p + 1 + SCALE < k < i && #[trigger] s[k] != '0'),
        decreases n - i,
    {
        let c = text[i];
        assert(s.take(i + 1).drop_last() =~= s.take(i as int));
        if c == '.' {
            if seen_point {
                assert(!is_numeral(s));
                return None;
            }
            seen_point = true;
            proof {
                p = i as int;
            }
        } else {
            match digit_of(c) {
                None => {
                    assert(!is_numeral(s));
                    return None;
                },
                Some(d) => {
                    if seen_point && frac == SCALE {
                        if !dropped {
                            dropped = true;
                            first = d;
                        } else if d != 0 {
                            sticky = true;
                            assert(s[i as int] != '0');
                        } else {
                            assert(s[i as int] == '0');
                        }
                    } else {
                        if seen_point {
                            frac = frac + 1;
                        }
                        let next = match acc.checked_mul(10) {
                            Some(tenfold) => tenfold.checked_add(d as u128),
                            None => None,
                        };
                        match next {
                            Some(v) => {
                                acc = v;
                            },
                            None => {
                                assert(strict_units(s) is None) by {
                                    if is_numeral(s) {
                                        if s.contains('.') && seen_point {
                                            assert(s[s.index_of('.')] == '.');
                                            assert(s.index_of('.') == p);
                                        }
                                        lemma_numeral_value_grows(s, i + 1);
                                    }
                                }
                                return None;
                            },
                        }
                    }
                    any_digit = true;
                },
            }
        }
        i = i + 1;
    }
    assert(s.take(n as int) =~= s);
    if !any_digit {
        return None;
    }
    proof {
        assert(is_numeral(s));
        if seen_point {
            assert(s[s.index_of('.')] == '.');
            assert(s.index_of('.') == p);
        }
    }
    if !dropped {
        assert(fraction_len(s) == frac);
        match acc.checked_mul(pow10_exec(SCALE - frac)) {
            Some(units) => Some(Amount { units }),
            None => None,
        }
    } else {
        let up = first > 5 || (first == 5 && (sticky || acc % 2 == 1));
        proof {
            lemma_dropped_digits(s, p + 1 + SCALE, acc as nat, first as nat, sticky);
        }
        if up {
            match acc.checked_add(1) {
                Some(units) => Some(Amount { units }),
                None => None,
            }
        } else {
            Some(Amount { units: acc })
        }
    }
}

/// Reads `text` leniently.
fn parse_lenient(text: &[char]) -> (r: Option<Amount>)
    ensures
        r is Some == lenient_units(text@) is Some,
        r matches Some(a) ==> Some(a@) == lenient_units(text@),
{
    let n = text.len();
    let ghost s = text@;
    let mut i: usize = 0;
    let mut acc: u128 = 0;
    let mut any_digit = false;
    while i < n
        invariant
            i <= n,
            n == s.len(),
            s == text@,
            any_digit == (exists|k: int| 0 <= k < i && is_digit(#[trigger] s[k])),
            acc == digits_value(s.take(i as int)),
        decreases n - i,
    {
        let c = text[i];
        assert(s.take(i + 1).drop_last() =~= s.take(i as int));
        match digit_of(c) {
            None => {},
            Some(d) => {
                let next = match acc.checked_mul(10) {
                    Some(tenfold) => tenfold.checked_add(d as u128),
                    None => None,
                };
                match next {
                    Some(v) => {
                        acc = v;
                    },
                    None => {
                        assert(lenient_units(s) is None) by {
                            lemma_digits_value_grows(s, i + 1);
                            assert(digits_value(s) * UNITS_PER_CENT >= digits_value(s))
                                by (nonlinear_arith)
                                requires
                                    UNITS_PER_CENT >= 1,
                            ;
                        }
                        return None;
                    },
                }
                any_digit = true;
            },
        }
        i = i + 1;
    }
    assert(s.take(n as int) =~= s);
    if !any_digit {
        return None;
    }
    match acc.checked_mul(UNITS_PER_CENT) {
        Some(units) => Some(Amount { units }),
        None => None,
    }
}

impl Amount {
    /// The amount of `units` units.
    pub fn from_units(units: u128) -> (r: Amount)
        ensures
            r@ == units,
    {
        Amount { units }
    }

    /// The amount of `cents` hundredths of the major unit.
    pub fn from_cents(cents: u64) -> (r: Amount)
        ensures
            r@ == cents * UNITS_PER_CENT,
    {
        let wide: u128 = cents as u128;
        assert(wide * UNITS_PER_CENT <= u128::MAX) by (nonlinear_arith)
            requires
                wide <= u64::MAX,
                UNITS_PER_CENT == 10_000_000_000_000_000,
        ;
        Amount { units: wide * UNITS_PER_CENT }
    }

    /// The amount that the characters `text` stand for under `policy`, if
    /// they stand for one.
    pub fn parse_chars(text: &[char], policy: Strictness) -> (r: Option<Amount>)
        ensures
            r is Some == numeral_units(text@, policy) is Some,
            r matches Some(a) ==> Some(a@) == numeral_units(text@, policy),
    {
        match policy {
            Strictness::Strict => parse_strict(text),
            Strictness::Lenient => parse_lenient(text),
        }
    }

    /// The amount that `text` stands for under `policy`, if it stands for
    /// one.
    pub fn parse(text: &str, policy: Strictness) -> (r: Option<Amount>)
        ensures
            r is Some == numeral_units(text@, policy) is Some,
            r matches Some(a) ==> Some(a@) == numeral_units(text@, policy),
    {
        let chars = chars_of(text);
        Amount::parse_chars(chars.as_slice(), policy)
    }

    /// The amount in units.
    pub fn units(&self) -> (r: u128)
        ensures
            r == self@,
    {
        self.units
    }

    /// The amount in hundredths, rounded to the nearest (half to even).
    pub fn cents(&self) -> (r: u128)
        ensures
            r == cents_rounded(self@),
    {
        let whole = self.units / UNITS_PER_CENT;
        let rest = self.units % UNITS_PER_CENT;
        if rest > UNITS_PER_CENT / 2 || (rest == UNITS_PER_CENT / 2 && whole % 2 == 1) {
            whole + 1
        } else {
            whole
        }
    }

    /// Appends the amount, shown with two decimals, to `out`.
    pub fn push_two_decimals(&self, out: &mut String)
        ensures
            final(out)@ == old(out)@ + two_decimals(self@),
    {
        let cents = self.cents();
        push_decimal(out, cents / 100);
        proof {
            reveal_strlit(".");
        }
        out.append(".");
        let tens: u8 = ((cents / 10) % 10) as u8;
        let ones: u8 = (cents % 10) as u8;
        out.append(digit_str(tens));
        out.append(digit_str(ones));
    }

    /// The amount as it is shown, with two decimals.
    pub fn format(&self) -> (r: String)
        ensures
            r@ == two_decimals(self@),
    {
        let mut out = String::new();
        self.push_two_decimals(&mut out);
        out
    }
}

} // verus!
