//! Percentages as binary64 numbers from 0 to 100.
use vstd::prelude::*;
use vstd::string::*;

#[allow(unused_imports)]
use vstd::arithmetic::div_mod::*;
#[allow(unused_imports)]
use vstd::arithmetic::power2::*;

use crate::binary64::Binary64;
use crate::text::{decimal_text, push_pad_start, push_repeated};

verus! {

/// How much is left, in steps that are shown alike.
#[derive(Clone, Copy, Debug, PartialEq, Eq, Structural)]
pub enum QuotaLevel {
    Critical,
    Low,
    Medium,
    High,
}

/// A percentage, held as the binary64 number that it was read as. Its view counts units of 2^-1074.
#[derive(Clone, Copy, Debug)]
pub struct Percent {
    value: Binary64,
}

impl View for Percent {
    type V = nat;

    closed spec fn view(&self) -> nat {
        self.value@
    }
}

/// The number of units in `n` percent.
pub open spec fn percent(n: nat) -> nat {
    n * crate::binary64::unit()
}

/// The number of a binary64 pattern, brought into the range from 0 to 100.
pub open spec fn clamped(bits: u64) -> nat {
    if crate::binary64::is_negative(bits) {
        0
    } else if !crate::binary64::is_finite(bits) || crate::binary64::magnitude(bits) > percent(100) {
        percent(100)
    } else {
        crate::binary64::magnitude(bits)
    }
}

/// What a hundred percent less `used` leaves, brought into the range from 0 to 100.
pub open spec fn left_of(used: nat) -> nat {
    let left = crate::binary64::minus(percent(100), used);
    if left > percent(100) {
        percent(100)
    } else {
        left
    }
}

/// Hundredths of a percent, rounded down.
pub open spec fn hundredths(p: nat) -> nat {
    crate::binary64::floor(crate::binary64::times(p, percent(100)))
}

/// How many of eight cells stand for a percentage.
pub open spec fn filled_cells(p: nat) -> nat {
    let n = crate::binary64::round_half_up(
        crate::binary64::times(crate::binary64::over(p, percent(100)), percent(8)),
    );
    if n > 8 {
        8
    } else {
        n
    }
}

/// Eight cells, the filled ones first.
pub open spec fn cells_text(p: nat) -> Seq<char> {
    crate::text::repeated('\u{2588}', filled_cells(p)) + crate::text::repeated(
        '\u{2591}',
        (8 - filled_cells(p)) as nat,
    )
}

/// A percentage rounded to a whole number, halves to the even one, in three columns.
pub open spec fn percent_text(p: nat) -> Seq<char> {
    crate::text::pad_start(
        crate::text::decimal(crate::binary64::round_half_even(p, crate::binary64::unit())),
        3,
    ) + "%"@
}

pub open spec fn level(p: nat) -> QuotaLevel {
    if p <= percent(10) {
        QuotaLevel::Critical
    } else if p <= percent(35) {
        QuotaLevel::Low
    } else if p <= percent(65) {
        QuotaLevel::Medium
    } else {
        QuotaLevel::High
    }
}

/// A number that was read from a report, as its binary64 pattern. It is never NaN.
#[derive(Clone, Copy, Debug)]
pub struct Reading {
    bits: u64,
}

impl View for Reading {
    type V = u64;

    closed spec fn view(&self) -> u64 {
        self.bits
    }
}

impl Reading {
    #[verifier::type_invariant]
    spec fn well_formed(self) -> bool {
        !crate::binary64::is_nan(self.bits)
    }

    /// The number of a binary64 pattern, unless it is NaN.
    pub fn new(bits: u64) -> (r: Option<Self>)
        ensures
            match r {
                Some(reading) => reading@ == bits && !crate::binary64::is_nan(bits),
                None => crate::binary64::is_nan(bits),
            },
    {
        let exponent: u64 = (bits / crate::binary64::LOW) % 2048;
        if exponent == 2047 && bits % crate::binary64::LOW != 0 {
            None
        } else {
            Some(Reading { bits })
        }
    }

    pub fn bits(&self) -> (r: u64)
        ensures
            r == self@,
            !crate::binary64::is_nan(r),
    {
        proof {
            use_type_invariant(self);
        }
        self.bits
    }
}

impl Percent {
    #[verifier::type_invariant]
    spec fn well_formed(self) -> bool {
        self.value@ <= percent(100)
    }

    /// The number that was read, brought into the range from 0 to 100.
    pub fn clamped(reading: Reading) -> (r: Self)
        ensures
            r@ == clamped(reading@),
            r@ <= percent(100),
    {
        let bits: u64 = reading.bits();
        if bits >= 0x8000_0000_0000_0000 {
            proof {
                lemma_pow2_pos(1074);
            }
            return Percent { value: Binary64::zero() };
        }
        let hundred = Binary64::small(100);
        let exponent: u64 = (bits / crate::binary64::LOW) % 2048;
        if exponent >= 2047 {
            return Percent { value: hundred };
        }
        let value = Binary64::of_bits(bits);
        if value.le(hundred) {
            Percent { value }
        } else {
            Percent { value: hundred }
        }
    }

    /// What this percentage leaves of a hundred.
    pub fn left(self) -> (r: Self)
        ensures
            r@ == left_of(self@),
    {
        proof {
            use_type_invariant(&self);
        }
        let hundred = Binary64::small(100);
        let value = self.value.from_hundred();
        if value.le(hundred) {
            Percent { value }
        } else {
            Percent { value: hundred }
        }
    }

    /// Nothing is left.
    pub fn is_spent(self) -> (r: bool)
        ensures
            r == (self@ == 0),
    {
        self.value.le(Binary64::zero())
    }

    /// Hundredths of a percent, rounded down.
    pub fn hundredths(self) -> (r: i64)
        ensures
            r == hundredths(self@),
            0 <= r <= 16384,
    {
        proof {
            use_type_invariant(&self);
        }
        self.value.hundredfold() as i64
    }

    /// A bar of eight cells.
    pub fn mini_bar(self) -> (r: String)
        ensures
            r@ == cells_text(self@),
    {
        proof {
            use_type_invariant(&self);
        }
        let n: u64 = self.value.eighths_of_hundred();
        let filled: usize = if n > 8 {
            8
        } else {
            n as usize
        };
        let mut r = String::new();
        push_repeated(&mut r, '\u{2588}', filled);
        push_repeated(&mut r, '\u{2591}', 8 - filled);
        assert(r@ =~= cells_text(self@));
        r
    }

    /// The rounded percentage in three columns, and a percent sign.
    pub fn percent_text(self) -> (r: String)
        ensures
            r@ == percent_text(self@),
    {
        proof {
            use_type_invariant(&self);
            lemma_pow2_pos(1074);
            let u = crate::binary64::unit();
            assert(100 * u < crate::binary64::HIGH * u) by (nonlinear_arith)
                requires
                    u > 0,
            ;
        }
        let digits = decimal_text(self.value.round_half_even());
        let mut r = String::new();
        push_pad_start(&mut r, digits.as_str(), 3);
        r.append("%");
        assert(r@ =~= percent_text(self@));
        r
    }

    /// The level at which this percentage is shown.
    pub fn quota_level(self) -> (r: QuotaLevel)
        ensures
            r == level(self@),
    {
        if self.value.le(Binary64::small(10)) {
            QuotaLevel::Critical
        } else if self.value.le(Binary64::small(35)) {
            QuotaLevel::Low
        } else if self.value.le(Binary64::small(65)) {
            QuotaLevel::Medium
        } else {
            QuotaLevel::High
        }
    }
}

/// A percentage lies in the range from 0 to 100.
pub proof fn lemma_clamped_range(bits: u64)
    ensures
        clamped(bits) <= percent(100),
{
}

/// Nothing is left exactly where everything is used.
pub proof fn lemma_spent_when_all_is_used(used: nat)
    requires
        used <= percent(100),
    ensures
        left_of(used) == 0 <==> used == percent(100),
{
    lemma2_to64();
    lemma_pow2_pos(1074);
    let n = (percent(100) - used) as nat;
    if n == 0 {
        crate::binary64::lemma_nearest_zero(1);
    } else {
        crate::binary64::lemma_nearest_short(1, 0);
        crate::binary64::lemma_nearest_monotone(1, n, 1);
    }
}

/// What is left and what is used make up a hundred: where at least `k` percent are used, at most the
/// rest of the hundred is left, and where at most `k` percent are used, at least that.
pub proof fn lemma_left_is_the_rest(used: nat, k: nat)
    requires
        used <= percent(100),
        k <= 100,
    ensures
        percent(k) <= used ==> left_of(used) <= percent((100 - k) as nat),
        used <= percent(k) ==> percent((100 - k) as nat) <= left_of(used),
        used == percent(k) ==> left_of(used) == percent((100 - k) as nat),
{
    let u = crate::binary64::unit();
    let rest = (100 - k) as nat;
    let n = (percent(100) - used) as nat;
    lemma_pow2_pos(1074);
    lemma2_to64();
    crate::binary64::lemma_nearest_short(rest, 1074);
    crate::binary64::lemma_nearest_short(100, 1074);
    assert(percent(100) - percent(k) == percent(rest)) by (nonlinear_arith)
        requires
            percent(100) == 100 * u,
            percent(k) == k * u,
            percent(rest) == rest * u,
            rest == 100 - k,
    ;
    assert(percent(rest) <= percent(100)) by (nonlinear_arith)
        requires
            percent(rest) == rest * u,
            percent(100) == 100 * u,
            rest <= 100,
            u > 0,
    ;
    if percent(k) <= used {
        crate::binary64::lemma_nearest_monotone(n, percent(rest), 1);
    }
    if used <= percent(k) {
        crate::binary64::lemma_nearest_monotone(percent(rest), n, 1);
    }
}

/// The number that is shown of a percentage is the nearest whole one.
pub proof fn lemma_nearest_percent_shown(p: nat, k: nat)
    requires
        percent(k) <= p < percent(k + 1),
    ensures
        2 * (p - percent(k)) < crate::binary64::unit() ==> percent_text(p) == crate::text::pad_start(
            crate::text::decimal(k),
            3,
        ) + "%"@,
        2 * (p - percent(k)) > crate::binary64::unit() ==> percent_text(p) == crate::text::pad_start(
            crate::text::decimal(k + 1),
            3,
        ) + "%"@,
        percent_text(p) == crate::text::pad_start(crate::text::decimal(k), 3) + "%"@
            || percent_text(p) == crate::text::pad_start(crate::text::decimal(k + 1), 3) + "%"@,
{
    let u = crate::binary64::unit();
    lemma_pow2_pos(1074);
    assert((k + 1) * u == k * u + u) by (nonlinear_arith);
    lemma_fundamental_div_mod_converse(p as int, u as int, k as int, p - k * u);
}

/// A whole percentage is shown as it is.
pub proof fn lemma_whole_percent_shown(k: nat)
    ensures
        percent_text(percent(k)) == crate::text::pad_start(crate::text::decimal(k), 3) + "%"@,
{
    let u = crate::binary64::unit();
    lemma_pow2_pos(1074);
    assert((k + 1) * u == k * u + u) by (nonlinear_arith);
    lemma_nearest_percent_shown(percent(k), k);
}

/// What is left counts in hundredths of a percent: a hundred of them for each whole percent, and never
/// fewer where more is left.
pub proof fn lemma_hundredths(p: nat, q: nat, k: nat)
    requires
        p <= q,
        k <= 100,
    ensures
        hundredths(percent(k)) == 100 * k,
        hundredths(p) <= hundredths(q),
{
    let u = crate::binary64::unit();
    lemma_pow2_pos(1074);
    lemma2_to64();
    let c = 100 * k;
    crate::binary64::lemma_nearest_short(c, 1074);
    let n = percent(k) * percent(100);
    assert(n * 1 == (c * u) * u) by (nonlinear_arith)
        requires
            n == (k * u) * (100 * u),
            c == 100 * k,
    ;
    crate::binary64::lemma_nearest_ratio(n, u, c * u, 1);
    lemma_div_by_multiple(c as int, u as int);
    assert(p * percent(100) <= q * percent(100)) by (nonlinear_arith)
        requires
            p <= q,
    ;
    crate::binary64::lemma_nearest_monotone(p * percent(100), q * percent(100), u);
    lemma_div_is_ordered(
        crate::binary64::times(p, percent(100)) as int,
        crate::binary64::times(q, percent(100)) as int,
        u as int,
    );
}

/// An eighth of a hundred percent, `m` times.
pub open spec fn eighths(m: nat) -> nat {
    m * 25 * pow2(1073)
}

/// Each eighth that is left fills a cell of the bar: none where nothing is left, and all where
/// everything is. A greater percentage never fills fewer.
pub proof fn lemma_filled_cells(p: nat, q: nat, m: nat)
    requires
        p <= q,
        m <= 8,
    ensures
        filled_cells(eighths(m)) == m,
        filled_cells(p) <= filled_cells(q),
        eighths(8) == percent(100),
        eighths(0) == 0,
{
    let u = crate::binary64::unit();
    let e = pow2(1071);
    lemma_pow2_pos(1074);
    lemma_pow2_pos(1071);
    lemma2_to64();
    lemma_pow2_adds(1071, 3);
    lemma_pow2_adds(1071, 2);
    assert(u == e * 8);
    assert(pow2(1073) == e * 4);
    assert(eighths(m) == m * 100 * e) by (nonlinear_arith)
        requires
            eighths(m) == m * 25 * (e * 4),
    ;
    assert(eighths(8) == percent(100)) by (nonlinear_arith)
        requires
            eighths(8) == 8 * 25 * (e * 4),
            percent(100) == 100 * (e * 8),
    ;
    assert(0 * 25 * pow2(1073) == 0) by (nonlinear_arith);
    // The quotient is m eighths, and eight times that is m.
    crate::binary64::lemma_nearest_short(m, 1071);
    let d = percent(100);
    assert(d > 0);
    assert((eighths(m) * u) * 1 == (m * e) * d) by (nonlinear_arith)
        requires
            eighths(m) == m * 100 * e,
            d == 100 * u,
    ;
    crate::binary64::lemma_nearest_ratio(eighths(m) * u, d, m * e, 1);
    let x = crate::binary64::over(eighths(m), d);
    assert(x == m * e);
    crate::binary64::lemma_nearest_short(m, 1074);
    assert((x * percent(8)) * 1 == (m * u) * u) by (nonlinear_arith)
        requires
            x == m * e,
            percent(8) == 8 * u,
            u == e * 8,
    ;
    crate::binary64::lemma_nearest_ratio(x * percent(8), u, m * u, 1);
    let y = crate::binary64::times(x, percent(8));
    assert(y == m * u);
    assert(2 * y + u == (2 * u) * m + u) by (nonlinear_arith)
        requires
            y == m * u,
    ;
    lemma_fundamental_div_mod_converse((2 * y + u) as int, (2 * u) as int, m as int, u as int);
    // Every step keeps the order.
    assert(p * u <= q * u) by (nonlinear_arith)
        requires
            p <= q,
    ;
    crate::binary64::lemma_nearest_monotone(p * u, q * u, d);
    let a = crate::binary64::over(p, d);
    let b = crate::binary64::over(q, d);
    assert(a * percent(8) <= b * percent(8)) by (nonlinear_arith)
        requires
            a <= b,
    ;
    crate::binary64::lemma_nearest_monotone(a * percent(8), b * percent(8), u);
    lemma_div_is_ordered(
        (2 * crate::binary64::times(a, percent(8)) + u) as int,
        (2 * crate::binary64::times(b, percent(8)) + u) as int,
        (2 * u) as int,
    );
}

/// The bar has eight cells: as many filled ones as the percentage fills, and then empty ones.
pub proof fn lemma_cells(p: nat, i: int)
    requires
        0 <= i < 8,
    ensures
        cells_text(p).len() == 8,
        cells_text(p)[i] == if i < filled_cells(p) {
            '\u{2588}'
        } else {
            '\u{2591}'
        },
{
}

/// How much is left decides the level: up to ten percent, up to thirty-five, up to sixty-five, more.
/// Less is never shown as a higher level.
pub proof fn lemma_level(p: nat, q: nat)
    requires
        p <= q,
    ensures
        level(p) == QuotaLevel::Critical <==> p <= percent(10),
        level(p) == QuotaLevel::High <==> p > percent(65),
        level(p) == QuotaLevel::Low <==> percent(10) < p <= percent(35),
        level(q) == QuotaLevel::Critical ==> level(p) == QuotaLevel::Critical,
        level(p) == QuotaLevel::High ==> level(q) == QuotaLevel::High,
{
    lemma_pow2_pos(1074);
    let u = crate::binary64::unit();
    assert(10 * u < 35 * u && 35 * u < 65 * u) by (nonlinear_arith)
        requires
            u > 0,
    ;
}

/// A reading that is no number between 0 and 100 counts as the nearer of the two.
pub proof fn lemma_clamped(bits: u64)
    ensures
        crate::binary64::is_negative(bits) ==> clamped(bits) == 0,
        !crate::binary64::is_negative(bits) && crate::binary64::is_finite(bits)
            && crate::binary64::magnitude(bits) <= percent(100) ==> clamped(bits)
            == crate::binary64::magnitude(bits),
        !crate::binary64::is_negative(bits) && crate::binary64::is_finite(bits)
            && crate::binary64::magnitude(bits) > percent(100) ==> clamped(bits) == percent(100),
{
}

/// Halfway between two whole percentages the even one is shown.
pub proof fn lemma_half_percent_shown(p: nat, k: nat)
    requires
        2 * p == 2 * percent(k) + crate::binary64::unit(),
    ensures
        k % 2 == 0 ==> percent_text(p) == crate::text::pad_start(crate::text::decimal(k), 3) + "%"@,
        k % 2 == 1 ==> percent_text(p) == crate::text::pad_start(crate::text::decimal(k + 1), 3)
            + "%"@,
{
    let u = crate::binary64::unit();
    lemma_pow2_pos(1074);
    lemma_fundamental_div_mod_converse(p as int, u as int, k as int, p - k * u);
}

/// Half an eighth of a hundred percent, `j` times.
pub open spec fn sixteenths(j: nat) -> nat {
    j * 25 * pow2(1072)
}

/// The bar is rounded to the nearest cell, and halfway between two of them up.
pub proof fn lemma_half_cells(j: nat)
    requires
        j <= 15,
    ensures
        filled_cells(sixteenths(j)) == (j + 1) / 2,
        j % 2 == 0 ==> sixteenths(j) == eighths(j / 2),
{
    let u = crate::binary64::unit();
    let e = pow2(1070);
    lemma_pow2_pos(1074);
    lemma_pow2_pos(1070);
    lemma2_to64();
    lemma_pow2_adds(1070, 4);
    lemma_pow2_adds(1070, 3);
    lemma_pow2_adds(1070, 2);
    assert(u == e * 16);
    assert(pow2(1073) == e * 8);
    assert(pow2(1072) == e * 4);
    assert(sixteenths(j) == j * 100 * e) by (nonlinear_arith)
        requires
            sixteenths(j) == j * 25 * (e * 4),
    ;
    if j % 2 == 0 {
        let m = j / 2;
        assert(sixteenths(j) == eighths(m)) by (nonlinear_arith)
            requires
                sixteenths(j) == j * 25 * (e * 4),
                eighths(m) == m * 25 * (e * 8),
                j == 2 * m,
        ;
    }
    crate::binary64::lemma_nearest_short(j, 1070);
    let d = percent(100);
    assert((sixteenths(j) * u) * 1 == (j * e) * d) by (nonlinear_arith)
        requires
            sixteenths(j) == j * 100 * e,
            d == 100 * u,
    ;
    crate::binary64::lemma_nearest_ratio(sixteenths(j) * u, d, j * e, 1);
    let x = crate::binary64::over(sixteenths(j), d);
    assert(x == j * e);
    let h = pow2(1073);
    crate::binary64::lemma_nearest_short(j, 1073);
    assert((x * percent(8)) * 1 == (j * h) * u) by (nonlinear_arith)
        requires
            x == j * e,
            percent(8) == 8 * u,
            h == e * 8,
    ;
    crate::binary64::lemma_nearest_ratio(x * percent(8), u, j * h, 1);
    let y = crate::binary64::times(x, percent(8));
    assert(y == j * h);
    assert(u == 2 * h);
    let n = 2 * y + u;
    let q = (j + 1) / 2;
    let r = n - (2 * u) * q;
    assert(r == if j % 2 == 0 {
        u as int
    } else {
        0
    }) by (nonlinear_arith)
        requires
            r == n - (2 * u) * q,
            n == 2 * y + u,
            y == j * h,
            u == 2 * h,
            q == (j + 1) / 2,
            j <= 15,
    ;
    lemma_fundamental_div_mod_converse(n as int, (2 * u) as int, q as int, r);
}

} // verus!
