//! Binary64 arithmetic on integers.
//!
//! Every finite binary64 number is a whole number of units of 2^-1074. The specifications take such
//! a number as its count of units; an operation is the exact result, rounded to the nearest count
//! that has 53 significant bits, with ties going to the even one.
use vstd::arithmetic::div_mod::*;
use vstd::arithmetic::mul::*;
use vstd::arithmetic::power2::*;
use vstd::prelude::*;

verus! {

/// 2^52, the least significand of a normal number.
pub const LOW: u64 = 0x10_0000_0000_0000;

/// 2^53, the bound of all significands.
pub const HIGH: u64 = 0x20_0000_0000_0000;

/// 2^105, the product of the two.
const MIDDLE: u128 = 0x200_0000_0000_0000_0000_0000_0000;

/// The number of units in one.
pub open spec fn unit() -> nat {
    pow2(1074)
}

/// `n / d` rounded to a whole number, halves to the even one.
pub open spec fn round_half_even(n: nat, d: nat) -> nat {
    let q = n / d;
    let r = n % d;
    if 2 * r < d || (2 * r == d && q % 2 == 0) {
        q
    } else {
        q + 1
    }
}

/// The exponent of the spacing that numbers of 53 significant bits have at `n / d`.
pub open spec fn spacing(n: nat, d: nat) -> nat
    decreases n - d,
{
    if d == 0 || n < HIGH * d {
        0
    } else {
        1 + spacing(n, 2 * d)
    }
}

/// The count of 53 significant bits that is nearest to `n / d`.
pub open spec fn nearest(n: nat, d: nat) -> nat {
    let g = pow2(spacing(n, d));
    round_half_even(n, d * g) * g
}

/// A whole number as binary64.
pub open spec fn of_int(v: nat) -> nat {
    nearest(v * unit(), 1)
}

pub open spec fn times(a: nat, b: nat) -> nat {
    nearest(a * b, unit())
}

pub open spec fn over(a: nat, b: nat) -> nat {
    nearest(a * unit(), b)
}

/// `a - b`, where `b` is not the greater.
pub open spec fn minus(a: nat, b: nat) -> nat {
    nearest((a - b) as nat, 1)
}

/// The whole part of a number.
pub open spec fn floor(a: nat) -> nat {
    a / unit()
}

/// What a number has beyond its whole part. It has no more significant bits than the number has, so
/// that binary64 subtraction gives it without rounding.
pub open spec fn fraction(a: nat) -> nat {
    a % unit()
}

/// A number rounded to a whole one, halves upward.
pub open spec fn round_half_up(a: nat) -> nat {
    (2 * a + unit()) / (2 * unit())
}

/// The lesser of `n` and the greatest `u64`.
pub open spec fn saturated(n: nat) -> nat {
    if n <= u64::MAX {
        n
    } else {
        u64::MAX as nat
    }
}

proof fn lemma_round_ratio(n1: nat, d1: nat, n2: nat, d2: nat)
    requires
        d1 > 0,
        d2 > 0,
        n1 * d2 == n2 * d1,
    ensures
        round_half_even(n1, d1) == round_half_even(n2, d2),
        n1 / d1 == n2 / d2,
{
    let q = (n1 / d1) as int;
    let r1 = (n1 % d1) as int;
    lemma_fundamental_div_mod(n1 as int, d1 as int);
    let r2 = n2 - q * d2;
    assert(d1 * r2 == r1 * d2) by (nonlinear_arith)
        requires
            n1 * d2 == n2 * d1,
            n1 == d1 * q + r1,
            r2 == n2 - q * d2,
    ;
    assert(0 <= r2 < d2) by (nonlinear_arith)
        requires
            d1 * r2 == r1 * d2,
            0 <= r1 < d1,
            d1 > 0,
            d2 > 0,
    ;
    lemma_fundamental_div_mod_converse_div(n2 as int, d2 as int, q, r2);
    lemma_fundamental_div_mod_converse_mod(n2 as int, d2 as int, q, r2);
    assert((2 * r1 < d1) == (2 * r2 < d2)) by (nonlinear_arith)
        requires
            d1 * r2 == r1 * d2,
            d1 > 0,
            d2 > 0,
    ;
    assert((2 * r1 == d1) == (2 * r2 == d2)) by (nonlinear_arith)
        requires
            d1 * r2 == r1 * d2,
            d1 > 0,
            d2 > 0,
    ;
}

proof fn lemma_spacing(n: nat, d: nat, s: nat)
    requires
        d > 0,
        n < HIGH * (d * pow2(s)),
        s > 0 ==> LOW * (d * pow2(s)) <= n,
    ensures
        spacing(n, d) == s,
    decreases s,
{
    lemma2_to64();
    if s > 0 {
        lemma_pow2_unfold(s);
        lemma_pow2_pos((s - 1) as nat);
        let g = pow2((s - 1) as nat);
        assert(d * (2 * g) == (2 * d) * g) by (nonlinear_arith);
        assert(d * g >= d) by (nonlinear_arith)
            requires
                g >= 1,
        ;
        assert((2 * d) * g == 2 * (d * g)) by (nonlinear_arith);
        if s == 1 {
            assert(d * 2 == 2 * d);
        }
        lemma_spacing(n, 2 * d, (s - 1) as nat);
    } else {
        assert(d * 1 == d);
    }
}

/// Where `n / d` is `p / q` times 2^s and `p / q` has 53 bits before the point, rounding `p / q` to
/// a whole number finds the nearest count.
proof fn lemma_nearest(n: nat, d: nat, p: nat, q: nat, s: nat)
    requires
        d > 0,
        q > 0,
        n * q == p * (d * pow2(s)),
        p < HIGH * q,
        s > 0 ==> LOW * q <= p,
    ensures
        nearest(n, d) == round_half_even(p, q) * pow2(s),
{
    lemma_pow2_pos(s);
    let m = d * pow2(s);
    assert(m > 0) by (nonlinear_arith)
        requires
            d > 0,
            pow2(s) > 0,
            m == d * pow2(s),
    ;
    assert(n < HIGH * m) by (nonlinear_arith)
        requires
            n * q == p * m,
            p < HIGH * q,
            m > 0,
            q > 0,
    ;
    if s > 0 {
        assert(LOW * m <= n) by (nonlinear_arith)
            requires
                n * q == p * m,
                LOW * q <= p,
                m > 0,
                q > 0,
        ;
    }
    lemma_spacing(n, d, s);
    lemma_round_ratio(n, m, p, q);
}

/// A count of 53 significant bits is its own nearest count.
pub proof fn lemma_nearest_exact(m: nat, s: nat)
    requires
        m < HIGH,
        s > 0 ==> LOW <= m,
    ensures
        nearest(m * pow2(s), 1) == m * pow2(s),
{
    assert((m * pow2(s)) * 1 == m * (1 * pow2(s)));
    lemma_nearest(m * pow2(s), 1, m, 1, s);
    assert(round_half_even(m, 1) == m);
}

/// Fewer than 53 significant bits are rounded to themselves, too.
pub proof fn lemma_nearest_short(m: nat, s: nat)
    requires
        m < HIGH,
    ensures
        nearest(m * pow2(s), 1) == m * pow2(s),
    decreases s,
{
    if s > 0 && m < LOW {
        lemma_pow2_unfold(s);
        assert(m * (2 * pow2((s - 1) as nat)) == (2 * m) * pow2((s - 1) as nat)) by (nonlinear_arith);
        lemma_nearest_short(2 * m, (s - 1) as nat);
    } else {
        lemma_nearest_exact(m, s);
    }
}

/// Rounding to a whole number does not pass a whole number.
pub proof fn lemma_round_at_most(n: nat, d: nat, c: nat)
    requires
        d > 0,
        n <= c * d,
    ensures
        round_half_even(n, d) <= c,
{
    lemma_fundamental_div_mod(n as int, d as int);
    let q = n / d;
    let r = n % d;
    assert(q <= c) by (nonlinear_arith)
        requires
            n == d * q + r,
            n <= c * d,
            r >= 0,
            d > 0,
    ;
    if q == c {
        assert(r == 0) by (nonlinear_arith)
            requires
                n == d * q + r,
                n <= c * d,
                q == c,
                r >= 0,
        ;
    }
}

/// Rounding to a whole number does not fall below a whole number.
pub proof fn lemma_round_at_least(n: nat, d: nat, c: nat)
    requires
        d > 0,
        c * d <= n,
    ensures
        c <= round_half_even(n, d),
{
    lemma_fundamental_div_mod(n as int, d as int);
    let q = n / d;
    let r = n % d;
    assert(c <= q) by (nonlinear_arith)
        requires
            n == d * q + r,
            c * d <= n,
            r < d,
            d > 0,
    ;
}

/// The spacing at `n / d` is the least that leaves 53 bits.
pub proof fn lemma_spacing_bounds(n: nat, d: nat)
    requires
        d > 0,
    ensures
        n < HIGH * (d * pow2(spacing(n, d))),
        spacing(n, d) > 0 ==> LOW * (d * pow2(spacing(n, d))) <= n,
    decreases n - d,
{
    lemma2_to64();
    if n >= HIGH * d {
        lemma_spacing_bounds(n, 2 * d);
        let s = spacing(n, 2 * d);
        lemma_pow2_unfold(s + 1);
        assert(d * (2 * pow2(s)) == (2 * d) * pow2(s)) by (nonlinear_arith);
        if s == 0 {
            assert((2 * d) * 1 == 2 * d);
        }
    } else {
        assert(d * 1 == d);
    }
}

/// Rounding does not pass a power of two.
pub proof fn lemma_nearest_at_most_power(n: nat, d: nat, j: nat)
    requires
        d > 0,
        n <= pow2(j) * d,
    ensures
        nearest(n, d) <= pow2(j),
{
    let s = spacing(n, d);
    let g = pow2(s);
    lemma_spacing_bounds(n, d);
    lemma_pow2_pos(s);
    lemma2_to64();
    if s > j {
        lemma_pow2_strictly_increases(j, s);
        assert(false) by (nonlinear_arith)
            requires
                LOW * (d * g) <= n,
                n <= pow2(j) * d,
                pow2(j) < g,
                d > 0,
        ;
    }
    let c = pow2((j - s) as nat);
    lemma_pow2_adds((j - s) as nat, s);
    assert(pow2(j) * d == c * (d * g)) by (nonlinear_arith)
        requires
            pow2(j) == c * g,
    ;
    assert(d * g > 0) by (nonlinear_arith)
        requires
            d > 0,
            g > 0,
    ;
    lemma_round_at_most(n, d * g, c);
    assert(round_half_even(n, d * g) * g <= c * g) by (nonlinear_arith)
        requires
            round_half_even(n, d * g) <= c,
    ;
}

/// The exponent field of a binary64 pattern.
pub open spec fn exponent_field(bits: u64) -> int {
    (bits as int / LOW as int) % 2048
}

/// The fraction field of a binary64 pattern.
pub open spec fn fraction_field(bits: u64) -> int {
    bits as int % LOW as int
}

/// The pattern of a number below zero, or of a negative zero.
pub open spec fn is_negative(bits: u64) -> bool {
    bits >= 0x8000_0000_0000_0000
}

/// The pattern of a number, not of an infinity and not of NaN.
pub open spec fn is_finite(bits: u64) -> bool {
    exponent_field(bits) < 2047
}

pub open spec fn is_nan(bits: u64) -> bool {
    exponent_field(bits) == 2047 && fraction_field(bits) != 0
}

/// The absolute value of the number that a pattern stands for.
pub open spec fn magnitude(bits: u64) -> nat {
    if exponent_field(bits) == 0 {
        fraction_field(bits) as nat
    } else {
        ((LOW + fraction_field(bits)) * pow2((exponent_field(bits) - 1) as nat)) as nat
    }
}

/// A finite binary64 number that is not negative: `mantissa` times 2^`shift` units.
#[derive(Clone, Copy, Debug)]
pub struct Binary64 {
    mantissa: u64,
    shift: u64,
}

impl View for Binary64 {
    type V = nat;

    closed spec fn view(&self) -> nat {
        self.mantissa as nat * pow2(self.shift as nat)
    }
}

/// 2^`e`.
fn power(e: u64) -> (r: u128)
    requires
        e <= 120,
    ensures
        r == pow2(e as nat),
        1 <= r <= 0x100_0000_0000_0000_0000_0000_0000_0000,
{
    let mut r: u128 = 1;
    proof {
        lemma2_to64();
    }
    for i in 0..e
        invariant
            e <= 120,
            r == pow2(i as nat),
            1 <= r,
    {
        proof {
            lemma_pow2_unfold((i + 1) as nat);
            lemma_bound_power(i as nat);
        }
        r = 2 * r;
    }
    proof {
        lemma_bound_power(e as nat);
    }
    r
}

proof fn lemma_bound_power(e: nat)
    requires
        e <= 120,
    ensures
        pow2(e) <= 0x100_0000_0000_0000_0000_0000_0000_0000,
{
    lemma2_to64_rest();
    lemma_pow2_adds(60, 60);
    assert(pow2(60) * pow2(60) == 0x100_0000_0000_0000_0000_0000_0000_0000) by (nonlinear_arith)
        requires
            pow2(60) == 0x1000_0000_0000_0000,
    ;
    if e < 120 {
        lemma_pow2_strictly_increases(e, 120);
    }
}

/// `p / q` rounded to a whole number, halves to the even one.
fn half_even(p: u128, q: u128) -> (r: u64)
    requires
        0 < q < 0x4000_0000_0000_0000_0000_0000_0000_0000,
        p < HIGH * q,
    ensures
        r == round_half_even(p as nat, q as nat),
        r <= HIGH,
        LOW * q <= p ==> LOW <= r,
{
    let w: u128 = p / q;
    let rest: u128 = p % q;
    proof {
        lemma_multiply_divide_lt(p as int, q as int, HIGH as int);
        assert(q * HIGH == HIGH * q) by (nonlinear_arith);
        if LOW * q <= p {
            lemma_div_is_ordered(LOW * q, p as int, q as int);
            lemma_div_by_multiple(LOW as int, q as int);
        }
    }
    if 2 * rest < q || (2 * rest == q && w % 2 == 0) {
        w as u64
    } else {
        (w + 1) as u64
    }
}

impl Binary64 {
    /// The significand has 53 bits, or the number is below the normal ones.
    #[verifier::type_invariant]
    spec fn canonical(self) -> bool {
        &&& self.mantissa < HIGH
        &&& self.shift > 0 ==> LOW <= self.mantissa
    }

    /// Not zero, and with an exponent between those of 2^`low` and 2^`high` units.
    pub closed spec fn within(self, low: int, high: int) -> bool {
        LOW <= self.mantissa && low <= self.shift <= high
    }

    /// The exponent of the unit of the significand.
    pub closed spec fn scale(self) -> int {
        self.shift as int
    }

    pub fn zero() -> (r: Self)
        ensures
            r@ == 0,
    {
        Binary64 { mantissa: 0, shift: 0 }
    }

    /// The number of `m` times 2^`s` units.
    fn scaled(m: u64, s: u64) -> (r: Self)
        requires
            m < HIGH,
        ensures
            r@ == m * pow2(s as nat),
    {
        let mut mantissa: u64 = m;
        let mut shift: u64 = s;
        if m == 0 {
            return Self::zero();
        }
        while mantissa < LOW && shift > 0
            invariant
                0 < mantissa < HIGH,
                shift <= s,
                mantissa * pow2(shift as nat) == m * pow2(s as nat),
            decreases shift,
        {
            proof {
                lemma_pow2_unfold(shift as nat);
                assert(mantissa * (2 * pow2((shift - 1) as nat)) == (2 * mantissa) * pow2(
                    (shift - 1) as nat,
                )) by (nonlinear_arith);
            }
            mantissa = 2 * mantissa;
            shift = shift - 1;
        }
        Binary64 { mantissa, shift }
    }

    /// The number of `m` times 2^`s` units, where `m` is the outcome of a rounding.
    fn rounded(m: u64, s: u64) -> (r: Self)
        requires
            LOW <= m <= HIGH,
            s < 0x1_0000,
        ensures
            r@ == m * pow2(s as nat),
            r.within(s as int, s + 1),
    {
        if m == HIGH {
            proof {
                lemma_pow2_unfold((s + 1) as nat);
                assert(HIGH * pow2(s as nat) == LOW * (2 * pow2(s as nat))) by (nonlinear_arith);
            }
            Binary64 { mantissa: LOW, shift: s + 1 }
        } else {
            Binary64 { mantissa: m, shift: s }
        }
    }

    /// A whole number, rounded where it has more than 53 bits.
    pub fn of_u64(v: u64) -> (r: Self)
        ensures
            r@ == of_int(v as nat),
            v > 0 ==> r.within(1022, 1086),
            v == 0 ==> r@ == 0,
    {
        if v == 0 {
            proof {
                lemma_nearest_exact(0, 0);
                lemma2_to64();
                assert(0 * unit() == 0);
                assert(0 * pow2(0) == 0);
            }
            return Self::zero();
        }
        let mut p: u64 = v;
        let mut s: u64 = 1074;
        proof {
            lemma2_to64();
        }
        while p < LOW
            invariant
                0 < p,
                1022 <= s <= 1074,
                p * pow2(s as nat) == v * pow2(1074),
                p < HIGH || s == 1074,
                p >= pow2((1074 - s) as nat),
            decreases s,
        {
            proof {
                lemma_pow2_unfold(s as nat);
                lemma_pow2_unfold((1075 - s) as nat);
                lemma2_to64_rest();
                if s == 1022 {
                    assert(pow2(52) == LOW);
                }
                assert(p * (2 * pow2((s - 1) as nat)) == (2 * p) * pow2((s - 1) as nat))
                    by (nonlinear_arith);
            }
            p = 2 * p;
            s = s - 1;
        }
        let mut q: u64 = 1;
        let ghost base = s;
        while p as u128 >= HIGH as u128 * q as u128
            invariant
                0 < q,
                LOW * q <= p,
                q * HIGH <= 2 * u64::MAX,
                base <= s,
                s <= 1085,
                q == pow2((s - base) as nat),
                p >= HIGH ==> base == 1074,
                1022 <= base <= 1074,
                base + 11 >= s,
            decreases p - q,
        {
            proof {
                lemma_pow2_unfold((s + 1 - base) as nat);
                lemma2_to64();
                if s - base == 11 {
                    assert(pow2(11) == 2048);
                }
            }
            q = 2 * q;
            s = s + 1;
        }
        let m = half_even(p as u128, q as u128);
        proof {
            lemma_pow2_adds(base as nat, (s - base) as nat);
            let n = v as nat * unit();
            assert(n * q == p * (1 * pow2(s as nat))) by (nonlinear_arith)
                requires
                    n == p * pow2(base as nat),
                    pow2(s as nat) == pow2(base as nat) * q,
            ;
            lemma_nearest(n, 1, p as nat, q as nat, s as nat);
        }
        Self::rounded(m, s)
    }

    /// A whole number of at most 53 bits.
    pub fn small(v: u64) -> (r: Self)
        requires
            0 < v < HIGH,
        ensures
            r@ == v * unit(),
            r.within(1022, 1086),
    {
        proof {
            lemma_nearest_short(v as nat, 1074);
        }
        Self::of_u64(v)
    }

    /// Less than 2^-21.
    fn is_tiny(self) -> (r: bool)
        ensures
            r ==> self@ < pow2(1053),
            !r ==> self.within(1000, self.scale()),
    {
        proof {
            use_type_invariant(&self);
            if self.shift < 1000 {
                lemma_pow2_adds(53, self.shift as nat);
                lemma2_to64_rest();
                lemma_pow2_strictly_increases(53 + self.shift as nat, 1053);
                lemma_pow2_pos(self.shift as nat);
                assert(self@ < pow2(53 + self.shift as nat)) by (nonlinear_arith)
                    requires
                        self@ == self.mantissa * pow2(self.shift as nat),
                        self.mantissa < HIGH,
                        pow2(53 + self.shift as nat) == pow2(53) * pow2(self.shift as nat),
                        pow2(53) == HIGH,
                        pow2(self.shift as nat) > 0,
                ;
            }
        }
        self.shift < 1000
    }

    /// The whole part of the number times a hundred.
    pub fn hundredfold(self) -> (r: u64)
        requires
            self@ <= 100 * unit(),
        ensures
            r == floor(times(self@, 100 * unit())),
            r <= 16384,
    {
        let hundred = Self::small(100);
        proof {
            lemma2_to64();
            lemma_pow2_pos(1074);
            lemma_pow2_adds(14, 1074);
            let a = self@;
            let u = unit();
            assert(a * (100 * u) <= pow2(1088) * u) by (nonlinear_arith)
                requires
                    a <= 100 * u,
                    pow2(1088) == 16384 * u,
            ;
            lemma_nearest_at_most_power(a * (100 * u), u, 1088);
            lemma_multiply_divide_le(times(a, 100 * u) as int, u as int, 16384);
        }
        if self.is_tiny() {
            proof {
                lemma_pow2_adds(7, 1053);
                lemma_pow2_strictly_increases(1060, 1074);
                let a = self@;
                let u = unit();
                assert(a * (100 * u) <= pow2(1060) * u) by (nonlinear_arith)
                    requires
                        a < pow2(1053),
                        pow2(1060) == 128 * pow2(1053),
                ;
                lemma_nearest_at_most_power(a * (100 * u), u, 1060);
                lemma_basic_div(times(a, 100 * u) as int, u as int);
            }
            0
        } else {
            proof {
                self.lemma_scale_of_percent();
            }
            self.mul(hundred).floor()
        }
    }

    /// Eight times the hundredth part of the number, rounded to a whole number, halves upward.
    pub fn eighths_of_hundred(self) -> (r: u64)
        requires
            self@ <= 100 * unit(),
        ensures
            r == saturated(round_half_up(times(over(self@, 100 * unit()), 8 * unit()))),
    {
        let hundred = Self::small(100);
        let eight = Self::small(8);
        if self.is_tiny() {
            proof {
                let a = self@;
                let u = unit();
                lemma2_to64();
                lemma_pow2_pos(1074);
                assert(a * u <= pow2(1053) * (100 * u)) by (nonlinear_arith)
                    requires
                        a < pow2(1053),
                ;
                lemma_nearest_at_most_power(a * u, 100 * u, 1053);
                let b = over(a, 100 * u);
                lemma_pow2_adds(3, 1053);
                assert(b * (8 * u) <= pow2(1056) * u) by (nonlinear_arith)
                    requires
                        b <= pow2(1053),
                        pow2(1056) == 8 * pow2(1053),
                ;
                lemma_nearest_at_most_power(b * (8 * u), u, 1056);
                lemma_pow2_adds(1, 1056);
                lemma_pow2_strictly_increases(1057, 1074);
                let c = times(b, 8 * u);
                lemma_basic_div((2 * c + u) as int, (2 * u) as int);
            }
            0
        } else {
            proof {
                self.lemma_scale_of_percent();
            }
            self.div(hundred).mul(eight).round_half_up()
        }
    }

    proof fn lemma_scale_of_percent(self)
        requires
            self@ <= 100 * unit(),
            self.within(1000, self.scale()),
        ensures
            self.within(1000, 1028),
    {
        if self.shift > 1028 {
            lemma_hundred();
            lemma_order(0x19_0000_0000_0000, 1028, self.mantissa as nat, self.shift as nat);
        }
    }

    /// The product.
    pub fn mul(self, other: Self) -> (r: Self)
        requires
            self.within(900, 1200),
            other.within(900, 1200),
        ensures
            r@ == times(self@, other@),
            r.within(self.scale() + other.scale() - 1022, self.scale() + other.scale() - 1020),
    {
        proof {
            use_type_invariant(&self);
            use_type_invariant(&other);
        }
        let a: u128 = self.mantissa as u128;
        let b: u128 = other.mantissa as u128;
        assert(LOW * LOW <= a * b < HIGH * HIGH) by (nonlinear_arith)
            requires
                LOW <= a < HIGH,
                LOW <= b < HIGH,
        ;
        let p: u128 = a * b;
        let high: bool = p >= MIDDLE;
        let q: u128 = if high {
            HIGH as u128
        } else {
            LOW as u128
        };
        let s: u64 = if high {
            self.shift + other.shift - 1074 + 53
        } else {
            self.shift + other.shift - 1074 + 52
        };
        let m = half_even(p, q);
        proof {
            lemma2_to64_rest();
            let x = self.shift as nat;
            let y = other.shift as nat;
            let e: nat = if high {
                53
            } else {
                52
            };
            lemma_pow2_adds(x, y);
            lemma_pow2_adds(1074, s as nat);
            lemma_pow2_adds(x + y, e);
            let n = self@ * other@;
            let big = pow2(x + y);
            assert(n == p * big) by (nonlinear_arith)
                requires
                    n == (a * pow2(x)) * (b * pow2(y)),
                    p == a * b,
                    big == pow2(x) * pow2(y),
            ;
            assert(n * q == p * (unit() * pow2(s as nat))) by (nonlinear_arith)
                requires
                    n == p * big,
                    unit() * pow2(s as nat) == big * q,
            ;
            lemma_pow2_pos(1074);
            lemma_nearest(n, unit(), p as nat, q as nat, s as nat);
        }
        Self::rounded(m, s)
    }

    /// The quotient.
    pub fn div(self, other: Self) -> (r: Self)
        requires
            self.within(900, 1300),
            other.within(900, 1200),
        ensures
            r@ == over(self@, other@),
            r.within(self.scale() - other.scale() + 1021, self.scale() - other.scale() + 1023),
    {
        proof {
            use_type_invariant(&self);
            use_type_invariant(&other);
        }
        let high: bool = self.mantissa >= other.mantissa;
        let f: u128 = if high {
            LOW as u128
        } else {
            HIGH as u128
        };
        let s: u64 = if high {
            self.shift + 1074 - other.shift - 52
        } else {
            self.shift + 1074 - other.shift - 53
        };
        let q: u128 = other.mantissa as u128;
        assert(self.mantissa * f < HIGH * HIGH) by (nonlinear_arith)
            requires
                self.mantissa < HIGH,
                f <= HIGH,
        ;
        let p: u128 = self.mantissa as u128 * f;
        assert(LOW * q <= p < HIGH * q) by (nonlinear_arith)
            requires
                LOW <= self.mantissa < HIGH,
                LOW <= q < HIGH,
                p == self.mantissa * f,
                HIGH == 2 * LOW,
                self.mantissa >= q ==> f == LOW,
                self.mantissa < q ==> f == HIGH,
        ;
        let m = half_even(p, q);
        proof {
            lemma2_to64_rest();
            let x = self.shift as nat;
            let y = other.shift as nat;
            let e: nat = if high {
                52
            } else {
                53
            };
            lemma_pow2_adds(x, 1074);
            lemma_pow2_adds(y, s as nat);
            lemma_pow2_adds(y + s as nat, e);
            let n = self@ * unit();
            let d = other@;
            let a = self.mantissa;
            let big = pow2(y + s as nat);
            assert(n * q == p * (d * pow2(s as nat))) by (nonlinear_arith)
                requires
                    n == (a * pow2(x)) * unit(),
                    pow2(x) * unit() == big * f,
                    p == a * f,
                    d == q * pow2(y),
                    big == pow2(y) * pow2(s as nat),
            ;
            lemma_pow2_pos(y);
            assert(d > 0) by (nonlinear_arith)
                requires
                    d == q * pow2(y),
                    q > 0,
                    pow2(y) > 0,
            ;
            lemma_nearest(n, d, p as nat, q as nat, s as nat);
        }
        Self::rounded(m, s)
    }

    /// The number that is not greater comes first.
    pub fn le(self, other: Self) -> (r: bool)
        ensures
            r == (self@ <= other@),
    {
        proof {
            use_type_invariant(&self);
            use_type_invariant(&other);
            if self.shift < other.shift {
                lemma_order(self.mantissa as nat, self.shift as nat, other.mantissa as nat, other.shift as nat);
            } else if other.shift < self.shift {
                lemma_order(other.mantissa as nat, other.shift as nat, self.mantissa as nat, self.shift as nat);
            } else {
                let g = pow2(self.shift as nat);
                lemma_pow2_pos(self.shift as nat);
                assert((self.mantissa <= other.mantissa) == (self.mantissa * g <= other.mantissa * g))
                    by (nonlinear_arith)
                    requires
                        g > 0,
                ;
            }
        }
        if self.shift == other.shift {
            self.mantissa <= other.mantissa
        } else {
            self.shift < other.shift
        }
    }

    /// The absolute value of the number that the pattern of a finite number stands for.
    pub fn of_bits(bits: u64) -> (r: Self)
        requires
            is_finite(bits),
        ensures
            r@ == magnitude(bits),
    {
        let e: u64 = (bits / LOW) % 2048;
        let f: u64 = bits % LOW;
        if e == 0 {
            proof {
                lemma2_to64();
            }
            Binary64 { mantissa: f, shift: 0 }
        } else {
            Binary64 { mantissa: LOW + f, shift: e - 1 }
        }
    }

    /// The whole part, or the greatest `u64` where that is less.
    pub fn floor(self) -> (r: u64)
        ensures
            r == saturated(floor(self@)),
    {
        proof {
            use_type_invariant(&self);
        }
        if self.shift >= 1074 {
            let e: u64 = self.shift - 1074;
            proof {
                lemma_whole(self.mantissa as nat, e as nat);
            }
            whole(self.mantissa, e)
        } else {
            let t: u64 = 1074 - self.shift;
            proof {
                lemma_parts(self.mantissa as nat, self.shift as nat, t as nat);
            }
            if t >= 64 {
                proof {
                    lemma_small(self.mantissa as nat, t as nat);
                }
                0
            } else {
                let g: u128 = power(t);
                let w: u128 = self.mantissa as u128 / g;
                proof {
                    lemma_div_is_ordered_by_denominator(self.mantissa as int, 1, g as int);
                }
                w as u64
            }
        }
    }

    /// What the number has beyond its whole part.
    pub fn fraction(self) -> (r: Self)
        ensures
            r@ == fraction(self@),
    {
        proof {
            use_type_invariant(&self);
        }
        if self.shift >= 1074 {
            proof {
                lemma_whole(self.mantissa as nat, (self.shift - 1074) as nat);
            }
            Self::zero()
        } else {
            let t: u64 = 1074 - self.shift;
            proof {
                lemma_parts(self.mantissa as nat, self.shift as nat, t as nat);
            }
            if t >= 64 {
                proof {
                    lemma_small(self.mantissa as nat, t as nat);
                }
                self
            } else {
                let g: u128 = power(t);
                let rest: u128 = self.mantissa as u128 % g;
                proof {
                    lemma_mod_decreases(self.mantissa as nat, g as nat);
                }
                Self::scaled(rest as u64, self.shift)
            }
        }
    }

    /// The number rounded to a whole one, halves upward, or the greatest `u64` where that is less.
    pub fn round_half_up(self) -> (r: u64)
        ensures
            r == saturated(round_half_up(self@)),
    {
        proof {
            use_type_invariant(&self);
        }
        if self.shift >= 1074 {
            let e: u64 = self.shift - 1074;
            proof {
                lemma_whole(self.mantissa as nat, e as nat);
            }
            whole(self.mantissa, e)
        } else {
            let t: u64 = 1074 - self.shift;
            proof {
                lemma_parts(self.mantissa as nat, self.shift as nat, t as nat);
            }
            if t >= 64 {
                proof {
                    lemma_small(self.mantissa as nat, t as nat);
                    lemma_pow2_pos(t as nat);
                    lemma_small_rounds(self.mantissa as nat, t as nat);
                }
                0
            } else {
                let g: u128 = power(t);
                let w: u128 = (2 * self.mantissa as u128 + g) / (2 * g);
                proof {
                    lemma_div_is_ordered_by_denominator(2 * self.mantissa + g, 2, 2 * g);
                    lemma_pow2_strictly_increases(t as nat, 64);
                    lemma2_to64_rest();
                }
                w as u64
            }
        }
    }

    /// The number rounded to a whole one, halves to the even one.
    pub fn round_half_even(self) -> (r: u64)
        requires
            self@ < HIGH * unit(),
        ensures
            r == round_half_even(self@, unit()),
    {
        proof {
            use_type_invariant(&self);
            lemma_pow2_pos(1074);
        }
        if self.shift >= 1074 {
            let e: u64 = self.shift - 1074;
            proof {
                lemma_whole(self.mantissa as nat, e as nat);
                lemma_pow2_pos(e as nat);
                if e > 0 {
                    lemma_pow2_unfold(e as nat);
                    lemma_pow2_pos((e - 1) as nat);
                    assert(self.mantissa * pow2(e as nat) >= HIGH) by (nonlinear_arith)
                        requires
                            self.mantissa >= LOW,
                            pow2(e as nat) >= 2,
                    ;
                    assert(self@ >= HIGH * unit()) by (nonlinear_arith)
                        requires
                            self@ == (self.mantissa * pow2(e as nat)) * unit(),
                            self.mantissa * pow2(e as nat) >= HIGH,
                    ;
                } else {
                    lemma2_to64();
                    assert(self.mantissa * pow2(0) == self.mantissa) by (nonlinear_arith)
                        requires
                            pow2(0) == 1,
                    ;
                }
            }
            self.mantissa
        } else {
            let t: u64 = 1074 - self.shift;
            proof {
                lemma_parts(self.mantissa as nat, self.shift as nat, t as nat);
            }
            if t >= 64 {
                proof {
                    lemma_small(self.mantissa as nat, t as nat);
                    lemma_small_rounds(self.mantissa as nat, t as nat);
                }
                0
            } else {
                let g: u128 = power(t);
                proof {
                    assert(self.mantissa < HIGH * g) by (nonlinear_arith)
                        requires
                            self.mantissa < HIGH,
                            g >= 1,
                    ;
                }
                half_even(self.mantissa as u128, g)
            }
        }
    }

    /// The number nearest to `p` times 2^`s` units.
    fn nearest_to(p: u128, s: u64) -> (r: Self)
        requires
            p < 0x200_0000_0000_0000_0000_0000_0000_0000,
            s < 0x1000,
        ensures
            r@ == nearest(p as nat * pow2(s as nat), 1),
    {
        if p < HIGH as u128 {
            proof {
                lemma_nearest_short(p as nat, s as nat);
            }
            return Self::scaled(p as u64, s);
        }
        let mut q: u128 = 1;
        let mut e: u64 = s;
        proof {
            lemma2_to64();
        }
        while p >= 0x20_0000_0000_0000u128 * q
            invariant
                0 < q < 0x40_0000_0000_0000_0000,
                LOW * q <= p,
                p < 0x200_0000_0000_0000_0000_0000_0000_0000,
                s <= e,
                s < 0x1000,
                e - s <= q,
                e <= s + 0x1000,
                e - s < 69,
                q == pow2((e - s) as nat),
            decreases p - q,
        {
            proof {
                lemma_pow2_unfold((e + 1 - s) as nat);
                lemma2_to64_rest();
                lemma2_to64();
                if e - s == 68 {
                    lemma_pow2_adds(64, 4);
                    assert(pow2(68) == 0x10_0000_0000_0000_0000) by (nonlinear_arith)
                        requires
                            pow2(68) == pow2(64) * pow2(4),
                            pow2(64) == 0x1_0000_0000_0000_0000,
                            pow2(4) == 16,
                    ;
                }
            }
            q = 2 * q;
            e = e + 1;
        }
        let m = half_even(p, q);
        proof {
            lemma_pow2_adds(s as nat, (e - s) as nat);
            let n = p as nat * pow2(s as nat);
            assert(n * q == p * (1 * pow2(e as nat))) by (nonlinear_arith)
                requires
                    n == p * pow2(s as nat),
                    pow2(e as nat) == pow2(s as nat) * q,
            ;
            lemma_nearest(n, 1, p as nat, q as nat, e as nat);
        }
        Self::rounded(m, e)
    }

    /// A hundred less the number.
    pub fn from_hundred(self) -> (r: Self)
        requires
            self@ <= 100 * unit(),
        ensures
            r@ == minus(100 * unit(), self@),
    {
        let hundred: u64 = 0x19_0000_0000_0000;
        proof {
            use_type_invariant(&self);
            lemma_hundred();
        }
        if self.shift <= 960 {
            proof {
                lemma_hundred_less_little(self.mantissa as nat, self.shift as nat);
            }
            return Binary64 { mantissa: hundred, shift: 1028 };
        }
        proof {
            if self.shift > 1028 {
                lemma_order(hundred as nat, 1028, self.mantissa as nat, self.shift as nat);
            }
        }
        let k: u64 = 1028 - self.shift;
        let g: u128 = power(k);
        proof {
            lemma_pow2_adds(k as nat, self.shift as nat);
            lemma_pow2_adds(64, 3);
            lemma2_to64();
            lemma2_to64_rest();
            assert(pow2(67) == 0x8_0000_0000_0000_0000) by (nonlinear_arith)
                requires
                    pow2(67) == pow2(64) * pow2(3),
                    pow2(64) == 0x1_0000_0000_0000_0000,
                    pow2(3) == 8,
            ;
            if k < 67 {
                lemma_pow2_strictly_increases(k as nat, 67);
            }
            let h = pow2(self.shift as nat);
            lemma_pow2_pos(self.shift as nat);
            assert(hundred * g <= hundred * 0x8_0000_0000_0000_0000) by (nonlinear_arith)
                requires
                    g <= 0x8_0000_0000_0000_0000,
            ;
            assert(self.mantissa <= hundred * g) by (nonlinear_arith)
                requires
                    self.mantissa * h <= hundred * (g * h),
                    h > 0,
            ;
            assert((hundred * g - self.mantissa) * h == hundred * (g * h) - self.mantissa * h)
                by (nonlinear_arith);
        }
        let p: u128 = hundred as u128 * g - self.mantissa as u128;
        Self::nearest_to(p, self.shift)
    }
}

/// `value * width / total`, computed from left to right.
pub open spec fn share(value: nat, width: nat, total: nat) -> nat {
    over(times(of_int(value), of_int(width)), of_int(total))
}

/// `part / all * width`, computed from left to right.
pub open spec fn stretch(part: nat, all: nat, width: nat) -> nat {
    times(over(of_int(part), of_int(all)), of_int(width))
}

pub proof fn lemma_nearest_zero(d: nat)
    requires
        d > 0,
    ensures
        nearest(0, d) == 0,
{
    lemma2_to64();
    assert(0 * pow2(0) == 0);
    assert(d * 1 == d);
    lemma_basic_div(0, d as int);
    lemma_small_mod(0, d);
}

/// A positive whole number does not become zero.
pub proof fn lemma_of_int_positive(v: nat)
    requires
        v > 0,
    ensures
        of_int(v) > 0,
        of_int(v) >= unit(),
{
    lemma_pow2_pos(1074);
    lemma_nearest_short(1, 1074);
    assert(unit() <= v * unit()) by (nonlinear_arith)
        requires
            v >= 1,
    ;
    lemma_nearest_monotone(unit(), v * unit(), 1);
}

/// Rounding to a whole number keeps the order.
pub proof fn lemma_round_monotone(n1: nat, n2: nat, d: nat)
    requires
        d > 0,
        n1 <= n2,
    ensures
        round_half_even(n1, d) <= round_half_even(n2, d),
{
    lemma_div_is_ordered(n1 as int, n2 as int, d as int);
    lemma_fundamental_div_mod(n1 as int, d as int);
    lemma_fundamental_div_mod(n2 as int, d as int);
}

/// Rounding keeps the order.
pub proof fn lemma_nearest_monotone(n1: nat, n2: nat, d: nat)
    requires
        d > 0,
        n1 <= n2,
    ensures
        nearest(n1, d) <= nearest(n2, d),
{
    let s1 = spacing(n1, d);
    let s2 = spacing(n2, d);
    let g1 = pow2(s1);
    let g2 = pow2(s2);
    lemma_spacing_bounds(n1, d);
    lemma_spacing_bounds(n2, d);
    lemma_pow2_pos(s1);
    lemma_pow2_pos(s2);
    if s1 > s2 {
        lemma_pow2_unfold(s1);
        if s1 - 1 > s2 {
            lemma_pow2_strictly_increases(s2, (s1 - 1) as nat);
        }
        assert(false) by (nonlinear_arith)
            requires
                LOW * (d * g1) <= n1,
                n1 <= n2,
                n2 < HIGH * (d * g2),
                g1 >= 2 * g2,
                d > 0,
        ;
    }
    assert(d * g1 > 0 && d * g2 > 0) by (nonlinear_arith)
        requires
            d > 0,
            g1 > 0,
            g2 > 0,
    ;
    if s1 == s2 {
        lemma_round_monotone(n1, n2, d * g1);
        assert(round_half_even(n1, d * g1) * g1 <= round_half_even(n2, d * g1) * g1)
            by (nonlinear_arith)
            requires
                round_half_even(n1, d * g1) <= round_half_even(n2, d * g1),
        ;
    } else {
        lemma_pow2_adds(53, s1);
        lemma2_to64_rest();
        assert(n1 <= pow2(53 + s1) * d) by (nonlinear_arith)
            requires
                n1 < HIGH * (d * g1),
                pow2(53 + s1) == HIGH * g1,
        ;
        lemma_nearest_at_most_power(n1, d, 53 + s1);
        lemma_round_at_least(n2, d * g2, LOW as nat);
        lemma_pow2_unfold(s2);
        if s1 < s2 - 1 {
            lemma_pow2_strictly_increases(s1, (s2 - 1) as nat);
        }
        assert(HIGH * g1 <= round_half_even(n2, d * g2) * g2) by (nonlinear_arith)
            requires
                LOW <= round_half_even(n2, d * g2),
                g2 >= 2 * g1,
        ;
    }
}

/// Rounding at most doubles.
pub proof fn lemma_nearest_doubles(n: nat, d: nat)
    requires
        d > 0,
    ensures
        nearest(n, d) * d <= 2 * n,
{
    let s = spacing(n, d);
    let g = pow2(s);
    let m = d * g;
    lemma_spacing_bounds(n, d);
    lemma_pow2_pos(s);
    lemma2_to64();
    assert(m > 0) by (nonlinear_arith)
        requires
            d > 0,
            g > 0,
            m == d * g,
    ;
    lemma_fundamental_div_mod(n as int, m as int);
    let q = n / m;
    let r = n % m;
    let k = round_half_even(n, m);
    assert(k * m <= 2 * n) by (nonlinear_arith)
        requires
            n == m * q + r,
            r >= 0,
            q >= 0,
            k == q || (k == q + 1 && 2 * r >= m),
            m > 0,
    ;
    assert(nearest(n, d) * d == k * m) by (nonlinear_arith)
        requires
            nearest(n, d) == k * g,
            m == d * g,
    ;
}

/// A share of no more than the whole is at most twice the width, for widths up to 2^28.
pub proof fn lemma_share_bound(value: nat, width: nat, total: nat)
    requires
        value <= total,
        total > 0,
        width <= 0x1000_0000,
    ensures
        floor(share(value, width, total)) <= 0x2000_0000,
{
    let u = unit();
    lemma_pow2_pos(1074);
    lemma2_to64();
    let v = of_int(value);
    let w = of_int(width);
    let t = of_int(total);
    lemma_of_int_positive(total);
    assert(value * u <= total * u) by (nonlinear_arith)
        requires
            value <= total,
    ;
    lemma_nearest_monotone(value * u, total * u, 1);
    lemma_pow2_adds(28, 1074);
    assert(width * u <= pow2(1102) * 1) by (nonlinear_arith)
        requires
            width <= 0x1000_0000,
            pow2(1102) == 0x1000_0000 * u,
    ;
    lemma_nearest_at_most_power(width * u, 1, 1102);
    let x = times(v, w);
    lemma_nearest_doubles(v * w, u);
    lemma_pow2_adds(29, 1074);
    assert(v * w <= t * (0x1000_0000 * u)) by (nonlinear_arith)
        requires
            v <= t,
            w <= 0x1000_0000 * u,
    ;
    assert(x * u <= pow2(1103) * t) by (nonlinear_arith)
        requires
            x * u <= 2 * (v * w),
            v * w <= t * (0x1000_0000 * u),
            pow2(1103) == 0x2000_0000 * u,
    ;
    lemma_nearest_at_most_power(x * u, t, 1103);
    lemma_multiply_divide_le(share(value, width, total) as int, u as int, 0x2000_0000);
}

/// Rounding to 53 bits changes a number by at most one part in 2^53.
pub proof fn lemma_nearest_close(n: nat, d: nat)
    requires
        d > 0,
        HIGH * d <= n,
    ensures
        HIGH * (nearest(n, d) * d) <= (HIGH + 1) * n,
        (HIGH - 1) * n <= HIGH * (nearest(n, d) * d),
{
    let s = spacing(n, d);
    let g = pow2(s);
    let m = d * g;
    lemma_spacing_bounds(n, d);
    lemma_pow2_pos(s);
    assert(m > 0) by (nonlinear_arith)
        requires
            m == d * g,
            d > 0,
            g > 0,
    ;
    lemma_fundamental_div_mod(n as int, m as int);
    let q = (n / m) as int;
    let r = (n % m) as int;
    let k = round_half_even(n, m) as int;
    let x = nearest(n, d) * d;
    assert(x == k * m) by (nonlinear_arith)
        requires
            x == (k * g) * d,
            m == d * g,
    ;
    assert(-m <= 2 * (x - n) <= m) by (nonlinear_arith)
        requires
            x == k * m,
            n == m * q + r,
            0 <= r < m,
            (k == q && 2 * r <= m) || (k == q + 1 && 2 * r >= m),
    ;
}

/// A number times a factor just above or below one, twice.
proof fn lemma_twice_above(x: nat, y: nat, z: nat, k: nat)
    requires
        HIGH * x <= (HIGH + 1) * y,
        HIGH * y <= (HIGH + k) * z,
        k <= 8,
    ensures
        HIGH * x <= (HIGH + k + 2) * z,
{
    assert(HIGH * (HIGH * x) <= (HIGH + 1) * (HIGH * y)) by (nonlinear_arith)
        requires
            HIGH * x <= (HIGH + 1) * y,
    ;
    assert((HIGH + 1) * (HIGH * y) <= (HIGH + 1) * ((HIGH + k) * z)) by (nonlinear_arith)
        requires
            HIGH * y <= (HIGH + k) * z,
    ;
    assert((HIGH + 1) * ((HIGH + k) * z) <= HIGH * ((HIGH + k + 2) * z)) by (nonlinear_arith)
        requires
            k <= 8,
            HIGH == 0x20_0000_0000_0000,
            z >= 0,
    ;
    assert(HIGH * x <= (HIGH + k + 2) * z) by (nonlinear_arith)
        requires
            HIGH * (HIGH * x) <= HIGH * ((HIGH + k + 2) * z),
            HIGH > 0,
    ;
}

proof fn lemma_twice_below(x: nat, y: nat, z: nat, k: nat)
    requires
        (HIGH - 1) * y <= HIGH * x,
        (HIGH - k) * z <= HIGH * y,
        k <= 8,
    ensures
        (HIGH - k - 1) * z <= HIGH * x,
{
    assert((HIGH - 1) * (HIGH * y) <= HIGH * (HIGH * x)) by (nonlinear_arith)
        requires
            (HIGH - 1) * y <= HIGH * x,
    ;
    assert((HIGH - 1) * ((HIGH - k) * z) <= (HIGH - 1) * (HIGH * y)) by (nonlinear_arith)
        requires
            (HIGH - k) * z <= HIGH * y,
            HIGH >= 1,
    ;
    assert(HIGH * ((HIGH - k - 1) * z) <= (HIGH - 1) * ((HIGH - k) * z)) by (nonlinear_arith)
        requires
            0 <= k <= 8,
            z >= 0,
    ;
    assert((HIGH - k - 1) * z <= HIGH * x) by (nonlinear_arith)
        requires
            HIGH * ((HIGH - k - 1) * z) <= HIGH * (HIGH * x),
            HIGH > 0,
    ;
}

/// 2^1074 is large against the numbers that are divided.
proof fn lemma_unit_large()
    ensures
        unit() >= 0x1_0000_0000_0000_0000_0000_0000_0000_0000,
{
    lemma2_to64();
    lemma2_to64_rest();
    lemma_pow2_adds(64, 64);
    assert(pow2(128) == 0x1_0000_0000_0000_0000 * 0x1_0000_0000_0000_0000);
    lemma_pow2_strictly_increases(128, 1074);
}

/// A share is what its exact value is, up to eight parts in 2^53.
pub proof fn lemma_share_close(value: nat, width: nat, total: nat)
    requires
        value <= u64::MAX,
        0 < total <= u64::MAX,
        width <= 0x1000_0000,
    ensures
        HIGH * (share(value, width, total) * total) <= (HIGH + 8) * ((value * width) * unit()),
        (HIGH - 8) * ((value * width) * unit()) <= HIGH * (share(value, width, total) * total),
{
    let u = unit();
    lemma_pow2_pos(1074);
    if width == 0 {
        lemma_share_of_nothing(value, total);
        assert((value * 0) * u == 0 && 0 * total == 0) by (nonlinear_arith);
    } else if value == 0 {
        lemma_share_of_zero(width, total);
        assert((0 * width) * u == 0 && 0 * total == 0) by (nonlinear_arith);
    } else {
        lemma_share_close_positive(value, width, total);
    }
}

/// Nothing has no share.
proof fn lemma_share_of_zero(width: nat, total: nat)
    requires
        total > 0,
    ensures
        share(0, width, total) == 0,
{
    lemma_pow2_pos(1074);
    lemma_of_int_positive(total);
    assert(0 * unit() == 0);
    lemma_nearest_zero(1);
    assert(0 * of_int(width) == 0);
    lemma_nearest_zero(unit());
    lemma_nearest_zero(of_int(total));
}

#[verifier::spinoff_prover]
proof fn lemma_share_close_positive(value: nat, width: nat, total: nat)
    requires
        0 < value <= u64::MAX,
        0 < total <= u64::MAX,
        0 < width <= 0x1000_0000,
    ensures
        HIGH * (share(value, width, total) * total) <= (HIGH + 8) * ((value * width) * unit()),
        (HIGH - 8) * ((value * width) * unit()) <= HIGH * (share(value, width, total) * total),
{
    let u = unit();
    lemma_unit_large();
    let v = of_int(value);
    let w = of_int(width);
    let t = of_int(total);
    let p = times(v, w);
    let q = over(p, t);
    let vu = value * u;
    let tu = total * u;
    let exact = (value * width) * u;
    // The whole numbers.
    assert(vu >= u && tu >= u && tu <= 0x1_0000_0000_0000_0000 * u) by (nonlinear_arith)
        requires
            vu == value * u,
            tu == total * u,
            value >= 1,
            1 <= total <= 0xffff_ffff_ffff_ffff,
            u > 0,
    ;
    lemma_nearest_close(vu, 1);
    lemma_nearest_close(tu, 1);
    assert(v * 1 == v && t * 1 == t);
    lemma_nearest_short(width, 1074);
    assert(w == width * u);
    // The product.
    let vw = v * w;
    let scaled = v * width;
    assert(vw == scaled * u) by (nonlinear_arith)
        requires
            vw == v * w,
            w == width * u,
            scaled == v * width,
    ;
    assert(2 * v >= u) by (nonlinear_arith)
        requires
            (HIGH - 1) * vu <= HIGH * v,
            vu >= u,
            HIGH == 0x20_0000_0000_0000,
    ;
    assert(2 * scaled >= u) by (nonlinear_arith)
        requires
            scaled == v * width,
            width >= 1,
            2 * v >= u,
    ;
    assert(HIGH * u <= vw) by (nonlinear_arith)
        requires
            vw == scaled * u,
            2 * scaled >= u,
            u >= 0x1_0000_0000_0000_0000_0000_0000_0000_0000,
            HIGH == 0x20_0000_0000_0000,
    ;
    lemma_nearest_close(vw, u);
    assert(HIGH * p <= (HIGH + 1) * scaled && (HIGH - 1) * scaled <= HIGH * p) by (nonlinear_arith)
        requires
            HIGH * (p * u) <= (HIGH + 1) * vw,
            (HIGH - 1) * vw <= HIGH * (p * u),
            vw == scaled * u,
            u > 0,
    ;
    assert(HIGH * scaled <= (HIGH + 1) * exact && (HIGH - 1) * exact <= HIGH * scaled)
        by (nonlinear_arith)
        requires
            HIGH * v <= (HIGH + 1) * vu,
            (HIGH - 1) * vu <= HIGH * v,
            scaled == v * width,
            vu == value * u,
            exact == (value * width) * u,
            width >= 1,
            HIGH == 0x20_0000_0000_0000,
    ;
    lemma_twice_above(p, scaled, exact, 1);
    lemma_twice_below(p, scaled, exact, 1);
    // The quotient.
    let pu = p * u;
    let eu = exact * u;
    assert(4 * p >= u) by (nonlinear_arith)
        requires
            (HIGH - 1) * scaled <= HIGH * p,
            2 * scaled >= u,
            HIGH == 0x20_0000_0000_0000,
    ;
    assert(t <= 0x2_0000_0000_0000_0000 * u) by (nonlinear_arith)
        requires
            HIGH * t <= (HIGH + 1) * tu,
            tu <= 0x1_0000_0000_0000_0000 * u,
            HIGH == 0x20_0000_0000_0000,
    ;
    assert(t > 0) by (nonlinear_arith)
        requires
            (HIGH - 1) * tu <= HIGH * t,
            tu >= u,
            u > 0,
            HIGH == 0x20_0000_0000_0000,
    ;
    assert(HIGH * t <= pu) by (nonlinear_arith)
        requires
            pu == p * u,
            4 * p >= u,
            t <= 0x2_0000_0000_0000_0000 * u,
            u >= 0x1_0000_0000_0000_0000_0000_0000_0000_0000,
            HIGH == 0x20_0000_0000_0000,
    ;
    lemma_nearest_close(pu, t);
    let qt = q * t;
    assert(HIGH * pu <= (HIGH + 3) * eu && (HIGH - 2) * eu <= HIGH * pu) by (nonlinear_arith)
        requires
            HIGH * p <= (HIGH + 3) * exact,
            (HIGH - 2) * exact <= HIGH * p,
            pu == p * u,
            eu == exact * u,
            u > 0,
    ;
    lemma_twice_above(qt, pu, eu, 3);
    lemma_twice_below(qt, pu, eu, 2);
    // The rounded divisor is replaced by the exact one.
    let qx = q * total;
    assert((HIGH - 1) * (qx * u) <= HIGH * qt && HIGH * qt <= (HIGH + 1) * (qx * u))
        by (nonlinear_arith)
        requires
            (HIGH - 1) * tu <= HIGH * t,
            HIGH * t <= (HIGH + 1) * tu,
            qt == q * t,
            qx == q * total,
            tu == total * u,
            HIGH == 0x20_0000_0000_0000,
    ;
    assert((HIGH - 1) * qx <= (HIGH + 5) * exact) by (nonlinear_arith)
        requires
            (HIGH - 1) * (qx * u) <= HIGH * qt,
            HIGH * qt <= (HIGH + 5) * eu,
            eu == exact * u,
            u > 0,
    ;
    assert((HIGH - 3) * exact <= (HIGH + 1) * qx) by (nonlinear_arith)
        requires
            HIGH * qt <= (HIGH + 1) * (qx * u),
            (HIGH - 3) * eu <= HIGH * qt,
            eu == exact * u,
            u > 0,
    ;
    assert(HIGH * qx <= (HIGH + 8) * exact) by (nonlinear_arith)
        requires
            (HIGH - 1) * qx <= (HIGH + 5) * exact,
            HIGH == 0x20_0000_0000_0000,
    ;
    assert((HIGH - 8) * exact <= HIGH * qx) by (nonlinear_arith)
        requires
            (HIGH - 3) * exact <= (HIGH + 1) * qx,
            HIGH == 0x20_0000_0000_0000,
    ;
}

/// Where nothing is rounded before the division, the whole part of a share is that of the exact
/// quotient.
pub proof fn lemma_share_exact(value: nat, width: nat, total: nat)
    requires
        value < HIGH,
        width < HIGH,
        0 < total < HIGH,
        value * width < HIGH,
    ensures
        floor(share(value, width, total)) == (value * width) / total,
{
    let u = unit();
    lemma_pow2_pos(1074);
    lemma2_to64();
    lemma_nearest_short(value, 1074);
    lemma_nearest_short(width, 1074);
    lemma_nearest_short(total, 1074);
    let c = value * width;
    lemma_nearest_short(c, 1074);
    let n1 = (value * u) * (width * u);
    assert(n1 * 1 == (c * u) * (u * 1)) by (nonlinear_arith)
        requires
            n1 == (value * u) * (width * u),
            c == value * width,
    ;
    lemma_nearest_ratio(n1, u, c * u, 1);
    let n = (c * u) * u;
    let d = total * u;
    assert(d > 0) by (nonlinear_arith)
        requires
            d == total * u,
            total > 0,
            u > 0,
    ;
    let s = spacing(n, d);
    let g = pow2(s);
    lemma_spacing_bounds(n, d);
    lemma_pow2_pos(s);
    lemma_fundamental_div_mod(c as int, total as int);
    let k = c / total;
    let r = c % total;
    if s > 1074 {
        lemma_pow2_unfold(s);
        if s - 1 > 1074 {
            lemma_pow2_strictly_increases(1074, (s - 1) as nat);
        }
        assert(false) by (nonlinear_arith)
            requires
                LOW * (d * g) <= n,
                n == (c * u) * u,
                d == total * u,
                c < HIGH,
                total >= 1,
                u > 0,
                LOW * 2 == HIGH,
                g >= 2 * u,
        ;
    }
    let h = pow2((1074 - s) as nat);
    lemma_pow2_pos((1074 - s) as nat);
    lemma_pow2_adds((1074 - s) as nat, s);
    let m = d * g;
    assert(m > 0) by (nonlinear_arith)
        requires
            m == d * g,
            d > 0,
            g > 0,
    ;
    // n / m is c * h / total, in which k * h is whole.
    assert(n == (c * h) * (u * g)) by (nonlinear_arith)
        requires
            n == (c * u) * u,
            u == h * g,
    ;
    assert(m == total * (u * g)) by (nonlinear_arith)
        requires
            m == d * g,
            d == total * u,
    ;
    assert((k * h) * m <= n) by (nonlinear_arith)
        requires
            n == (c * h) * (u * g),
            m == total * (u * g),
            c == total * k + r,
            r >= 0,
    ;
    lemma_round_at_least(n, m, k * h);
    let x = round_half_even(n, m);
    lemma_fundamental_div_mod(n as int, m as int);
    let q = n / m;
    let rest = n % m;
    if x >= (k + 1) * h {
        // The distance of n / m to (k + 1) * h is at least h / total, which is over one half.
        assert(2 * (total - r) * h > total) by {
            if s > 0 {
                assert(LOW * total <= c * h) by (nonlinear_arith)
                    requires
                        LOW * m <= n,
                        n == (c * h) * (u * g),
                        m == total * (u * g),
                        u > 0,
                        g > 0,
                ;
                assert(2 * h > total) by (nonlinear_arith)
                    requires
                        LOW * total <= c * h,
                        c < HIGH,
                        HIGH == 2 * LOW,
                        total > 0,
                        h > 0,
                ;
            } else {
                lemma2_to64_rest();
                lemma_pow2_strictly_increases(53, 1074);
            }
            assert(2 * (total - r) * h > total) by (nonlinear_arith)
                requires
                    2 * h > total,
                    r < total,
            ;
        }
        // In units of u * g: ((k + 1) * h) * total - c * h == (total - r) * h.
        let f = u * g;
        assert(f > 0) by (nonlinear_arith)
            requires
                f == u * g,
                u > 0,
                g > 0,
        ;
        assert(2 * (((k + 1) * h) * m - n) > m) by (nonlinear_arith)
            requires
                n == (c * h) * f,
                m == total * f,
                c == total * k + r,
                2 * (total - r) * h > total,
                f > 0,
        ;
        let w = (k + 1) * h;
        assert(q + 1 >= w);
        assert(2 * rest >= m ==> q + 1 < w) by (nonlinear_arith)
            requires
                n == m * q + rest,
                rest < m,
                2 * (w * m - n) > m,
                m > 0,
        ;
        assert(q < w) by (nonlinear_arith)
            requires
                n == m * q + rest,
                rest >= 0,
                2 * (w * m - n) > m,
                m > 0,
        ;
        assert(false);
    }
    let a = x * g;
    assert(k * u <= a < (k + 1) * u) by (nonlinear_arith)
        requires
            a == x * g,
            k * h <= x,
            x < (k + 1) * h,
            u == h * g,
            g > 0,
    ;
    let rest_units = a - k * u;
    assert((k + 1) * u == k * u + u) by (nonlinear_arith);
    lemma_fundamental_div_mod_converse_div(a as int, u as int, k as int, rest_units);
}

/// Of no width there is no share.
pub proof fn lemma_share_of_nothing(value: nat, total: nat)
    requires
        total > 0,
    ensures
        share(value, 0, total) == 0,
        floor(share(value, 0, total)) == 0,
{
    lemma_pow2_pos(1074);
    lemma_of_int_positive(total);
    assert(0 * unit() == 0);
    lemma_nearest_zero(1);
    assert(of_int(value) * 0 == 0);
    lemma_nearest_zero(unit());
    lemma_nearest_zero(of_int(total));
    lemma_basic_div(0, unit() as int);
}

/// The nearest count depends on the quotient alone.
pub proof fn lemma_nearest_ratio(n1: nat, d1: nat, n2: nat, d2: nat)
    requires
        d1 > 0,
        d2 > 0,
        n1 * d2 == n2 * d1,
    ensures
        nearest(n1, d1) == nearest(n2, d2),
{
    let s = spacing(n2, d2);
    let g = pow2(s);
    lemma_spacing_bounds(n2, d2);
    lemma_pow2_pos(s);
    assert(n1 < HIGH * (d1 * g)) by (nonlinear_arith)
        requires
            n1 * d2 == n2 * d1,
            n2 < HIGH * (d2 * g),
            d1 > 0,
            d2 > 0,
    ;
    if s > 0 {
        assert(LOW * (d1 * g) <= n1) by (nonlinear_arith)
            requires
                n1 * d2 == n2 * d1,
                LOW * (d2 * g) <= n2,
                d1 > 0,
                d2 > 0,
        ;
    }
    lemma_spacing(n1, d1, s);
    assert(d1 * g > 0 && d2 * g > 0) by (nonlinear_arith)
        requires
            d1 > 0,
            d2 > 0,
            g > 0,
    ;
    assert(n1 * (d2 * g) == n2 * (d1 * g)) by (nonlinear_arith)
        requires
            n1 * d2 == n2 * d1,
    ;
    lemma_round_ratio(n1, d1 * g, n2, d2 * g);
}

/// The share that `value` of `total` has in `width`.
pub fn share_of(value: u64, width: u64, total: u64) -> (r: Binary64)
    requires
        total > 0,
    ensures
        r@ == share(value as nat, width as nat, total as nat),
{
    if value == 0 || width == 0 {
        proof {
            lemma_pow2_pos(1074);
            lemma_of_int_positive(total as nat);
            assert(0 * unit() == 0);
            lemma_nearest_zero(1);
            let v = of_int(value as nat);
            let w = of_int(width as nat);
            assert(v * w == 0) by (nonlinear_arith)
                requires
                    v == 0 || w == 0,
            ;
            lemma_nearest_zero(unit());
            lemma_nearest_zero(of_int(total as nat));
        }
        return Binary64::zero();
    }
    Binary64::of_u64(value).mul(Binary64::of_u64(width)).div(Binary64::of_u64(total))
}

/// `width` drawn in by the quotient of `part` and `all`, rounded to a whole number.
pub fn stretch_of(part: u64, all: u64, width: u64) -> (r: u64)
    requires
        part > 0,
        all > 0,
        width > 0,
    ensures
        r == saturated(round_half_up(stretch(part as nat, all as nat, width as nat))),
{
    Binary64::of_u64(part).div(Binary64::of_u64(all)).mul(Binary64::of_u64(width)).round_half_up()
}

/// `m` times 2^`e`, or the greatest `u64` where that is less.
fn whole(m: u64, e: u64) -> (r: u64)
    requires
        m < HIGH,
        e > 0 ==> LOW <= m,
    ensures
        r == saturated(m as nat * pow2(e as nat)),
{
    if e >= 12 {
        proof {
            lemma2_to64();
            if e > 12 {
                lemma_pow2_strictly_increases(12, e as nat);
            }
            assert(m * pow2(e as nat) >= LOW * 4096) by (nonlinear_arith)
                requires
                    m >= LOW,
                    pow2(e as nat) >= 4096,
            ;
        }
        return u64::MAX;
    }
    let g: u128 = power(e);
    proof {
        lemma2_to64();
        lemma_pow2_strictly_increases(e as nat, 12);
        assert(m * g < HIGH * 4096) by (nonlinear_arith)
            requires
                m < HIGH,
                0 < g < 4096,
        ;
    }
    let w: u128 = m as u128 * g;
    if w <= u64::MAX as u128 {
        w as u64
    } else {
        u64::MAX
    }
}

proof fn lemma_order(m1: nat, s1: nat, m2: nat, s2: nat)
    requires
        m1 < HIGH,
        LOW <= m2,
        s1 < s2,
    ensures
        m1 * pow2(s1) < m2 * pow2(s2),
{
    let k = (s2 - s1) as nat;
    lemma_pow2_adds(s1, k);
    lemma_pow2_pos(s1);
    lemma_pow2_unfold(k);
    lemma_pow2_pos((k - 1) as nat);
    let g = pow2(s1);
    let h = pow2(k);
    assert(m1 < m2 * h) by (nonlinear_arith)
        requires
            m1 < HIGH,
            LOW <= m2,
            h >= 2,
    ;
    assert(m1 * g < m2 * (g * h)) by (nonlinear_arith)
        requires
            m1 < m2 * h,
            g > 0,
    ;
}

/// A number whose significand counts ones or more is whole.
proof fn lemma_whole(m: nat, e: nat)
    ensures
        m * pow2(e + 1074) == (m * pow2(e)) * unit(),
        floor(m * pow2(e + 1074)) == m * pow2(e),
        fraction(m * pow2(e + 1074)) == 0,
        round_half_up(m * pow2(e + 1074)) == m * pow2(e),
        round_half_even(m * pow2(e + 1074), unit()) == m * pow2(e),
{
    lemma_pow2_adds(e, 1074);
    lemma_pow2_pos(1074);
    let w = (m * pow2(e)) as int;
    let u = unit() as int;
    let a = m * pow2(e + 1074);
    assert(a == w * u) by (nonlinear_arith)
        requires
            a == m * pow2(e + 1074),
            pow2(e + 1074) == pow2(e) * u,
            w == m * pow2(e),
    ;
    lemma_fundamental_div_mod_converse_div(a as int, u, w, 0);
    lemma_fundamental_div_mod_converse_mod(a as int, u, w, 0);
    assert(2 * a + u == w * (2 * u) + u) by (nonlinear_arith)
        requires
            a == w * u,
    ;
    lemma_fundamental_div_mod_converse_div(2 * a + u, 2 * u, w, u);
}

/// The parts of a number whose significand counts 2^-`t`.
proof fn lemma_parts(m: nat, s: nat, t: nat)
    requires
        s + t == 1074,
    ensures
        floor(m * pow2(s)) == m / pow2(t),
        fraction(m * pow2(s)) == (m % pow2(t)) * pow2(s),
        round_half_up(m * pow2(s)) == (2 * m + pow2(t)) / (2 * pow2(t)),
        round_half_even(m * pow2(s), unit()) == round_half_even(m, pow2(t)),
{
    lemma_pow2_adds(s, t);
    lemma_pow2_pos(s);
    lemma_pow2_pos(t);
    lemma_pow2_pos(1074);
    let g = pow2(s) as int;
    let h = pow2(t) as int;
    assert(m * g == g * m) by (nonlinear_arith);
    lemma_div_multiples_vanish_quotient(g, m as int, h);
    lemma_truncate_middle(m as int, g, h);
    assert(g * (m as int % h) == (m as int % h) * g) by (nonlinear_arith);
    assert(g * (2 * m + h) == 2 * (m * g) + g * h) by (nonlinear_arith);
    assert(g * (2 * h) == 2 * (g * h)) by (nonlinear_arith);
    lemma_div_multiples_vanish_quotient(g, 2 * m + h, 2 * h);
    assert((m * pow2(s)) * pow2(t) == m * unit()) by (nonlinear_arith)
        requires
            unit() == pow2(s) * pow2(t),
    ;
    lemma_round_ratio(m * pow2(s), unit(), m, pow2(t));
}

proof fn lemma_small(m: nat, t: nat)
    requires
        m < HIGH,
        t >= 64,
    ensures
        m / pow2(t) == 0,
        m % pow2(t) == m,
        4 * m < pow2(t),
{
    lemma2_to64_rest();
    if t > 64 {
        lemma_pow2_strictly_increases(64, t);
    }
    lemma_basic_div(m as int, pow2(t) as int);
    lemma_small_mod(m, pow2(t));
}

proof fn lemma_small_rounds(m: nat, t: nat)
    requires
        4 * m < pow2(t),
    ensures
        (2 * m + pow2(t)) / (2 * pow2(t)) == 0,
        round_half_even(m, pow2(t)) == 0,
{
    lemma_basic_div((2 * m + pow2(t)) as int, 2 * pow2(t) as int);
    lemma_basic_div(m as int, pow2(t) as int);
    lemma_small_mod(m, pow2(t));
}

proof fn lemma_hundred()
    ensures
        100 * unit() == 0x19_0000_0000_0000 * pow2(1028),
{
    lemma_pow2_adds(46, 1028);
    lemma2_to64_rest();
    assert(100 * (pow2(46) * pow2(1028)) == 0x19_0000_0000_0000 * pow2(1028)) by (nonlinear_arith)
        requires
            pow2(46) == 0x4000_0000_0000,
    ;
}

/// What is far below the spacing at a hundred leaves a hundred as it is.
proof fn lemma_hundred_less_little(m: nat, s: nat)
    requires
        m < HIGH,
        s <= 960,
    ensures
        minus(100 * unit(), m * pow2(s)) == 100 * unit(),
{
    lemma_hundred();
    let g = pow2(1028);
    let h: nat = 0x19_0000_0000_0000;
    let b = m * pow2(s);
    lemma_pow2_pos(s);
    lemma_pow2_adds(68, s);
    lemma_pow2_adds(64, 4);
    lemma2_to64();
    lemma2_to64_rest();
    if s < 960 {
        lemma_pow2_strictly_increases(68 + s, 1028);
    }
    assert(2 * b < g) by (nonlinear_arith)
        requires
            b == m * pow2(s),
            m < HIGH,
            pow2(68 + s) == pow2(68) * pow2(s),
            pow2(68) == pow2(64) * pow2(4),
            pow2(64) == 0x1_0000_0000_0000_0000,
            pow2(4) == 16,
            pow2(68 + s) <= g,
            pow2(s) > 0,
    ;
    assert(b >= 0) by (nonlinear_arith)
        requires
            b == m * pow2(s),
    ;
    let n = (h * g - b) as nat;
    lemma_pow2_pos(1028);
    lemma_spacing(n, 1, 1028);
    if b == 0 {
        lemma_fundamental_div_mod_converse_div(n as int, g as int, h as int, 0);
        lemma_fundamental_div_mod_converse_mod(n as int, g as int, h as int, 0);
    } else {
        assert(h * g - b == (h - 1) * g + (g - b)) by (nonlinear_arith);
        lemma_fundamental_div_mod_converse_div(n as int, g as int, h - 1, g - b);
        lemma_fundamental_div_mod_converse_mod(n as int, g as int, h - 1, g - b);
    }
}

} // verus!
