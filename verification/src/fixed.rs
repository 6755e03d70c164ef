//! Fixed-point decimal arithmetic for the money path.
//!
//! Every price, size and value in the library is a [`Dec`]: a signed count of
//! atoms, each atom being 10^-9 of a unit. Multiplication and division
//! truncate toward zero at atom granularity; tick alignment rounds half to
//! even, as the exchange's own rounding does.

use vstd::prelude::*;

verus! {

/// Number of atoms in one unit (scale 10^-9).
pub const DEC_SCALE: i128 = 1_000_000_000;

/// Upper bound on the magnitude of any money-like amount the library handles:
/// 10^15 units. Keeps every intermediate product inside 128 bits.
pub const AMOUNT_MAX: i128 = 1_000_000_000_000_000_000_000_000;

/// Truncated division toward zero, defined for positive divisors.
pub open spec fn tdiv(n: int, d: int) -> int {
    if n >= 0 {
        n / d
    } else {
        -((-n) / d)
    }
}

/// Round-half-to-even division for non-negative dividends and positive divisors.
pub open spec fn rhe_nonneg(n: int, d: int) -> int {
    let q: int = n / d;
    let r: int = n % d;
    if 2 * r < d {
        q
    } else if 2 * r > d {
        q + 1
    } else if q % 2 == 0 {
        q
    } else {
        q + 1
    }
}

/// Round-half-to-even division, extended to negative dividends by symmetry.
pub open spec fn rhe(n: int, d: int) -> int {
    if n >= 0 {
        rhe_nonneg(n, d)
    } else {
        -rhe_nonneg(-n, d)
    }
}

/// The value of a product of two fixed-point numbers, in atoms.
pub open spec fn dec_mul(a: int, b: int) -> int {
    tdiv(a * b, DEC_SCALE as int)
}

/// The value of a quotient of two fixed-point numbers, in atoms;
/// only used with positive divisors.
pub open spec fn dec_div(a: int, b: int) -> int {
    tdiv(a * (DEC_SCALE as int), b)
}

/// Price aligned to a tick: the nearest multiple of `tick`, ties to the even
/// multiple. A zero tick leaves the price unchanged.
pub open spec fn align_spec(p: int, tick: int) -> int {
    if tick == 0 {
        p
    } else {
        rhe(p, tick) * tick
    }
}

/// Atoms per step of a decimal scale: `dec_unit(s) == 10^(9-s)` for `s <= 9`.
pub open spec fn dec_unit(scale: u32) -> int {
    if scale == 0 {
        1_000_000_000
    } else if scale == 1 {
        100_000_000
    } else if scale == 2 {
        10_000_000
    } else if scale == 3 {
        1_000_000
    } else if scale == 4 {
        100_000
    } else if scale == 5 {
        10_000
    } else if scale == 6 {
        1_000
    } else if scale == 7 {
        100
    } else if scale == 8 {
        10
    } else {
        1
    }
}

/// The [`Dec`] whose atom count is `x`, for ghost construction of values
/// known to be in range.
pub open spec fn dec_of(x: int) -> Dec {
    Dec { atoms: x as i128 }
}

/// A fixed-point decimal: `atoms` times 10^-9 units.
#[derive(Clone, Copy, Debug, PartialEq, Eq, Structural)]
pub struct Dec {
    pub atoms: i128,
}

impl View for Dec {
    type V = int;

    open spec fn view(&self) -> int {
        self.atoms as int
    }
}

/// Division and remainder agree with their Euclidean definitions; the
/// remainder of a positive divisor lies in `[0, d)`.
proof fn lemma_div_mod_basics(n: int, d: int)
    requires
        d > 0,
    ensures
        n == d * (n / d) + n % d,
        0 <= n % d < d,
{
    vstd::arithmetic::div_mod::lemma_fundamental_div_mod(n, d);
    vstd::arithmetic::div_mod::lemma_mod_division_less_than_divisor(n, d);
    vstd::arithmetic::div_mod::lemma_mod_bound(n, d);
}

/// A non-negative dividend keeps `rhe_nonneg` within `[0, n]`.
pub proof fn lemma_rhe_nonneg_bounds(n: int, d: int)
    requires
        n >= 0,
        d > 0,
    ensures
        0 <= rhe_nonneg(n, d) <= n,
{
    lemma_div_mod_basics(n, d);
    let q: int = n / d;
    let r: int = n % d;
    vstd::arithmetic::div_mod::lemma_div_pos_is_pos(n, d);
    if 2 * r >= d {
        // In this branch r >= 1, so q * d + 1 <= n and hence q + 1 <= n.
        assert(q + 1 <= n) by (nonlinear_arith)
            requires
                n == d * q + r,
                r >= 1,
                q >= 0,
                d >= 1,
        ;
    } else {
        vstd::arithmetic::div_mod::lemma_div_nonincreasing(n, d);
    }
}

/// `rhe` keeps the magnitude of the quotient within the dividend's magnitude.
pub proof fn lemma_rhe_bounds(n: int, d: int)
    requires
        d > 0,
    ensures
        -n <= rhe(n, d) <= n || n <= rhe(n, d) <= -n,
        rhe(n, d) <= vstd::math::abs(n),
        -vstd::math::abs(n) <= rhe(n, d),
{
    if n >= 0 {
        lemma_rhe_nonneg_bounds(n, d);
    } else {
        lemma_rhe_nonneg_bounds(-n, d);
    }
}

/// Truncated division keeps the quotient's magnitude within the dividend's,
/// and keeps its sign.
pub proof fn lemma_tdiv_bounds(n: int, d: int)
    requires
        d > 0,
    ensures
        vstd::math::abs(tdiv(n, d)) <= vstd::math::abs(n),
        n >= 0 ==> 0 <= tdiv(n, d) <= n,
        n <= 0 ==> n <= tdiv(n, d) <= 0,
{
    if n >= 0 {
        vstd::arithmetic::div_mod::lemma_div_pos_is_pos(n, d);
        vstd::arithmetic::div_mod::lemma_div_nonincreasing(n, d);
    } else {
        vstd::arithmetic::div_mod::lemma_div_pos_is_pos(-n, d);
        vstd::arithmetic::div_mod::lemma_div_nonincreasing(-n, d);
    }
}

/// Truncated division is monotone in the dividend.
pub proof fn lemma_tdiv_mono(a: int, b: int, d: int)
    requires
        a <= b,
        d > 0,
    ensures
        tdiv(a, d) <= tdiv(b, d),
{
    if a >= 0 {
        vstd::arithmetic::div_mod::lemma_div_is_ordered(a, b, d);
    } else if b < 0 {
        vstd::arithmetic::div_mod::lemma_div_is_ordered(-b, -a, d);
    } else {
        lemma_tdiv_bounds(a, d);
        lemma_tdiv_bounds(b, d);
    }
}

/// Round-half-to-even lands within half a divisor of the exact quotient:
/// `|rhe(n, d) * d - n| <= d / 2`, stated without division.
pub proof fn lemma_rhe_close(n: int, d: int)
    requires
        d > 0,
    ensures
        2 * vstd::math::abs(rhe(n, d) * d - n) <= d,
{
    if n >= 0 {
        lemma_rhe_close_nonneg(n, d);
    } else {
        lemma_rhe_close_nonneg(-n, d);
        assert(rhe(n, d) * d == -(rhe_nonneg(-n, d) * d)) by (nonlinear_arith)
            requires
                rhe(n, d) == -rhe_nonneg(-n, d),
        ;
    }
}

proof fn lemma_rhe_close_nonneg(n: int, d: int)
    requires
        n >= 0,
        d > 0,
    ensures
        2 * vstd::math::abs(rhe_nonneg(n, d) * d - n) <= d,
{
    lemma_div_mod_basics(n, d);
    let q: int = n / d;
    let r: int = n % d;
    assert((q + 1) * d == q * d + d) by (nonlinear_arith);
    assert(q * d == d * q) by (nonlinear_arith);
}

/// Bound a product from bounds on its factors.
pub proof fn lemma_mul_le(a: int, b: int, am: int, bm: int)
    requires
        vstd::math::abs(a) <= am,
        vstd::math::abs(b) <= bm,
    ensures
        -(am * bm) <= a * b <= am * bm,
        vstd::math::abs(a * b) <= am * bm,
{
    assert(-(am * bm) <= a * b <= am * bm) by (nonlinear_arith)
        requires
            -am <= a <= am,
            -bm <= b <= bm,
            0 <= am,
            0 <= bm,
    ;
}

/// A dividend of magnitude at most `m * d` yields a quotient of magnitude at
/// most `m`.
pub proof fn lemma_tdiv_quotient_bound(n: int, d: int, m: int)
    requires
        d > 0,
        m >= 0,
        vstd::math::abs(n) <= m * d,
    ensures
        -m <= tdiv(n, d) <= m,
{
    vstd::arithmetic::div_mod::lemma_div_multiples_vanish(m, d);
    if n >= 0 {
        vstd::arithmetic::div_mod::lemma_div_is_ordered(n, m * d, d);
        vstd::arithmetic::div_mod::lemma_div_pos_is_pos(n, d);
    } else {
        vstd::arithmetic::div_mod::lemma_div_is_ordered(-n, m * d, d);
        vstd::arithmetic::div_mod::lemma_div_pos_is_pos(-n, d);
    }
}

/// Dividing an exact multiple recovers the factor.
pub proof fn lemma_tdiv_exact(x: int, d: int)
    requires
        d > 0,
    ensures
        tdiv(x * d, d) == x,
{
    if x >= 0 {
        assert(x * d >= 0 && x * d == d * x) by (nonlinear_arith)
            requires
                x >= 0,
                d > 0,
        ;
        vstd::arithmetic::div_mod::lemma_div_multiples_vanish(x, d);
        assert((x * d) / d == (d * x) / d);
    } else {
        assert(x * d < 0 && -(x * d) == d * (-x)) by (nonlinear_arith)
            requires
                x < 0,
                d > 0,
        ;
        vstd::arithmetic::div_mod::lemma_div_multiples_vanish(-x, d);
        assert((-(x * d)) / d == (d * (-x)) / d);
    }
}

/// Multiplying a non-negative value by a factor in `[0, 1]` keeps it within
/// `[0, value]`.
pub proof fn lemma_dec_mul_unit(a: int, b: int)
    requires
        a >= 0,
        0 <= b <= DEC_SCALE as int,
    ensures
        0 <= dec_mul(a, b) <= a,
{
    assert(0 <= a * b <= a * (DEC_SCALE as int)) by (nonlinear_arith)
        requires
            a >= 0,
            0 <= b <= DEC_SCALE as int,
    ;
    lemma_tdiv_quotient_bound(a * b, DEC_SCALE as int, a);
}

/// Fixed-point multiplication is monotone in its left factor when the right
/// factor is non-negative.
pub proof fn lemma_dec_mul_mono_left(a1: int, a2: int, b: int)
    requires
        a1 <= a2,
        b >= 0,
    ensures
        dec_mul(a1, b) <= dec_mul(a2, b),
{
    assert(a1 * b <= a2 * b) by (nonlinear_arith)
        requires
            a1 <= a2,
            b >= 0,
    ;
    lemma_tdiv_mono(a1 * b, a2 * b, DEC_SCALE as int);
}

/// Fixed-point division is monotone in the dividend.
pub proof fn lemma_dec_div_mono(a1: int, a2: int, b: int)
    requires
        a1 <= a2,
        b > 0,
    ensures
        dec_div(a1, b) <= dec_div(a2, b),
{
    assert(a1 * (DEC_SCALE as int) <= a2 * (DEC_SCALE as int)) by (nonlinear_arith)
        requires
            a1 <= a2,
    ;
    lemma_tdiv_mono(a1 * (DEC_SCALE as int), a2 * (DEC_SCALE as int), b);
}

/// A quotient of a value in `[0, b]` by `b` lies in `[0, 1]`, and `b / b == 1`.
pub proof fn lemma_dec_div_unit(a: int, b: int)
    requires
        0 <= a <= b,
        b > 0,
    ensures
        0 <= dec_div(a, b) <= DEC_SCALE as int,
        a == b ==> dec_div(a, b) == DEC_SCALE as int,
{
    assert(a * (DEC_SCALE as int) <= (DEC_SCALE as int) * b) by (nonlinear_arith)
        requires
            0 <= a <= b,
    ;
    lemma_tdiv_quotient_bound(a * (DEC_SCALE as int), b, DEC_SCALE as int);
    lemma_tdiv_bounds(a * (DEC_SCALE as int), b);
    assert(a * (DEC_SCALE as int) >= 0) by (nonlinear_arith)
        requires
            a >= 0,
    ;
    if a == b {
        lemma_tdiv_exact(DEC_SCALE as int, b);
        assert(a * (DEC_SCALE as int) == (DEC_SCALE as int) * b) by (nonlinear_arith)
            requires
                a == b,
        ;
    }
}

/// For non-negative dividends, truncated division is superadditive: rounding
/// two parts separately loses at least as much as rounding their sum.
pub proof fn lemma_tdiv_superadd(x: int, y: int, d: int)
    requires
        x >= 0,
        y >= 0,
        d > 0,
    ensures
        tdiv(x, d) + tdiv(y, d) <= tdiv(x + y, d),
{
    lemma_div_mod_basics(x, d);
    lemma_div_mod_basics(y, d);
    let qx: int = x / d;
    let qy: int = y / d;
    assert((qx + qy) * d <= x + y) by (nonlinear_arith)
        requires
            x == d * qx + x % d,
            y == d * qy + y % d,
            x % d >= 0,
            y % d >= 0,
    ;
    vstd::arithmetic::div_mod::lemma_div_multiples_vanish(qx + qy, d);
    vstd::arithmetic::div_mod::lemma_div_is_ordered((qx + qy) * d, x + y, d);
    assert((qx + qy) * d == d * (qx + qy)) by (nonlinear_arith);
    vstd::arithmetic::div_mod::lemma_div_pos_is_pos(x, d);
    vstd::arithmetic::div_mod::lemma_div_pos_is_pos(y, d);
}

/// Fixed-point multiplication by a non-negative value is monotone in its
/// right factor.
pub proof fn lemma_dec_mul_mono_right(a: int, b1: int, b2: int)
    requires
        a >= 0,
        b1 <= b2,
    ensures
        dec_mul(a, b1) <= dec_mul(a, b2),
{
    assert(a * b1 <= a * b2) by (nonlinear_arith)
        requires
            a >= 0,
            b1 <= b2,
    ;
    lemma_tdiv_mono(a * b1, a * b2, DEC_SCALE as int);
}

/// The aligned value is an exact multiple of the divisor.
pub proof fn lemma_rhe_multiple(n: int, d: int)
    requires
        d > 0,
    ensures
        (rhe(n, d) * d) % d == 0,
{
    vstd::arithmetic::div_mod::lemma_mod_multiples_basic(rhe(n, d), d);
}

/// Magnitude of a signed 128-bit integer, as an unsigned one.
fn abs_u128(n: i128) -> (r: u128)
    requires
        n > i128::MIN,
    ensures
        r as int == vstd::math::abs(n as int),
{
    if n >= 0 {
        n as u128
    } else {
        (-n) as u128
    }
}

/// Round-half-to-even division of unsigned 128-bit integers.
fn rhe_u128(n: u128, d: u128) -> (q: u128)
    requires
        0 < d <= i128::MAX as u128,
    ensures
        q as int == rhe_nonneg(n as int, d as int),
{
    proof {
        lemma_div_mod_basics(n as int, d as int);
        lemma_rhe_nonneg_bounds(n as int, d as int);
    }
    let q0: u128 = n / d;
    let r: u128 = n % d;
    if 2 * r < d {
        q0
    } else if 2 * r > d || q0 % 2 == 1 {
        q0 + 1
    } else {
        q0
    }
}

/// Truncated division toward zero of signed 128-bit integers.
fn tdiv_i128(n: i128, d: i128) -> (q: i128)
    requires
        d > 0,
        n > i128::MIN,
    ensures
        q as int == tdiv(n as int, d as int),
{
    proof {
        lemma_tdiv_bounds(n as int, d as int);
    }
    let nu: u128 = abs_u128(n);
    let du: u128 = d as u128;
    let qu: u128 = nu / du;
    if n >= 0 {
        qu as i128
    } else {
        -(qu as i128)
    }
}

/// Round-half-to-even division of signed 128-bit integers.
pub(crate) fn rhe_i128(n: i128, d: i128) -> (q: i128)
    requires
        d > 0,
        n > i128::MIN,
    ensures
        q as int == rhe(n as int, d as int),
{
    proof {
        lemma_rhe_bounds(n as int, d as int);
    }
    let nu: u128 = abs_u128(n);
    let qu: u128 = rhe_u128(nu, d as u128);
    if n >= 0 {
        qu as i128
    } else {
        -(qu as i128)
    }
}

impl Dec {
    /// The zero value.
    pub fn zero() -> (r: Dec)
        ensures
            r@ == 0,
    {
        Dec { atoms: 0 }
    }

    /// The value one.
    pub fn one() -> (r: Dec)
        ensures
            r@ == DEC_SCALE as int,
    {
        Dec { atoms: DEC_SCALE }
    }

    /// Build a value from a raw atom count.
    pub fn from_atoms(atoms: i128) -> (r: Dec)
        ensures
            r@ == atoms as int,
    {
        Dec { atoms }
    }

    /// `num` scaled down by `10^scale`: the decimal `num * 10^-scale`.
    pub fn new(num: i64, scale: u32) -> (r: Dec)
        requires
            scale <= 9,
        ensures
            r@ == num as int * dec_unit(scale),
    {
        let unit: i128 = if scale == 0 {
            1_000_000_000
        } else if scale == 1 {
            100_000_000
        } else if scale == 2 {
            10_000_000
        } else if scale == 3 {
            1_000_000
        } else if scale == 4 {
            100_000
        } else if scale == 5 {
            10_000
        } else if scale == 6 {
            1_000
        } else if scale == 7 {
            100
        } else if scale == 8 {
            10
        } else {
            1
        };
        Dec { atoms: (num as i128) * unit }
    }

    /// A whole number of units.
    pub fn from_int(num: i64) -> (r: Dec)
        ensures
            r@ == num as int * (DEC_SCALE as int),
    {
        Dec { atoms: (num as i128) * DEC_SCALE }
    }

    /// Sum of two values.
    pub fn add(self, rhs: Dec) -> (r: Dec)
        requires
            i128::MIN <= self@ + rhs@ <= i128::MAX,
        ensures
            r@ == self@ + rhs@,
    {
        Dec { atoms: self.atoms + rhs.atoms }
    }

    /// Difference of two values.
    pub fn sub(self, rhs: Dec) -> (r: Dec)
        requires
            i128::MIN <= self@ - rhs@ <= i128::MAX,
        ensures
            r@ == self@ - rhs@,
    {
        Dec { atoms: self.atoms - rhs.atoms }
    }

    /// Negation.
    pub fn neg(self) -> (r: Dec)
        requires
            self@ > i128::MIN,
        ensures
            r@ == -self@,
    {
        Dec { atoms: -self.atoms }
    }

    /// Absolute value.
    pub fn abs(self) -> (r: Dec)
        requires
            self@ > i128::MIN,
        ensures
            r@ == vstd::math::abs(self@),
    {
        if self.atoms >= 0 {
            self
        } else {
            Dec { atoms: -self.atoms }
        }
    }

    /// Product, truncated toward zero at atom granularity.
    pub fn mul(self, rhs: Dec) -> (r: Dec)
        requires
            -(i128::MAX as int) <= self@ * rhs@ <= i128::MAX as int,
        ensures
            r@ == dec_mul(self@, rhs@),
    {
        let prod: i128 = self.atoms * rhs.atoms;
        Dec { atoms: tdiv_i128(prod, DEC_SCALE) }
    }

    /// Quotient by a positive divisor, truncated toward zero at atom
    /// granularity.
    pub fn div(self, rhs: Dec) -> (r: Dec)
        requires
            rhs@ > 0,
            -(i128::MAX as int) <= self@ * (DEC_SCALE as int) <= i128::MAX as int,
        ensures
            r@ == dec_div(self@, rhs@),
    {
        let scaled: i128 = self.atoms * DEC_SCALE;
        Dec { atoms: tdiv_i128(scaled, rhs.atoms) }
    }

    /// The smaller of two values.
    pub fn min(self, rhs: Dec) -> (r: Dec)
        ensures
            r@ == if self@ <= rhs@ {
                self@
            } else {
                rhs@
            },
    {
        if self.atoms <= rhs.atoms {
            self
        } else {
            rhs
        }
    }

    /// The larger of two values.
    pub fn max(self, rhs: Dec) -> (r: Dec)
        ensures
            r@ == if self@ >= rhs@ {
                self@
            } else {
                rhs@
            },
    {
        if self.atoms >= rhs.atoms {
            self
        } else {
            rhs
        }
    }

    /// Whether the value is exactly zero.
    pub fn is_zero(&self) -> (r: bool)
        ensures
            r == (self@ == 0),
    {
        self.atoms == 0
    }

    /// Strictly less than.
    pub fn lt(&self, rhs: &Dec) -> (r: bool)
        ensures
            r == (self@ < rhs@),
    {
        self.atoms < rhs.atoms
    }

    /// Less than or equal.
    pub fn le(&self, rhs: &Dec) -> (r: bool)
        ensures
            r == (self@ <= rhs@),
    {
        self.atoms <= rhs.atoms
    }

    /// Strictly greater than.
    pub fn gt(&self, rhs: &Dec) -> (r: bool)
        ensures
            r == (self@ > rhs@),
    {
        self.atoms > rhs.atoms
    }

    /// Greater than or equal.
    pub fn ge(&self, rhs: &Dec) -> (r: bool)
        ensures
            r == (self@ >= rhs@),
    {
        self.atoms >= rhs.atoms
    }

    /// Round to a whole number of units, ties to even.
    pub fn round(self) -> (r: Dec)
        requires
            -(i128::MAX as int) + (DEC_SCALE as int) <= self@ <= (i128::MAX as int) - (
            DEC_SCALE as int),
        ensures
            r@ == align_spec(self@, DEC_SCALE as int),
    {
        proof {
            lemma_rhe_close(self@, DEC_SCALE as int);
        }
        let q: i128 = rhe_i128(self.atoms, DEC_SCALE);
        Dec { atoms: q * DEC_SCALE }
    }
}

} // verus!
