//! Fixed-point numbers with six decimal places.
//!
//! Every fractional quantity of the library (usage, charge, temperature,
//! literals of the rule language) is a [`Fixed`]: a signed count of
//! millionths. Sums and differences are exact; products and quotients are
//! rounded to the nearest millionth, halves away from zero. An operation whose
//! result cannot be stored fails instead of wrapping.

use vstd::prelude::*;

verus! {

/// The number of millionths in one whole unit.
pub const SCALE: i64 = 1_000_000;

/// `n / d` rounded to the nearest integer, halves away from zero (`d > 0`).
pub open spec fn round_div(n: int, d: int) -> int {
    if n >= 0 {
        (n + d / 2) / d
    } else {
        -((-n + d / 2) / d)
    }
}

/// `true` when `v` millionths can be stored in a [`Fixed`].
pub open spec fn representable(v: int) -> bool {
    i64::MIN <= v <= i64::MAX
}

/// The product of two quantities given in millionths, in millionths.
pub open spec fn product(a: int, b: int) -> int {
    round_div(a * b, SCALE as int)
}

/// The quotient of two quantities given in millionths, in millionths
/// (`b != 0`).
pub open spec fn quotient(a: int, b: int) -> int {
    if b > 0 {
        round_div(a * SCALE, b)
    } else {
        round_div(-(a * SCALE), -b)
    }
}

/// `a` raised to the whole power `n` by repeated squaring, every product
/// rounded; `None` as soon as a product cannot be stored.
pub open spec fn power(a: int, n: nat) -> Option<int>
    decreases n,
{
    if n == 0 {
        Some(SCALE as int)
    } else {
        match power(a, n / 2) {
            None => None,
            Some(half) => {
                let square = product(half, half);
                if !representable(square) {
                    None
                } else if n % 2 == 0 {
                    Some(square)
                } else if representable(product(square, a)) {
                    Some(product(square, a))
                } else {
                    None
                }
            },
        }
    }
}

/// Why an arithmetic operation produced no number.
#[derive(Clone, Copy, Debug, PartialEq, Eq, Structural)]
pub enum ArithmeticError {
    /// The result does not fit in a [`Fixed`].
    Overflow,
    /// The divisor was zero.
    DivisionByZero,
    /// The exponent was not a whole number.
    UnsupportedExponent,
}

/// A signed fixed-point number: `micros` millionths.
#[derive(Clone, Copy, Debug, PartialEq, Eq, Structural, PartialOrd, Ord, Hash)]
pub struct Fixed {
    pub micros: i64,
}

impl View for Fixed {
    type V = int;

    open spec fn view(&self) -> int {
        self.micros as int
    }
}

/// The outcome of storing `v` millionths.
pub open spec fn stored(v: int) -> Result<Fixed, ArithmeticError> {
    if representable(v) {
        Ok(Fixed { micros: v as i64 })
    } else {
        Err(ArithmeticError::Overflow)
    }
}

/// The outcome of `a / b` on millionths.
pub open spec fn divided(a: int, b: int) -> Result<Fixed, ArithmeticError> {
    if b == 0 {
        Err(ArithmeticError::DivisionByZero)
    } else {
        stored(quotient(a, b))
    }
}

/// The outcome of raising `a` to the power `e`, both in millionths. The
/// exponent must be a whole number. For a negative one the result is one
/// divided by the power of the same size: zero to a negative power is a
/// division by zero.
pub open spec fn raised(a: int, e: int) -> Result<Fixed, ArithmeticError> {
    if e % (SCALE as int) != 0 {
        Err(ArithmeticError::UnsupportedExponent)
    } else if e >= 0 {
        match power(a, (e / (SCALE as int)) as nat) {
            Some(v) => Ok(Fixed { micros: v as i64 }),
            None => Err(ArithmeticError::Overflow),
        }
    } else {
        match power(a, ((-e) / (SCALE as int)) as nat) {
            Some(v) => divided(SCALE as int, v),
            None => Err(ArithmeticError::Overflow),
        }
    }
}

proof fn lemma_whole_both_ways(e: int)
    ensures
        (e % 1_000_000 == 0) == ((-e) % 1_000_000 == 0),
{
    if e % 1_000_000 == 0 {
        assert(-e == 1_000_000 * (-(e / 1_000_000)));
        assert((-e) % 1_000_000 == 0) by (nonlinear_arith)
            requires
                -e == 1_000_000 * (-(e / 1_000_000)),
        ;
    }
    if (-e) % 1_000_000 == 0 {
        assert(e == 1_000_000 * (-((-e) / 1_000_000)));
        assert(e % 1_000_000 == 0) by (nonlinear_arith)
            requires
                e == 1_000_000 * (-((-e) / 1_000_000)),
        ;
    }
}

proof fn lemma_round_up(n: int, d: int)
    requires
        n >= 0,
        d > 0,
    ensures
        (n + d / 2) / d == n / d + if n % d >= d - d / 2 {
            1int
        } else {
            0int
        },
{
    let q = n / d;
    let r = n % d;
    vstd::arithmetic::div_mod::lemma_fundamental_div_mod(n, d);
    assert(0 <= r < d) by (nonlinear_arith)
        requires
            r == n % d,
            d > 0,
    ;
    assert(d * q == q * d) by (nonlinear_arith);
    if r >= d - d / 2 {
        assert((q + 1) * d == q * d + d) by (nonlinear_arith);
        vstd::arithmetic::div_mod::lemma_fundamental_div_mod_converse(
            n + d / 2,
            d,
            q + 1,
            r + d / 2 - d,
        );
    } else {
        vstd::arithmetic::div_mod::lemma_fundamental_div_mod_converse(n + d / 2, d, q, r + d / 2);
    }
}

pub(crate) fn round_div_wide(n: i128, d: i128) -> (r: i128)
    requires
        d > 0,
        n > -0x8000_0000_0000_0000_0000_0000_0000_0000,
    ensures
        r == round_div(n as int, d as int),
{
    let magnitude: i128 = if n >= 0 {
        n
    } else {
        -n
    };
    proof {
        lemma_round_up(magnitude as int, d as int);
        assert(magnitude / d <= magnitude) by (nonlinear_arith)
            requires
                magnitude >= 0,
                d > 0,
        ;
        assert(magnitude % d < d) by (nonlinear_arith)
            requires
                magnitude >= 0,
                d > 0,
        ;
        if d > 1 {
            assert(magnitude / d < magnitude || magnitude == 0) by (nonlinear_arith)
                requires
                    magnitude >= 0,
                    d > 1,
            ;
        } else {
            assert(magnitude % d == 0);
        }
    }
    let quotient: i128 = magnitude / d;
    let rest: i128 = magnitude % d;
    let rounded: i128 = if rest >= d - d / 2 {
        quotient + 1
    } else {
        quotient
    };
    if n >= 0 {
        rounded
    } else {
        -rounded
    }
}

fn store_wide(v: i128) -> (r: Result<Fixed, ArithmeticError>)
    ensures
        r == stored(v as int),
{
    if v < i64::MIN as i128 || v > i64::MAX as i128 {
        Err(ArithmeticError::Overflow)
    } else {
        Ok(Fixed { micros: v as i64 })
    }
}

proof fn lemma_product_bound(a: int, b: int)
    requires
        -0x8000_0000_0000_0000 <= a <= 0x7fff_ffff_ffff_ffff,
        -0x8000_0000_0000_0000 <= b <= 0x7fff_ffff_ffff_ffff,
    ensures
        -0x4000_0000_0000_0000_0000_0000_0000_0000 <= a * b <= 0x4000_0000_0000_0000_0000_0000_0000_0000,
{
    assert(-0x4000_0000_0000_0000_0000_0000_0000_0000 <= a * b <= 0x4000_0000_0000_0000_0000_0000_0000_0000)
        by (nonlinear_arith)
        requires
            -0x8000_0000_0000_0000 <= a <= 0x7fff_ffff_ffff_ffff,
            -0x8000_0000_0000_0000 <= b <= 0x7fff_ffff_ffff_ffff,
    ;
}

impl Fixed {
    /// The number of `micros` millionths.
    pub fn from_micros(micros: i64) -> (r: Fixed)
        ensures
            r@ == micros,
    {
        Fixed { micros }
    }

    /// Zero.
    pub fn zero() -> (r: Fixed)
        ensures
            r@ == 0,
    {
        Fixed { micros: 0 }
    }

    /// One whole unit.
    pub fn one() -> (r: Fixed)
        ensures
            r@ == SCALE,
    {
        Fixed { micros: SCALE }
    }

    /// The whole number `units`, where it can be stored.
    pub fn from_int(units: i64) -> (r: Result<Fixed, ArithmeticError>)
        ensures
            r == stored(units * SCALE),
    {
        let wide: i128 = units as i128;
        store_wide(wide * (SCALE as i128))
    }

    /// The whole number `units`, where it can be stored.
    pub fn from_u64(units: u64) -> (r: Result<Fixed, ArithmeticError>)
        ensures
            r == stored(units * SCALE),
    {
        let wide: i128 = units as i128;
        store_wide(wide * (SCALE as i128))
    }

    /// `numerator / denominator` as a fixed-point number, rounded to the
    /// nearest millionth.
    pub fn from_ratio(numerator: u64, denominator: u64) -> (r: Result<Fixed, ArithmeticError>)
        ensures
            denominator == 0 ==> r == Err::<Fixed, ArithmeticError>(ArithmeticError::DivisionByZero),
            denominator != 0 ==> r == stored(round_div(numerator * SCALE, denominator as int)),
    {
        if denominator == 0 {
            return Err(ArithmeticError::DivisionByZero);
        }
        let n: i128 = numerator as i128;
        let scaled: i128 = n * 1_000_000;
        store_wide(round_div_wide(scaled, denominator as i128))
    }

    /// The stored count of millionths.
    pub fn micros(&self) -> (r: i64)
        ensures
            r == self@,
    {
        self.micros
    }

    /// `self + other`, exact.
    pub fn plus(self, other: Fixed) -> (r: Result<Fixed, ArithmeticError>)
        ensures
            r == stored(self@ + other@),
    {
        let a: i128 = self.micros as i128;
        let b: i128 = other.micros as i128;
        store_wide(a + b)
    }

    /// `self - other`, exact.
    pub fn minus(self, other: Fixed) -> (r: Result<Fixed, ArithmeticError>)
        ensures
            r == stored(self@ - other@),
    {
        let a: i128 = self.micros as i128;
        let b: i128 = other.micros as i128;
        store_wide(a - b)
    }

    /// `self * other`, rounded to the nearest millionth.
    pub fn times(self, other: Fixed) -> (r: Result<Fixed, ArithmeticError>)
        ensures
            r == stored(product(self@, other@)),
    {
        let a: i128 = self.micros as i128;
        let b: i128 = other.micros as i128;
        proof {
            lemma_product_bound(a as int, b as int);
        }
        store_wide(round_div_wide(a * b, SCALE as i128))
    }

    /// `self / other`, rounded to the nearest millionth.
    pub fn over(self, other: Fixed) -> (r: Result<Fixed, ArithmeticError>)
        ensures
            r == divided(self@, other@),
    {
        if other.micros == 0 {
            return Err(ArithmeticError::DivisionByZero);
        }
        let a: i128 = self.micros as i128;
        let b: i128 = other.micros as i128;
        let n: i128 = a * 1_000_000;
        if b > 0 {
            store_wide(round_div_wide(n, b))
        } else {
            store_wide(round_div_wide(-n, -b))
        }
    }

    fn to_whole_power(self, n: u64) -> (r: Option<Fixed>)
        ensures
            match r {
                Some(v) => power(self@, n as nat) == Some(v@),
                None => power(self@, n as nat).is_none(),
            },
        decreases n,
    {
        if n == 0 {
            return Some(Fixed { micros: SCALE });
        }
        let half = match self.to_whole_power(n / 2) {
            Some(half) => half,
            None => {
                return None;
            },
        };
        let square = match half.times(half) {
            Ok(square) => square,
            Err(_) => {
                return None;
            },
        };
        if n % 2 == 0 {
            Some(square)
        } else {
            match square.times(self) {
                Ok(v) => Some(v),
                Err(_) => None,
            }
        }
    }

    /// `self` raised to `exponent`, which must be a whole number. For a
    /// negative exponent the result is one divided by the power of the
    /// same size.
    pub fn raised_to(self, exponent: Fixed) -> (r: Result<Fixed, ArithmeticError>)
        ensures
            r == raised(self@, exponent@),
    {
        if exponent.micros >= 0 {
            if exponent.micros % SCALE != 0 {
                return Err(ArithmeticError::UnsupportedExponent);
            }
            let n: u64 = (exponent.micros / SCALE) as u64;
            match self.to_whole_power(n) {
                Some(v) => Ok(v),
                None => Err(ArithmeticError::Overflow),
            }
        } else {
            if exponent.micros == i64::MIN {
                assert((-0x8000_0000_0000_0000int) % 1_000_000 != 0);
                return Err(ArithmeticError::UnsupportedExponent);
            }
            let size: i64 = -exponent.micros;
            proof {
                lemma_whole_both_ways(exponent.micros as int);
            }
            if size % SCALE != 0 {
                return Err(ArithmeticError::UnsupportedExponent);
            }
            let n: u64 = (size / SCALE) as u64;
            match self.to_whole_power(n) {
                Some(v) => Fixed::one().over(v),
                None => Err(ArithmeticError::Overflow),
            }
        }
    }

    /// `self < other`.
    pub fn less_than(self, other: Fixed) -> (r: bool)
        ensures
            r == (self@ < other@),
    {
        self.micros < other.micros
    }

    /// `self > other`.
    pub fn more_than(self, other: Fixed) -> (r: bool)
        ensures
            r == (self@ > other@),
    {
        self.micros > other.micros
    }

    /// `true` when there is no fractional part.
    pub fn is_whole(self) -> (r: bool)
        ensures
            r == (self@ % (SCALE as int) == 0),
    {
        self.micros % SCALE == 0
    }

    /// The nearest whole number, halves away from zero.
    pub fn round(self) -> (r: i64)
        ensures
            r == round_div(self@, SCALE as int),
    {
        let n: i128 = self.micros as i128;
        let q: i128 = round_div_wide(n, SCALE as i128);
        q as i64
    }
}

/// The sum of all values.
pub open spec fn total(values: Seq<int>) -> int
    decreases values.len(),
{
    if values.len() == 0 {
        0
    } else {
        total(values.drop_last()) + values.last()
    }
}

/// The mean of `values`, rounded to the nearest integer; zero for no value.
pub open spec fn mean(values: Seq<int>) -> int {
    if values.len() == 0 {
        0
    } else {
        round_div(total(values), values.len() as int)
    }
}

/// The stored millionths of `values`, in order.
pub open spec fn micros_of(values: Seq<Fixed>) -> Seq<int> {
    values.map_values(|v: Fixed| v@)
}

/// The mean of `values`; zero for no value.
pub fn mean_of(values: &Vec<Fixed>) -> (r: Fixed)
    ensures
        r@ == mean(micros_of(values@)),
{
    let len: usize = values.len();
    if len == 0 {
        return Fixed { micros: 0 };
    }
    let ghost all = micros_of(values@);
    let mut sum: i128 = 0;
    let mut k: usize = 0;
    assert(all.subrange(0, 0) =~= Seq::<int>::empty());
    while k < len
        invariant
            k <= len,
            len == values@.len(),
            all == micros_of(values@),
            sum == total(all.subrange(0, k as int)),
            -k * 0x8000_0000_0000_0000 <= sum <= k * 0x7fff_ffff_ffff_ffff,
        decreases len - k,
    {
        proof {
            let part = all.subrange(0, k + 1);
            assert(part.drop_last() =~= all.subrange(0, k as int));
            assert(part.last() == values@[k as int]@);
            assert((k + 1) * 0x7fff_ffff_ffff_ffff == k * 0x7fff_ffff_ffff_ffff
                + 0x7fff_ffff_ffff_ffff) by (nonlinear_arith);
            assert(-(k + 1) * 0x8000_0000_0000_0000 == -k * 0x8000_0000_0000_0000
                - 0x8000_0000_0000_0000) by (nonlinear_arith);
            assert(k * 0x7fff_ffff_ffff_ffff <= 0xffff_ffff_ffff_ffff * 0x7fff_ffff_ffff_ffff)
                by (nonlinear_arith)
                requires
                    k <= 0xffff_ffff_ffff_ffff,
            ;
            assert(-k * 0x8000_0000_0000_0000 >= -0xffff_ffff_ffff_ffff * 0x8000_0000_0000_0000)
                by (nonlinear_arith)
                requires
                    0 <= k <= 0xffff_ffff_ffff_ffff,
            ;
        }
        sum = sum + values[k].micros as i128;
        k += 1;
    }
    proof {
        assert(all.subrange(0, len as int) =~= all);
        assert(len * 0x7fff_ffff_ffff_ffff <= 0xffff_ffff_ffff_ffff * 0x7fff_ffff_ffff_ffff)
            by (nonlinear_arith)
            requires
                len <= 0xffff_ffff_ffff_ffff,
        ;
        assert(-len * 0x8000_0000_0000_0000 >= -0xffff_ffff_ffff_ffff * 0x8000_0000_0000_0000)
            by (nonlinear_arith)
            requires
                0 <= len <= 0xffff_ffff_ffff_ffff,
        ;
    }
    let result: i128 = round_div_wide(sum, len as i128);
    proof {
        let n = len as int;
        let s = sum as int;
        assert(-0x8000_0000_0000_0000 <= round_div(s, n) <= 0x7fff_ffff_ffff_ffff)
            by (nonlinear_arith)
            requires
                0 < n,
                -n * 0x8000_0000_0000_0000 <= s <= n * 0x7fff_ffff_ffff_ffff,
        ;
    }
    Fixed { micros: result as i64 }
}

} // verus!
