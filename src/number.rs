//! Exact rational numbers with checked arithmetic.

use vstd::prelude::*;

verus! {

/// A rational number `num / den`, not necessarily in lowest terms.
/// Well-formed values have a positive denominator.
#[derive(Clone, Copy, Debug, PartialEq, Eq, Structural)]
pub struct Num {
    pub num: i64,
    pub den: i64,
}

/// Why an arithmetic operation produced no number.
#[derive(Clone, Copy, Debug, PartialEq, Eq, Structural)]
pub enum ArithError {
    Overflow,
    DivisionByZero,
}

pub open spec fn fits_i64(x: int) -> bool {
    i64::MIN <= x <= i64::MAX
}

/// The number `n / d`, or an overflow when either part leaves the 64-bit range.
pub open spec fn make_num(n: int, d: int) -> Result<Num, ArithError> {
    if fits_i64(n) && fits_i64(d) {
        Ok(Num { num: n as i64, den: d as i64 })
    } else {
        Err(ArithError::Overflow)
    }
}

pub open spec fn add_spec(a: Num, b: Num) -> Result<Num, ArithError> {
    make_num(a.num * b.den + b.num * a.den, a.den * b.den)
}

pub open spec fn sub_spec(a: Num, b: Num) -> Result<Num, ArithError> {
    make_num(a.num * b.den - b.num * a.den, a.den * b.den)
}

pub open spec fn mul_spec(a: Num, b: Num) -> Result<Num, ArithError> {
    make_num(a.num * b.num, a.den * b.den)
}

pub open spec fn div_spec(a: Num, b: Num) -> Result<Num, ArithError> {
    if b.num == 0 {
        Err(ArithError::DivisionByZero)
    } else if b.num > 0 {
        make_num(a.num * b.den, a.den * b.num)
    } else {
        make_num(-(a.num * b.den), -(a.den * b.num))
    }
}

/// Whether two numbers denote the same rational value.
pub open spec fn same_value_spec(a: Num, b: Num) -> bool {
    a.num * b.den == b.num * a.den
}

/// `1` when both numbers denote the same value, else `0`.
pub open spec fn eq_spec(a: Num, b: Num) -> Num {
    Num { num: if same_value_spec(a, b) { 1 } else { 0 }, den: 1 }
}

proof fn lemma_den_positive(a: int, b: int)
    requires
        a > 0,
        b > 0,
    ensures
        a * b > 0,
{
    assert(a * b > 0) by (nonlinear_arith)
        requires
            a > 0,
            b > 0,
    ;
}

proof fn lemma_scaled_bounds(a: int, b: int)
    requires
        fits_i64(a),
        0 < b <= i64::MAX,
    ensures
        -0x3fff_ffff_ffff_ffff_8000_0000_0000_0000 <= a * b <= 0x3fff_ffff_ffff_ffff_8000_0000_0000_0000,
{
    assert(-0x3fff_ffff_ffff_ffff_8000_0000_0000_0000 <= a * b <= 0x3fff_ffff_ffff_ffff_8000_0000_0000_0000)
        by (nonlinear_arith)
        requires
            -0x8000_0000_0000_0000 <= a <= 0x7fff_ffff_ffff_ffff,
            0 < b <= 0x7fff_ffff_ffff_ffff,
    ;
}

proof fn lemma_product_bounds(a: int, b: int)
    requires
        fits_i64(a),
        fits_i64(b),
    ensures
        -0x4000_0000_0000_0000_0000_0000_0000_0000 <= a * b <= 0x4000_0000_0000_0000_0000_0000_0000_0000,
{
    assert(-0x4000_0000_0000_0000_0000_0000_0000_0000 <= a * b <= 0x4000_0000_0000_0000_0000_0000_0000_0000)
        by (nonlinear_arith)
        requires
            -0x8000_0000_0000_0000 <= a <= 0x7fff_ffff_ffff_ffff,
            -0x8000_0000_0000_0000 <= b <= 0x7fff_ffff_ffff_ffff,
    ;
}

impl Num {
    pub open spec fn wf(self) -> bool {
        self.den > 0
    }

    /// The integer `n`.
    pub fn from_int(n: i64) -> (r: Num)
        ensures
            r == (Num { num: n, den: 1 }),
            r.wf(),
    {
        Num { num: n, den: 1 }
    }

    pub fn is_zero(&self) -> (r: bool)
        ensures
            r == (self.num == 0),
    {
        self.num == 0
    }

    pub fn same_value(&self, other: &Num) -> (r: bool)
        ensures
            r == same_value_spec(*self, *other),
    {
        proof {
            lemma_product_bounds(self.num as int, other.den as int);
            lemma_product_bounds(other.num as int, self.den as int);
        }
        (self.num as i128) * (other.den as i128) == (other.num as i128) * (self.den as i128)
    }

    fn from_wide(n: i128, d: i128) -> (r: Result<Num, ArithError>)
        ensures
            r == make_num(n as int, d as int),
    {
        if i64::MIN as i128 <= n && n <= i64::MAX as i128 && i64::MIN as i128 <= d && d
            <= i64::MAX as i128 {
            Ok(Num { num: n as i64, den: d as i64 })
        } else {
            Err(ArithError::Overflow)
        }
    }

    pub fn checked_add(&self, other: &Num) -> (r: Result<Num, ArithError>)
        requires
            self.wf(),
            other.wf(),
        ensures
            r == add_spec(*self, *other),
            r matches Ok(n) ==> n.wf(),
    {
        proof {
            lemma_scaled_bounds(self.num as int, other.den as int);
            lemma_scaled_bounds(other.num as int, self.den as int);
            lemma_product_bounds(self.den as int, other.den as int);
            lemma_den_positive(self.den as int, other.den as int);
        }
        let n = (self.num as i128) * (other.den as i128) + (other.num as i128) * (
        self.den as i128);
        let d = (self.den as i128) * (other.den as i128);
        Self::from_wide(n, d)
    }

    pub fn checked_sub(&self, other: &Num) -> (r: Result<Num, ArithError>)
        requires
            self.wf(),
            other.wf(),
        ensures
            r == sub_spec(*self, *other),
            r matches Ok(n) ==> n.wf(),
    {
        proof {
            lemma_scaled_bounds(self.num as int, other.den as int);
            lemma_scaled_bounds(other.num as int, self.den as int);
            lemma_product_bounds(self.den as int, other.den as int);
            lemma_den_positive(self.den as int, other.den as int);
        }
        let n = (self.num as i128) * (other.den as i128) - (other.num as i128) * (
        self.den as i128);
        let d = (self.den as i128) * (other.den as i128);
        Self::from_wide(n, d)
    }

    pub fn checked_mul(&self, other: &Num) -> (r: Result<Num, ArithError>)
        requires
            self.wf(),
            other.wf(),
        ensures
            r == mul_spec(*self, *other),
            r matches Ok(n) ==> n.wf(),
    {
        proof {
            lemma_product_bounds(self.num as int, other.num as int);
            lemma_product_bounds(self.den as int, other.den as int);
            lemma_den_positive(self.den as int, other.den as int);
        }
        let n = (self.num as i128) * (other.num as i128);
        let d = (self.den as i128) * (other.den as i128);
        Self::from_wide(n, d)
    }

    pub fn checked_div(&self, other: &Num) -> (r: Result<Num, ArithError>)
        requires
            self.wf(),
            other.wf(),
        ensures
            r == div_spec(*self, *other),
            r matches Ok(n) ==> n.wf(),
    {
        if other.num == 0 {
            return Err(ArithError::DivisionByZero);
        }
        proof {
            lemma_product_bounds(self.num as int, other.den as int);
            lemma_product_bounds(self.den as int, other.num as int);
            if other.num > 0 {
                lemma_den_positive(self.den as int, other.num as int);
            } else {
                lemma_den_positive(self.den as int, -other.num);
                assert(self.den * (-other.num) == -(self.den * other.num)) by (nonlinear_arith);
            }
        }
        let n = (self.num as i128) * (other.den as i128);
        let d = (self.den as i128) * (other.num as i128);
        if other.num > 0 {
            Self::from_wide(n, d)
        } else {
            Self::from_wide(-n, -d)
        }
    }

    /// The number `1` when both denote the same value, else `0`.
    pub fn value_eq(&self, other: &Num) -> (r: Num)
        ensures
            r == eq_spec(*self, *other),
            r.wf(),
    {
        if self.same_value(other) {
            Num { num: 1, den: 1 }
        } else {
            Num { num: 0, den: 1 }
        }
    }
}

} // verus!
