//! Arithmetic helpers of the standard library, on exact numbers.

use vstd::prelude::*;
use crate::number::{ArithError, Num, add_spec, div_spec, mul_spec, sub_spec};

verus! {

pub fn add(a: Num, b: Num) -> (r: Result<Num, ArithError>)
    requires
        a.wf(),
        b.wf(),
    ensures
        r == add_spec(a, b),
{
    a.checked_add(&b)
}

pub fn subtract(a: Num, b: Num) -> (r: Result<Num, ArithError>)
    requires
        a.wf(),
        b.wf(),
    ensures
        r == sub_spec(a, b),
{
    a.checked_sub(&b)
}

pub fn multiply(a: Num, b: Num) -> (r: Result<Num, ArithError>)
    requires
        a.wf(),
        b.wf(),
    ensures
        r == mul_spec(a, b),
{
    a.checked_mul(&b)
}

/// Division, where dividing by zero gives zero.
pub fn divide(a: Num, b: Num) -> (r: Result<Num, ArithError>)
    requires
        a.wf(),
        b.wf(),
    ensures
        b.num == 0 ==> r == Ok::<Num, ArithError>(Num { num: 0, den: 1 }),
        b.num != 0 ==> r == div_spec(a, b),
{
    if b.num == 0 {
        Ok(Num { num: 0, den: 1 })
    } else {
        a.checked_div(&b)
    }
}

} // verus!
