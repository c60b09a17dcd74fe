//! Metric scalars: integers, or IEEE-754 doubles carried as bit patterns.
//!
//! Verified code never computes with doubles directly.  Every double
//! operation is a trusted wrapper around the machine operation, and its
//! result is named by an uninterpreted spec function of the operand bits, so
//! contracts stay exact without restating floating-point arithmetic.

use vstd::prelude::*;
use core::primitive::f64 as Binary64;

verus! {

/// A metric scalar: a signed integer, or a double held as its bit pattern.
#[derive(Debug, Clone, Copy, PartialEq, Eq, Structural)]
pub enum GravelNumber {
    Int(i64),
    Float(u64),
}

pub uninterp spec fn float_add_bits(a: u64, b: u64) -> u64;

pub uninterp spec fn float_mul_bits(a: u64, b: u64) -> u64;

pub uninterp spec fn float_div_bits(a: u64, b: u64) -> u64;

pub uninterp spec fn float_lt_bits(a: u64, b: u64) -> bool;

pub uninterp spec fn float_of_i64(i: i64) -> u64;

/// Relies on IEEE-754 double addition: the bit pattern of the sum of the two
/// doubles whose bit patterns are given.
#[verifier::external_body]
pub(crate) fn f64_add(a: u64, b: u64) -> (r: u64)
    ensures
        r == float_add_bits(a, b),
{
    (Binary64::from_bits(a) + Binary64::from_bits(b)).to_bits()
}

/// Relies on IEEE-754 double multiplication, over bit patterns.
#[verifier::external_body]
pub(crate) fn f64_mul(a: u64, b: u64) -> (r: u64)
    ensures
        r == float_mul_bits(a, b),
{
    (Binary64::from_bits(a) * Binary64::from_bits(b)).to_bits()
}

/// Relies on IEEE-754 double division, over bit patterns.
#[verifier::external_body]
pub(crate) fn f64_div(a: u64, b: u64) -> (r: u64)
    ensures
        r == float_div_bits(a, b),
{
    (Binary64::from_bits(a) / Binary64::from_bits(b)).to_bits()
}

/// Relies on the IEEE-754 `<` comparison; it never holds between a double
/// and itself, so equal bit patterns compare false.
#[verifier::external_body]
pub(crate) fn f64_lt(a: u64, b: u64) -> (r: bool)
    ensures
        r == float_lt_bits(a, b),
        a == b ==> !r,
{
    Binary64::from_bits(a) < Binary64::from_bits(b)
}

/// Relies on the `i64` to `f64` conversion (round to nearest).
#[verifier::external_body]
pub(crate) fn i64_to_f64_bits(i: i64) -> (r: u64)
    ensures
        r == float_of_i64(i),
{
    (i as Binary64).to_bits()
}

/// The sum of two scalars: two integers add as integers (wrapping), and any
/// double makes the result a double.
pub open spec fn spec_num_add(a: GravelNumber, b: GravelNumber) -> GravelNumber {
    match (a, b) {
        (GravelNumber::Int(x), GravelNumber::Int(y)) => GravelNumber::Int(
            vstd::wrapping::i64_specs::wrapping_add(x, y),
        ),
        (GravelNumber::Float(x), GravelNumber::Float(y)) => GravelNumber::Float(
            float_add_bits(x, y),
        ),
        (GravelNumber::Float(x), GravelNumber::Int(y)) => GravelNumber::Float(
            float_add_bits(x, float_of_i64(y)),
        ),
        (GravelNumber::Int(x), GravelNumber::Float(y)) => GravelNumber::Float(
            float_add_bits(float_of_i64(x), y),
        ),
    }
}

/// The double standing for a scalar: an integer is converted, a double is
/// returned as it is.
pub open spec fn spec_num_f64_bits(n: GravelNumber) -> u64 {
    match n {
        GravelNumber::Int(i) => float_of_i64(i),
        GravelNumber::Float(b) => b,
    }
}

impl GravelNumber {
    /// Adds two scalars following `spec_num_add`.
    pub fn plus(self, other: GravelNumber) -> (r: GravelNumber)
        ensures
            r == spec_num_add(self, other),
    {
        match (self, other) {
            (GravelNumber::Int(x), GravelNumber::Int(y)) => GravelNumber::Int(x.wrapping_add(y)),
            (GravelNumber::Float(x), GravelNumber::Float(y)) => GravelNumber::Float(f64_add(x, y)),
            (GravelNumber::Float(x), GravelNumber::Int(y)) => GravelNumber::Float(
                f64_add(x, i64_to_f64_bits(y)),
            ),
            (GravelNumber::Int(x), GravelNumber::Float(y)) => GravelNumber::Float(
                f64_add(i64_to_f64_bits(x), y),
            ),
        }
    }

    /// The double (as bits) standing for this scalar.
    pub fn as_f64_bits(&self) -> (r: u64)
        ensures
            r == spec_num_f64_bits(*self),
    {
        match self {
            GravelNumber::Int(i) => i64_to_f64_bits(*i),
            GravelNumber::Float(b) => *b,
        }
    }
}

} // verus!
