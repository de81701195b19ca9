//! Measured values. The library hands them on and compares them; it does not calculate with
//! floating-point numbers.
use vstd::prelude::*;

use crate::text;

verus! {

/// A measured value, as it came in.
#[derive(Debug)]
pub enum Number {
    /// A whole number.
    Integer(i64),
    /// A single-precision number, by its IEEE 754 bits.
    Single(u32),
    /// A double-precision number.
    Double(Real),
    /// A number in floating-point notation.
    Text(String),
}

/// What a measured value is.
pub ghost enum NumberData {
    Integer(i64),
    Single(u32),
    Double(Real),
    Text(Seq<char>),
}

impl View for Number {
    type V = NumberData;

    open spec fn view(&self) -> NumberData {
        match self {
            Number::Integer(v) => NumberData::Integer(*v),
            Number::Single(bits) => NumberData::Single(*bits),
            Number::Double(v) => NumberData::Double(*v),
            Number::Text(s) => NumberData::Text(s@),
        }
    }
}

impl Clone for Number {
    fn clone(&self) -> (r: Self)
        ensures
            r@ == self@,
    {
        match self {
            Number::Integer(v) => Number::Integer(*v),
            Number::Single(bits) => Number::Single(*bits),
            Number::Double(v) => Number::Double(*v),
            Number::Text(s) => Number::Text(text::owned(s.as_str())),
        }
    }
}

/// A double-precision number, by its IEEE 754 bits.
#[derive(Clone, Copy, Debug, PartialEq, Eq, Structural)]
pub struct Real {
    pub bits: u64,
}

impl Real {
    /// The bits below the sign. They grow with the size of the number.
    pub open spec fn magnitude(self) -> int {
        self.bits as int % 0x8000_0000_0000_0000
    }

    /// Not a number: all exponent bits are set and the fraction is not zero.
    pub open spec fn is_nan(self) -> bool {
        self.magnitude() > 0x7FF0_0000_0000_0000
    }

    /// Neither infinite nor not a number.
    pub open spec fn is_finite(self) -> bool {
        self.magnitude() < 0x7FF0_0000_0000_0000
    }

    /// The place of the number in the order of numbers; both zeros share one.
    pub open spec fn rank(self) -> int {
        if self.bits >= 0x8000_0000_0000_0000 {
            -self.magnitude()
        } else {
            self.magnitude()
        }
    }

    /// `self >= other`, false where either is not a number.
    pub open spec fn at_least(self, other: Real) -> bool {
        !self.is_nan() && !other.is_nan() && self.rank() >= other.rank()
    }

    /// `self > other`, false where either is not a number.
    pub open spec fn above(self, other: Real) -> bool {
        !self.is_nan() && !other.is_nan() && self.rank() > other.rank()
    }

    /// The number without its sign.
    pub open spec fn absolute(self) -> Real {
        Real { bits: (self.bits % 0x8000_0000_0000_0000) as u64 }
    }

    /// The larger of two numbers; where one is not a number, the other.
    pub open spec fn larger(self, other: Real) -> Real {
        if self.is_nan() {
            other
        } else if other.is_nan() || self.rank() >= other.rank() {
            self
        } else {
            other
        }
    }

    pub fn abs(self) -> (r: Real)
        ensures
            r == self.absolute(),
    {
        Real { bits: self.bits % 0x8000_0000_0000_0000 }
    }

    pub fn max(self, other: Real) -> (r: Real)
        ensures
            r == self.larger(other),
    {
        if self.nan() {
            other
        } else if other.nan() || self.rank_of() >= other.rank_of() {
            self
        } else {
            other
        }
    }

    fn rank_of(self) -> (r: i64)
        ensures
            r == self.rank(),
    {
        let magnitude: u64 = self.bits % 0x8000_0000_0000_0000;
        if self.bits >= 0x8000_0000_0000_0000 {
            -(magnitude as i64)
        } else {
            magnitude as i64
        }
    }

    pub fn nan(self) -> (r: bool)
        ensures
            r == self.is_nan(),
    {
        self.bits % 0x8000_0000_0000_0000 > 0x7FF0_0000_0000_0000
    }

    pub fn finite(self) -> (r: bool)
        ensures
            r == self.is_finite(),
    {
        self.bits % 0x8000_0000_0000_0000 < 0x7FF0_0000_0000_0000
    }

    pub fn ge(self, other: Real) -> (r: bool)
        ensures
            r == self.at_least(other),
    {
        !self.nan() && !other.nan() && self.rank_of() >= other.rank_of()
    }

    pub fn gt(self, other: Real) -> (r: bool)
        ensures
            r == self.above(other),
    {
        !self.nan() && !other.nan() && self.rank_of() > other.rank_of()
    }
}

/// Numbers are in one order: of two that are numbers, one is at least the other; what is at
/// least a number that is at least a third is at least the third; the order is strict where it
/// does not hold the other way round. What is not a number is in no order with anything.
pub proof fn law_order(a: Real, b: Real, c: Real)
    ensures
        !a.is_nan() && !b.is_nan() ==> a.at_least(b) || b.at_least(a),
        a.at_least(b) && b.at_least(c) ==> a.at_least(c),
        a.above(b) <==> a.at_least(b) && !b.at_least(a),
        a.is_nan() || b.is_nan() ==> !a.at_least(b) && !a.above(b),
{
}

/// By the bits: of two numbers without a sign the one with the larger bits is larger, with a
/// sign it is smaller; a number with a sign is never above one without; both zeros are equal.
pub proof fn law_order_of_bits(a: Real, b: Real)
    requires
        !a.is_nan(),
        !b.is_nan(),
    ensures
        a.bits < 0x8000_0000_0000_0000 && b.bits < 0x8000_0000_0000_0000 ==> (a.at_least(b)
            <==> a.bits >= b.bits),
        a.bits >= 0x8000_0000_0000_0000 && b.bits >= 0x8000_0000_0000_0000 ==> (a.at_least(b)
            <==> a.bits <= b.bits),
        a.bits >= 0x8000_0000_0000_0000 && b.bits < 0x8000_0000_0000_0000 ==> b.at_least(a)
            && !a.above(b),
        a.bits == 0x8000_0000_0000_0000 && b.bits == 0 ==> a.at_least(b) && b.at_least(a),
        a.is_finite() || a.bits == 0x7FF0_0000_0000_0000 || a.bits == 0xFFF0_0000_0000_0000,
{
}

/// A number without its sign is at least the number and not below zero; the larger of two is
/// one of them and at least both, as far as they are numbers.
pub proof fn law_absolute_and_larger(a: Real, b: Real)
    ensures
        !a.is_nan() ==> a.absolute().at_least(a) && a.absolute().at_least(Real { bits: 0 }),
        a.absolute() == a || a.absolute().bits + 0x8000_0000_0000_0000 == a.bits,
        a.larger(b) == a || a.larger(b) == b,
        !a.is_nan() ==> a.larger(b).at_least(a),
        !b.is_nan() ==> a.larger(b).at_least(b),
{
}

} // verus!
