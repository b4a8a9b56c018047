use vstd::prelude::*;

verus! {

/// One scalar sample value, carried as an opaque 32-bit word.
///
/// The engine never interprets the word itself: every numeric operation on
/// scalars goes through the [`ScalarArith`] port carried by the evaluation
/// context. The intended reading of a word is an IEEE-754 single-precision
/// number, supplied by the embedding program; under that reading the all-zero
/// word is the number zero, which lets fresh per-node state start at zero
/// without consulting the port.
#[derive(Clone, Copy, PartialEq, Eq, Structural, Debug)]
pub struct Scalar {
    pub bits: u32,
}

impl Scalar {
    /// The all-zero word, the starting value of every per-node state field
    /// and of every fresh variable slot.
    pub open spec fn zero_spec() -> Scalar {
        Scalar { bits: 0 }
    }

    pub fn zero() -> (r: Scalar)
        ensures
            r == Scalar::zero_spec(),
    {
        Scalar { bits: 0 }
    }
}

/// The arithmetic port of the evaluation engine.
///
/// Every numeric operation a sampler performs is one call on this trait, and
/// each exec operation is pinned to a spec-level model of itself, so every
/// contract in the engine is stated relative to that model and the proofs
/// hold for any arithmetic supplied here. The intended implementation reads
/// each word as an IEEE-754 single-precision number and applies the
/// corresponding float operation with its usual semantics (including NaN and
/// infinity propagation); the embedding program provides it, since the
/// verified engine itself works only on opaque words. The crate ships
/// [`IntArith`], a deterministic integer reading, so the engine can be
/// exercised without any platform float unit.
pub trait ScalarArith: Sized {
    /// Model of the word for the number one.
    spec fn one_spec(&self) -> Scalar;

    /// The word for the number one.
    fn one(&self) -> (r: Scalar)
        ensures
            r == self.one_spec(),
    ;

    /// Model of the word for the number two.
    spec fn two_spec(&self) -> Scalar;

    /// The word for the number two.
    fn two(&self) -> (r: Scalar)
        ensures
            r == self.two_spec(),
    ;

    /// Model of the word for the circle constant pi.
    spec fn pi_spec(&self) -> Scalar;

    /// The word for the circle constant pi.
    fn pi(&self) -> (r: Scalar)
        ensures
            r == self.pi_spec(),
    ;

    /// Model of addition.
    spec fn add_spec(&self, a: Scalar, b: Scalar) -> Scalar;

    /// The sum of two scalars.
    fn add(&self, a: Scalar, b: Scalar) -> (r: Scalar)
        ensures
            r == self.add_spec(a, b),
    ;

    /// Model of subtraction.
    spec fn sub_spec(&self, a: Scalar, b: Scalar) -> Scalar;

    /// The difference of two scalars.
    fn sub(&self, a: Scalar, b: Scalar) -> (r: Scalar)
        ensures
            r == self.sub_spec(a, b),
    ;

    /// Model of multiplication.
    spec fn mul_spec(&self, a: Scalar, b: Scalar) -> Scalar;

    /// The product of two scalars.
    fn mul(&self, a: Scalar, b: Scalar) -> (r: Scalar)
        ensures
            r == self.mul_spec(a, b),
    ;

    /// Model of division. The model is total: what a zero divisor yields is
    /// up to the implementation (IEEE-754 propagates an infinity or NaN).
    spec fn div_spec(&self, a: Scalar, b: Scalar) -> Scalar;

    /// The quotient of two scalars.
    fn div(&self, a: Scalar, b: Scalar) -> (r: Scalar)
        ensures
            r == self.div_spec(a, b),
    ;

    /// Model of the remainder operation.
    spec fn rem_spec(&self, a: Scalar, b: Scalar) -> Scalar;

    /// The remainder of two scalars.
    fn rem(&self, a: Scalar, b: Scalar) -> (r: Scalar)
        ensures
            r == self.rem_spec(a, b),
    ;

    /// Model of raising to a power.
    spec fn pow_spec(&self, a: Scalar, b: Scalar) -> Scalar;

    /// One scalar raised to another.
    fn pow(&self, a: Scalar, b: Scalar) -> (r: Scalar)
        ensures
            r == self.pow_spec(a, b),
    ;

    /// Model of the sine.
    spec fn sin_spec(&self, a: Scalar) -> Scalar;

    /// The sine of a scalar.
    fn sin(&self, a: Scalar) -> (r: Scalar)
        ensures
            r == self.sin_spec(a),
    ;

    /// Model of the cosine.
    spec fn cos_spec(&self, a: Scalar) -> Scalar;

    /// The cosine of a scalar.
    fn cos(&self, a: Scalar) -> (r: Scalar)
        ensures
            r == self.cos_spec(a),
    ;

    /// Model of the `<=` comparison.
    spec fn le_spec(&self, a: Scalar, b: Scalar) -> bool;

    /// Whether one scalar is at most another.
    fn le(&self, a: Scalar, b: Scalar) -> (r: bool)
        ensures
            r == self.le_spec(a, b),
    ;

    /// Model of the `>` comparison.
    spec fn gt_spec(&self, a: Scalar, b: Scalar) -> bool;

    /// Whether one scalar exceeds another.
    fn gt(&self, a: Scalar, b: Scalar) -> (r: bool)
        ensures
            r == self.gt_spec(a, b),
    ;

    /// Model of the `>=` comparison.
    spec fn ge_spec(&self, a: Scalar, b: Scalar) -> bool;

    /// Whether one scalar is at least another.
    fn ge(&self, a: Scalar, b: Scalar) -> (r: bool)
        ensures
            r == self.ge_spec(a, b),
    ;

    /// Model of the conversion from a signed machine integer.
    spec fn of_i32_spec(&self, v: i32) -> Scalar;

    /// The scalar for a signed machine integer (a pointer coordinate).
    fn of_i32(&self, v: i32) -> (r: Scalar)
        ensures
            r == self.of_i32_spec(v),
    ;

    /// Model of the conversion from an unsigned machine integer.
    spec fn of_u32_spec(&self, v: u32) -> Scalar;

    /// The scalar for an unsigned machine integer (a click counter).
    fn of_u32(&self, v: u32) -> (r: Scalar)
        ensures
            r == self.of_u32_spec(v),
    ;

    /// Model of the truncation to a signed machine integer.
    spec fn to_i32_spec(&self, a: Scalar) -> i32;

    /// The scalar truncated to a signed machine integer (a pixel delta).
    fn to_i32(&self, a: Scalar) -> (r: i32)
        ensures
            r == self.to_i32_spec(a),
    ;
}

/// A deterministic arithmetic that reads each word as an unsigned 32-bit
/// integer: sums, differences and products wrap, a zero divisor yields zero,
/// and the transcendental operations are coarse stand-ins (the sine is zero,
/// the cosine and every power are one). It is not the intended IEEE-754
/// reading; it exists so the engine can be driven deterministically from
/// verified code alone.
pub struct IntArith;

impl ScalarArith for IntArith {
    open spec fn one_spec(&self) -> Scalar {
        Scalar { bits: 1 }
    }

    fn one(&self) -> (r: Scalar) {
        Scalar { bits: 1 }
    }

    open spec fn two_spec(&self) -> Scalar {
        Scalar { bits: 2 }
    }

    fn two(&self) -> (r: Scalar) {
        Scalar { bits: 2 }
    }

    open spec fn pi_spec(&self) -> Scalar {
        Scalar { bits: 3 }
    }

    fn pi(&self) -> (r: Scalar) {
        Scalar { bits: 3 }
    }

    open spec fn add_spec(&self, a: Scalar, b: Scalar) -> Scalar {
        Scalar { bits: a.bits.wrapping_add(b.bits) }
    }

    fn add(&self, a: Scalar, b: Scalar) -> (r: Scalar) {
        Scalar { bits: a.bits.wrapping_add(b.bits) }
    }

    open spec fn sub_spec(&self, a: Scalar, b: Scalar) -> Scalar {
        Scalar { bits: a.bits.wrapping_sub(b.bits) }
    }

    fn sub(&self, a: Scalar, b: Scalar) -> (r: Scalar) {
        Scalar { bits: a.bits.wrapping_sub(b.bits) }
    }

    open spec fn mul_spec(&self, a: Scalar, b: Scalar) -> Scalar {
        Scalar { bits: a.bits.wrapping_mul(b.bits) }
    }

    fn mul(&self, a: Scalar, b: Scalar) -> (r: Scalar) {
        Scalar { bits: a.bits.wrapping_mul(b.bits) }
    }

    open spec fn div_spec(&self, a: Scalar, b: Scalar) -> Scalar {
        if b.bits == 0 {
            Scalar { bits: 0 }
        } else {
            Scalar { bits: (a.bits / b.bits) as u32 }
        }
    }

    fn div(&self, a: Scalar, b: Scalar) -> (r: Scalar) {
        if b.bits == 0 {
            Scalar { bits: 0 }
        } else {
            Scalar { bits: a.bits / b.bits }
        }
    }

    open spec fn rem_spec(&self, a: Scalar, b: Scalar) -> Scalar {
        if b.bits == 0 {
            Scalar { bits: 0 }
        } else {
            Scalar { bits: (a.bits % b.bits) as u32 }
        }
    }

    fn rem(&self, a: Scalar, b: Scalar) -> (r: Scalar) {
        if b.bits == 0 {
            Scalar { bits: 0 }
        } else {
            Scalar { bits: a.bits % b.bits }
        }
    }

    open spec fn pow_spec(&self, a: Scalar, b: Scalar) -> Scalar {
        Scalar { bits: 1 }
    }

    fn pow(&self, a: Scalar, b: Scalar) -> (r: Scalar) {
        Scalar { bits: 1 }
    }

    open spec fn sin_spec(&self, a: Scalar) -> Scalar {
        Scalar { bits: 0 }
    }

    fn sin(&self, a: Scalar) -> (r: Scalar) {
        Scalar { bits: 0 }
    }

    open spec fn cos_spec(&self, a: Scalar) -> Scalar {
        Scalar { bits: 1 }
    }

    fn cos(&self, a: Scalar) -> (r: Scalar) {
        Scalar { bits: 1 }
    }

    open spec fn le_spec(&self, a: Scalar, b: Scalar) -> bool {
        a.bits <= b.bits
    }

    fn le(&self, a: Scalar, b: Scalar) -> (r: bool) {
        a.bits <= b.bits
    }

    open spec fn gt_spec(&self, a: Scalar, b: Scalar) -> bool {
        a.bits > b.bits
    }

    fn gt(&self, a: Scalar, b: Scalar) -> (r: bool) {
        a.bits > b.bits
    }

    open spec fn ge_spec(&self, a: Scalar, b: Scalar) -> bool {
        a.bits >= b.bits
    }

    fn ge(&self, a: Scalar, b: Scalar) -> (r: bool) {
        a.bits >= b.bits
    }

    open spec fn of_i32_spec(&self, v: i32) -> Scalar {
        if v < 0 {
            Scalar { bits: 0 }
        } else {
            Scalar { bits: v as u32 }
        }
    }

    fn of_i32(&self, v: i32) -> (r: Scalar) {
        if v < 0 {
            Scalar { bits: 0 }
        } else {
            Scalar { bits: v as u32 }
        }
    }

    open spec fn of_u32_spec(&self, v: u32) -> Scalar {
        Scalar { bits: v }
    }

    fn of_u32(&self, v: u32) -> (r: Scalar) {
        Scalar { bits: v }
    }

    open spec fn to_i32_spec(&self, a: Scalar) -> i32 {
        if a.bits > 0x7FFF_FFFF {
            0x7FFF_FFFF
        } else {
            a.bits as i32
        }
    }

    fn to_i32(&self, a: Scalar) -> (r: i32) {
        if a.bits > 0x7FFF_FFFF {
            0x7FFF_FFFF
        } else {
            a.bits as i32
        }
    }
}

} // verus!
