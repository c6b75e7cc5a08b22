//! A concrete prime field for circuit witnesses.
//!
//! The engine only needs a capability set {add, multiply, negate, additive
//! identity, multiplicative identity, equality} from its scalar type, so a
//! single 64-bit prime field is used throughout: the modulus is the prime
//! `2^64 - 2^32 + 1`, whose elements fit in a `u64` and whose products fit
//! in a `u128`.

use vstd::prelude::*;

verus! {

/// The field modulus, the prime `2^64 - 2^32 + 1`.
pub const P: u64 = 0xffff_ffff_0000_0001;

/// A field element, kept reduced: `v < P`.
#[derive(Clone, Copy, Debug, PartialEq, Eq, Structural)]
pub struct Fp {
    pub v: u64,
}

impl Fp {
    /// A value is well formed when it is fully reduced.
    pub open spec fn wf(self) -> bool {
        self.v < P
    }

    pub open spec fn spec_add(self, other: Fp) -> Fp {
        Fp { v: ((self.v + other.v) % (P as int)) as u64 }
    }

    pub open spec fn spec_mul(self, other: Fp) -> Fp {
        Fp { v: ((self.v * other.v) % (P as int)) as u64 }
    }

    pub open spec fn spec_neg(self) -> Fp {
        Fp { v: if self.v == 0 { 0u64 } else { (P - self.v) as u64 } }
    }

    pub open spec fn spec_from(x: u64) -> Fp {
        Fp { v: ((x as int) % (P as int)) as u64 }
    }

    /// The additive identity.
    pub fn zero() -> (r: Fp)
        ensures
            r == (Fp { v: 0u64 }),
            r.wf(),
    {
        Fp { v: 0 }
    }

    /// The multiplicative identity.
    pub fn one() -> (r: Fp)
        ensures
            r == (Fp { v: 1u64 }),
            r.wf(),
    {
        Fp { v: 1 }
    }

    /// Reduces an arbitrary 64-bit integer into the field.
    pub fn from_u64(x: u64) -> (r: Fp)
        ensures
            r == Fp::spec_from(x),
            r.wf(),
    {
        Fp { v: x % P }
    }

    /// Field addition, reduced modulo `P`.
    pub fn add(self, other: Fp) -> (r: Fp)
        requires
            self.wf(),
            other.wf(),
        ensures
            r == self.spec_add(other),
            r.wf(),
    {
        let s: u128 = self.v as u128 + other.v as u128;
        let m: u128 = s % (P as u128);
        Fp { v: m as u64 }
    }

    /// Field multiplication, reduced modulo `P`.
    pub fn mul(self, other: Fp) -> (r: Fp)
        requires
            self.wf(),
            other.wf(),
        ensures
            r == self.spec_mul(other),
            r.wf(),
    {
        assert((self.v as int) * (other.v as int) <= (P - 1) as int * ((P - 1) as int))
            by (nonlinear_arith)
            requires
                self.v < P,
                other.v < P,
        ;
        let s: u128 = self.v as u128 * other.v as u128;
        let m: u128 = s % (P as u128);
        Fp { v: m as u64 }
    }

    /// The additive inverse.
    pub fn neg(self) -> (r: Fp)
        requires
            self.wf(),
        ensures
            r == self.spec_neg(),
            r.wf(),
    {
        if self.v == 0 {
            Fp { v: 0 }
        } else {
            Fp { v: P - self.v }
        }
    }
}

/// A witness value: either a concrete field element, or still unknown, as in
/// a shape-only synthesis run that carries no witness data.
#[derive(Clone, Copy, Debug, PartialEq, Eq, Structural)]
pub enum FpValue {
    Unknown,
    Known(Fp),
}

impl FpValue {
    pub open spec fn wf(self) -> bool {
        match self {
            FpValue::Unknown => true,
            FpValue::Known(f) => f.wf(),
        }
    }

    pub open spec fn spec_add(self, other: FpValue) -> FpValue {
        match (self, other) {
            (FpValue::Known(a), FpValue::Known(b)) => FpValue::Known(a.spec_add(b)),
            _ => FpValue::Unknown,
        }
    }

    pub open spec fn spec_mul(self, other: FpValue) -> FpValue {
        match (self, other) {
            (FpValue::Known(a), FpValue::Known(b)) => FpValue::Known(a.spec_mul(b)),
            _ => FpValue::Unknown,
        }
    }

    /// Adds two witness values; the result is unknown if either input is.
    pub fn add(self, other: FpValue) -> (r: FpValue)
        requires
            self.wf(),
            other.wf(),
        ensures
            r == self.spec_add(other),
            r.wf(),
    {
        match (self, other) {
            (FpValue::Known(a), FpValue::Known(b)) => FpValue::Known(a.add(b)),
            _ => FpValue::Unknown,
        }
    }

    /// Multiplies two witness values; the result is unknown if either input is.
    pub fn mul(self, other: FpValue) -> (r: FpValue)
        requires
            self.wf(),
            other.wf(),
        ensures
            r == self.spec_mul(other),
            r.wf(),
    {
        match (self, other) {
            (FpValue::Known(a), FpValue::Known(b)) => FpValue::Known(a.mul(b)),
            _ => FpValue::Unknown,
        }
    }
}

} // verus!
