//! The Goldilocks prime field, the scalar domain of the ledger circuit.
//!
//! An element is a single machine word below the prime
//! `P = 2^64 - 2^32 + 1`.  All arithmetic is performed modulo `P`.

use vstd::prelude::*;

verus! {

/// The Goldilocks prime, `2^64 - 2^32 + 1`.
pub const GOLDILOCKS_P: u64 = 18446744069414584321u64;

/// An element of the Goldilocks field: a canonical representative below `P`.
#[derive(Clone, Copy, PartialEq, Eq, Structural, Debug)]
pub struct Fp {
    pub value: u64,
}

/// Mathematical addition in the field.
pub open spec fn fp_add(a: int, b: int) -> int {
    (a + b) % (GOLDILOCKS_P as int)
}

/// Mathematical subtraction in the field.
pub open spec fn fp_sub(a: int, b: int) -> int {
    (a - b + GOLDILOCKS_P as int) % (GOLDILOCKS_P as int)
}

/// Mathematical multiplication in the field.
pub open spec fn fp_mul(a: int, b: int) -> int {
    (a * b) % (GOLDILOCKS_P as int)
}

/// Field addition, at the level of elements.
#[verifier::opaque]
pub open spec fn spec_fp_add(a: Fp, b: Fp) -> Fp {
    Fp { value: fp_add(a.value as int, b.value as int) as u64 }
}

/// Field multiplication, at the level of elements.
#[verifier::opaque]
pub open spec fn spec_fp_mul(a: Fp, b: Fp) -> Fp {
    Fp { value: fp_mul(a.value as int, b.value as int) as u64 }
}

impl Fp {
    /// A value is well formed when it is the canonical representative.
    pub open spec fn inv(self) -> bool {
        self.value < GOLDILOCKS_P
    }

    /// The integer this element stands for.
    pub open spec fn as_int(self) -> int {
        self.value as int
    }

    /// The zero element.
    pub fn zero() -> (r: Fp)
        ensures
            r.inv(),
            r.as_int() == 0,
    {
        Fp { value: 0 }
    }

    /// The one element.
    pub fn one() -> (r: Fp)
        ensures
            r.inv(),
            r.as_int() == 1,
    {
        Fp { value: 1 }
    }

    /// Reduce an arbitrary machine word into the field.
    pub fn from_u64(v: u64) -> (r: Fp)
        ensures
            r.inv(),
            r.as_int() == v as int % (GOLDILOCKS_P as int),
    {
        Fp { value: v % GOLDILOCKS_P }
    }

    /// The canonical representative as a machine word.
    pub fn to_u64(self) -> (r: u64)
        ensures
            r as int == self.as_int(),
    {
        self.value
    }

    /// Field addition.
    pub fn add(self, other: Fp) -> (r: Fp)
        requires
            self.inv(),
            other.inv(),
        ensures
            r.inv(),
            r.as_int() == fp_add(self.as_int(), other.as_int()),
            r == spec_fp_add(self, other),
    {
        proof {
            reveal(spec_fp_add);
        }
        let s: u128 = self.value as u128 + other.value as u128;
        if s >= GOLDILOCKS_P as u128 {
            Fp { value: (s - GOLDILOCKS_P as u128) as u64 }
        } else {
            Fp { value: s as u64 }
        }
    }

    /// Field subtraction.
    pub fn sub(self, other: Fp) -> (r: Fp)
        requires
            self.inv(),
            other.inv(),
        ensures
            r.inv(),
            r.as_int() == fp_sub(self.as_int(), other.as_int()),
    {
        if self.value >= other.value {
            Fp { value: self.value - other.value }
        } else {
            Fp { value: self.value + (GOLDILOCKS_P - other.value) }
        }
    }

    /// Field multiplication.
    pub fn mul(self, other: Fp) -> (r: Fp)
        requires
            self.inv(),
            other.inv(),
        ensures
            r.inv(),
            r.as_int() == fp_mul(self.as_int(), other.as_int()),
            r == spec_fp_mul(self, other),
    {
        proof {
            reveal(spec_fp_mul);
            vstd::arithmetic::mul::lemma_mul_upper_bound(
                self.value as int,
                0xffff_ffff_ffff_ffffint,
                other.value as int,
                0xffff_ffff_ffff_ffffint,
            );
        }
        let p: u128 = self.value as u128 * other.value as u128;
        let m: u128 = p % (GOLDILOCKS_P as u128);
        Fp { value: m as u64 }
    }

    /// `true` when this is the zero element.
    pub fn is_zero(self) -> (r: bool)
        ensures
            r == (self.as_int() == 0),
    {
        self.value == 0
    }
}

} // verus!
