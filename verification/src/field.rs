//! Scalar field elements.
//!
//! A scalar is a canonical residue modulo the Goldilocks prime
//! `2^64 - 2^32 + 1`, the base field of the surrounding proof system.
//! Only the two operations the accumulator needs are provided: addition
//! and multiplication of residues.

use vstd::prelude::*;

verus! {

/// Order of the Goldilocks prime field, `2^64 - 2^32 + 1`.
pub const FIELD_ORDER: u64 = 0xFFFF_FFFF_0000_0001;

/// Field addition on residues.
pub open spec fn fe_add(a: int, b: int) -> int {
    (a + b) % (FIELD_ORDER as int)
}

/// Field multiplication on residues.
pub open spec fn fe_mul(a: int, b: int) -> int {
    (a * b) % (FIELD_ORDER as int)
}

/// A field element, held as its canonical residue.
#[derive(Clone, Copy, Debug, PartialEq, Eq, Structural)]
pub struct Fe {
    pub value: u64,
}

impl View for Fe {
    type V = int;

    open spec fn view(&self) -> int {
        self.value as int
    }
}

impl Fe {
    /// The residue is canonical.
    pub open spec fn valid(self) -> bool {
        self.value < FIELD_ORDER
    }

    pub fn new(value: u64) -> (r: Fe)
        requires
            value < FIELD_ORDER,
        ensures
            r.valid(),
            r@ == value,
    {
        Fe { value }
    }

    /// The additive identity.
    pub fn zero() -> (r: Fe)
        ensures
            r.valid(),
            r@ == 0,
    {
        Fe { value: 0 }
    }

    pub fn add(self, rhs: Fe) -> (r: Fe)
        requires
            self.valid(),
            rhs.valid(),
        ensures
            r.valid(),
            r@ == fe_add(self@, rhs@),
    {
        let sum: u128 = (self.value as u128) + (rhs.value as u128);
        let rem: u128 = sum % (FIELD_ORDER as u128);
        Fe { value: rem as u64 }
    }

    pub fn mul(self, rhs: Fe) -> (r: Fe)
        requires
            self.valid(),
            rhs.valid(),
        ensures
            r.valid(),
            r@ == fe_mul(self@, rhs@),
    {
        proof {
            vstd::arithmetic::mul::lemma_mul_upper_bound(
                self.value as int,
                0xFFFF_FFFF_FFFF_FFFF,
                rhs.value as int,
                0xFFFF_FFFF_FFFF_FFFF,
            );
        }
        let prod: u128 = (self.value as u128) * (rhs.value as u128);
        let rem: u128 = prod % (FIELD_ORDER as u128);
        Fe { value: rem as u64 }
    }
}

} // verus!
