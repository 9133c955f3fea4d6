//! 256-bit unsigned token amounts, held as four 64-bit limbs.

use vstd::prelude::*;

verus! {

/// `2^64`, the weight of the second limb.
pub open spec fn pow_2_64() -> int {
    0x1_0000_0000_0000_0000
}

/// `2^128`, the weight of the third limb.
pub open spec fn pow_2_128() -> int {
    0x1_0000_0000_0000_0000_0000_0000_0000_0000int
}

/// `2^192`, the weight of the fourth limb.
pub open spec fn pow_2_192() -> int {
    0x1_0000_0000_0000_0000_0000_0000_0000_0000_0000_0000_0000_0000int
}

/// `2^256`, one more than the largest representable amount.
pub open spec fn pow_2_256() -> int {
    0x1_0000_0000_0000_0000_0000_0000_0000_0000_0000_0000_0000_0000_0000_0000_0000_0000int
}

/// A 256-bit unsigned integer, the amount type of the token ledger.
/// Limb `l0` is the least significant.
#[derive(Clone, Copy, PartialEq, Eq, Structural, Debug)]
pub struct U256 {
    /// Bits 0..64.
    pub l0: u64,
    /// Bits 64..128.
    pub l1: u64,
    /// Bits 128..192.
    pub l2: u64,
    /// Bits 192..256.
    pub l3: u64,
}

impl U256 {
    /// The amount as a mathematical integer in `[0, 2^256)`.
    pub open spec fn value(self) -> int {
        self.l0 + self.l1 * pow_2_64() + self.l2 * pow_2_128() + self.l3 * pow_2_192()
    }

    /// The zero amount.
    pub fn zero() -> (r: U256)
        ensures
            r.value() == 0,
    {
        U256 { l0: 0, l1: 0, l2: 0, l3: 0 }
    }

    /// The amount with the given low 64 bits and zero elsewhere.
    pub fn from_u64(x: u64) -> (r: U256)
        ensures
            r.value() == x,
    {
        U256 { l0: x, l1: 0, l2: 0, l3: 0 }
    }

    /// Addition, reported as `None` exactly when the mathematical sum does
    /// not fit in 256 bits.
    pub fn checked_add(self, other: U256) -> (r: Option<U256>)
        ensures
            self.value() + other.value() < pow_2_256() ==> (r matches Some(s)
                && s.value() == self.value() + other.value()),
            self.value() + other.value() >= pow_2_256() ==> r is None,
    {
        let s0: u128 = self.l0 as u128 + other.l0 as u128;
        let c0: u128 = if s0 >= 0x1_0000_0000_0000_0000 { 1 } else { 0 };
        let r0: u64 = (s0 - c0 * 0x1_0000_0000_0000_0000) as u64;

        let s1: u128 = self.l1 as u128 + other.l1 as u128 + c0;
        let c1: u128 = if s1 >= 0x1_0000_0000_0000_0000 { 1 } else { 0 };
        let r1: u64 = (s1 - c1 * 0x1_0000_0000_0000_0000) as u64;

        let s2: u128 = self.l2 as u128 + other.l2 as u128 + c1;
        let c2: u128 = if s2 >= 0x1_0000_0000_0000_0000 { 1 } else { 0 };
        let r2: u64 = (s2 - c2 * 0x1_0000_0000_0000_0000) as u64;

        let s3: u128 = self.l3 as u128 + other.l3 as u128 + c2;
        let c3: u128 = if s3 >= 0x1_0000_0000_0000_0000 { 1 } else { 0 };
        let r3: u64 = (s3 - c3 * 0x1_0000_0000_0000_0000) as u64;

        let out = U256 { l0: r0, l1: r1, l2: r2, l3: r3 };
        proof {
            assert(0 <= s0 - c0 * pow_2_64() < pow_2_64());
            assert(r0 == s0 - c0 * pow_2_64());
            assert(0 <= s1 - c1 * pow_2_64() < pow_2_64());
            assert(r1 == s1 - c1 * pow_2_64());
            assert(0 <= s2 - c2 * pow_2_64() < pow_2_64());
            assert(r2 == s2 - c2 * pow_2_64());
            assert(0 <= s3 - c3 * pow_2_64() < pow_2_64());
            assert(r3 == s3 - c3 * pow_2_64());
            assert(self.value() + other.value() == out.value() + c3 * pow_2_256());
        }
        if c3 == 0 {
            Some(out)
        } else {
            None
        }
    }

    /// Addition of amounts whose sum is known to fit in 256 bits.
    pub fn add(self, other: U256) -> (r: U256)
        requires
            self.value() + other.value() < pow_2_256(),
        ensures
            r.value() == self.value() + other.value(),
    {
        match self.checked_add(other) {
            Some(r) => r,
            None => unreached(),
        }
    }
}

} // verus!
