//! 160-bit account addresses, held as two plain integers.

use vstd::prelude::*;

verus! {

/// `16^n`: the weight of the `n`-th hexadecimal digit from the right.
pub open spec fn pow16(n: nat) -> int
    decreases n,
{
    if n == 0 {
        1
    } else {
        16 * pow16((n - 1) as nat)
    }
}

proof fn lemma_pow16_pos(n: nat)
    ensures
        pow16(n) >= 1,
    decreases n,
{
    if n > 0 {
        lemma_pow16_pos((n - 1) as nat);
    }
}

#[verifier::rlimit(50)]
proof fn lemma_pow16_8()
    ensures
        pow16(8) == 0x1_0000_0000,
{
    reveal_with_fuel(pow16, 9);
}

#[verifier::rlimit(50)]
proof fn lemma_pow16_32()
    ensures
        pow16(32) == 0x1_0000_0000_0000_0000_0000_0000_0000_0000int,
{
    reveal_with_fuel(pow16, 33);
}

proof fn lemma_pow16_increases(a: nat, b: nat)
    requires
        a <= b,
    ensures
        pow16(a) <= pow16(b),
    decreases b,
{
    if a < b {
        lemma_pow16_increases(a, (b - 1) as nat);
        lemma_pow16_pos((b - 1) as nat);
    }
}

/// Whether `c` is an ASCII hexadecimal digit.
pub open spec fn is_hex_digit(c: char) -> bool {
    (48 <= c as u32 && c as u32 <= 57) || (97 <= c as u32 && c as u32 <= 102) || (65 <= c as u32
        && c as u32 <= 70)
}

/// The numeric value of the hexadecimal digit `c`.
pub open spec fn hex_digit_value(c: char) -> int {
    if 48 <= c as u32 && c as u32 <= 57 {
        c as u32 - 48
    } else if 97 <= c as u32 && c as u32 <= 102 {
        c as u32 - 87
    } else {
        c as u32 - 55
    }
}

/// The value of `s` read as a big-endian hexadecimal numeral.
pub open spec fn hex_value(s: Seq<char>) -> int
    decreases s.len(),
{
    if s.len() == 0 {
        0
    } else {
        hex_value(s.drop_last()) * 16 + hex_digit_value(s.last())
    }
}

proof fn lemma_hex_value_split(s: Seq<char>, k: int)
    requires
        0 <= k <= s.len(),
    ensures
        hex_value(s) == hex_value(s.subrange(0, k)) * pow16((s.len() - k) as nat) + hex_value(
            s.subrange(k, s.len() as int),
        ),
    decreases s.len(),
{
    if k == s.len() {
        assert(s.subrange(0, k) =~= s);
        assert(s.subrange(k, s.len() as int).len() == 0);
        assert(pow16((s.len() - k) as nat) == 1);
        assert(hex_value(s.subrange(k, s.len() as int)) == 0);
        assert(hex_value(s.subrange(0, k)) * 1 == hex_value(s.subrange(0, k)));
    } else {
        let t = s.drop_last();
        lemma_hex_value_split(t, k);
        assert(t.subrange(0, k) =~= s.subrange(0, k));
        let tail = s.subrange(k, s.len() as int);
        assert(tail.len() > 0);
        assert(tail.drop_last() =~= t.subrange(k, t.len() as int));
        assert(tail.last() == s.last());
        let a = hex_value(s.subrange(0, k));
        let p = pow16((t.len() - k) as nat);
        assert(pow16((s.len() - k) as nat) == 16 * p);
        assert(a * p * 16 == a * (16 * p)) by (nonlinear_arith);
        assert(hex_value(s) == hex_value(t) * 16 + hex_digit_value(s.last()));
        assert(hex_value(t) == a * p + hex_value(t.subrange(k, t.len() as int)));
        assert(hex_value(tail) == hex_value(t.subrange(k, t.len() as int)) * 16 + hex_digit_value(
            s.last(),
        ));
        assert(hex_value(s) == a * (16 * p) + hex_value(tail));
    }
}

/// Reads `d` as the value of the hexadecimal digit `c`, or nothing where `c`
/// is no such digit.
fn hex_digit_of(c: char) -> (r: Option<u8>)
    ensures
        is_hex_digit(c) ==> (r matches Some(d) && d == hex_digit_value(c)),
        !is_hex_digit(c) ==> r is None,
{
    let u = c as u32;
    if 48 <= u && u <= 57 {
        Some((u - 48) as u8)
    } else if 97 <= u && u <= 102 {
        Some((u - 87) as u8)
    } else if 65 <= u && u <= 70 {
        Some((u - 55) as u8)
    } else {
        None
    }
}

/// A 160-bit Ethereum-style account address. The value is split into the
/// upper 32 bits and the lower 128 bits so that every bit is a plain integer
/// field.
#[derive(Clone, Copy, PartialEq, Eq, Structural, Debug)]
pub struct Address {
    /// The most significant 32 bits of the address.
    pub hi: u32,
    /// The least significant 128 bits of the address.
    pub lo: u128,
}

impl Address {
    /// The address as a mathematical integer in `[0, 2^160)`.
    pub open spec fn value(self) -> int {
        self.hi * 0x1_0000_0000_0000_0000_0000_0000_0000_0000 + self.lo
    }

    /// The address is determined by its integer value.
    pub proof fn lemma_value_injective(self, other: Address)
        ensures
            self.value() == other.value() <==> self == other,
    {
    }

    /// The all-zero address, which the ledger rejects as a mint receiver.
    pub fn zero() -> (r: Address)
        ensures
            r.value() == 0,
            r == (Address { hi: 0, lo: 0 }),
    {
        Address { hi: 0, lo: 0 }
    }

    /// Whether this is the all-zero address.
    pub fn is_zero(&self) -> (r: bool)
        ensures
            r <==> self.value() == 0,
    {
        self.hi == 0 && self.lo == 0
    }

    /// Parses forty hexadecimal digits, most significant first, as an
    /// address: what an address literal in source text holds. Anything else
    /// is rejected.
    pub fn from_hex(s: &str) -> (r: Option<Address>)
        ensures
            (r is Some) <==> (s@.len() == 40 && (forall|i: int|
                0 <= i < s@.len() ==> is_hex_digit(s@[i]))),
            r matches Some(a) ==> a.value() == hex_value(s@),
    {
        let n = s.unicode_len();
        if n != 40 {
            return None;
        }
        let mut hi: u32 = 0;
        let mut i: usize = 0;
        while i < 8
            invariant
                s@.len() == 40,
                0 <= i <= 8,
                forall|j: int| 0 <= j < i ==> is_hex_digit(s@[j]),
                hi == hex_value(s@.subrange(0, i as int)),
                hi < pow16(i as nat),
            decreases 8 - i,
        {
            let c = s.get_char(i);
            match hex_digit_of(c) {
                None => {
                    proof {
                        assert(!is_hex_digit(s@[i as int]));
                    }
                    return None;
                },
                Some(d) => {
                    proof {
                        let pre = s@.subrange(0, i as int);
                        let ext = s@.subrange(0, i + 1);
                        assert(ext.drop_last() =~= pre);
                        assert(ext.last() == s@[i as int]);
                        assert(pow16((i + 1) as nat) == 16 * pow16(i as nat));
                        lemma_pow16_increases((i + 1) as nat, 8);
                        lemma_pow16_8();
                    }
                    hi = hi * 16 + d as u32;
                    i += 1;
                },
            }
        }
        let mut lo: u128 = 0;
        while i < 40
            invariant
                s@.len() == 40,
                8 <= i <= 40,
                forall|j: int| 0 <= j < i ==> is_hex_digit(s@[j]),
                hi == hex_value(s@.subrange(0, 8)),
                lo == hex_value(s@.subrange(8, i as int)),
                lo < pow16((i - 8) as nat),
            decreases 40 - i,
        {
            let c = s.get_char(i);
            match hex_digit_of(c) {
                None => {
                    proof {
                        assert(!is_hex_digit(s@[i as int]));
                    }
                    return None;
                },
                Some(d) => {
                    proof {
                        let pre = s@.subrange(8, i as int);
                        let ext = s@.subrange(8, i + 1);
                        assert(ext.drop_last() =~= pre);
                        assert(ext.last() == s@[i as int]);
                        assert(pow16((i + 1 - 8) as nat) == 16 * pow16((i - 8) as nat));
                        lemma_pow16_increases((i + 1 - 8) as nat, 32);
                        lemma_pow16_32();
                    }
                    lo = lo * 16 + d as u128;
                    i += 1;
                },
            }
        }
        let a = Address { hi, lo };
        proof {
            lemma_hex_value_split(s@, 8);
            lemma_pow16_32();
            assert(s@.subrange(8, 40) =~= s@.subrange(8, s@.len() as int));
        }
        Some(a)
    }
}

} // verus!
