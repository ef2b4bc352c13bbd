//! Unsigned 256-bit integers.

use crate::be_bytes::{
    be_to_nat, bytes_all_zero, bytes_equal, lemma_be_to_nat_bound, lemma_be_to_nat_concat,
    lemma_be_to_nat_injective, lemma_be_to_nat_suffix, lemma_be_to_nat_zero,
    lemma_nat_to_be_of_be_to_nat, nat_to_be, pow256,
};
use crate::table::TableKey;
use vstd::arithmetic::div_mod::lemma_fundamental_div_mod_converse;
use vstd::prelude::*;
use vstd::std_specs::cmp::PartialEqSpecImpl;

verus! {

/// `2^256`, one more than the largest value a [`U256`] holds.
pub open spec fn u256_modulus() -> nat {
    pow256(32)
}

/// An unsigned 256-bit integer, held as its 32 big-endian bytes.
#[derive(Clone, Copy, Debug, Eq)]
pub struct U256 {
    bytes: [u8; 32],
}

impl View for U256 {
    type V = nat;

    /// The number held.
    closed spec fn view(&self) -> nat {
        be_to_nat(self.bytes@)
    }
}

impl PartialEq for U256 {
    fn eq(&self, other: &U256) -> (same: bool) {
        self.same_value(other)
    }
}

impl PartialEqSpecImpl for U256 {
    open spec fn obeys_eq_spec() -> bool {
        true
    }

    open spec fn eq_spec(&self, other: &U256) -> bool {
        self@ == other@
    }
}

impl TableKey for U256 {
    fn same_key(&self, other: &U256) -> (same: bool) {
        self.same_value(other)
    }
}

impl U256 {
    /// Every value is below `2^256`.
    pub proof fn lemma_in_range(self)
        ensures
            self@ < u256_modulus(),
    {
        lemma_be_to_nat_bound(self.bytes@);
    }

    /// Two values that denote the same number are the same value.
    pub proof fn lemma_view_injective(self, other: U256)
        requires
            self@ == other@,
        ensures
            self == other,
    {
        lemma_be_to_nat_injective(self.bytes@, other.bytes@);
        assert(self.bytes =~= other.bytes);
    }

    /// Whether two values denote the same number.
    fn same_value(&self, other: &U256) -> (same: bool)
        ensures
            same == (self@ == other@),
    {
        proof {
            if self@ == other@ {
                lemma_be_to_nat_injective(self.bytes@, other.bytes@);
            }
        }
        bytes_equal(&self.bytes, &other.bytes)
    }

    /// The value zero.
    pub fn zero() -> (r: U256)
        ensures
            r@ == 0,
    {
        let r = U256 { bytes: [0u8; 32] };
        proof {
            lemma_be_to_nat_zero(r.bytes@);
        }
        r
    }

    /// The value of a 64-bit integer.
    pub fn from_u64(x: u64) -> (r: U256)
        ensures
            r@ == x as nat,
    {
        let mut bytes = [0u8; 32];
        let mut rest: u64 = x;
        let mut i: usize = 0;
        proof {
            assert(bytes@.subrange(32, 32).len() == 0);
            assert(pow256(0) == 1);
        }
        while i < 8
            invariant
                i <= 8,
                forall|j: int| 0 <= j < 32 - i ==> bytes@[j] == 0,
                x as nat == rest as nat * pow256(i as nat) + be_to_nat(
                    bytes@.subrange(32 - i, 32),
                ),
            decreases 8 - i,
        {
            let ghost prev = bytes@;
            let digit: u8 = (rest % 256) as u8;
            bytes[31 - i] = digit;
            proof {
                let k = 31 - i;
                let p = pow256(i as nat);
                lemma_be_to_nat_suffix(bytes@, k);
                assert(bytes@.subrange(k + 1, 32) =~= prev.subrange(32 - i, 32));
                assert(rest as nat * p == (rest / 256) as nat * (256 * p) + digit as nat * p)
                    by (nonlinear_arith)
                    requires
                        rest as nat == (rest / 256) as nat * 256 + digit as nat,
                ;
                assert(pow256((i + 1) as nat) == 256 * p);
            }
            rest = rest / 256;
            i += 1;
        }
        proof {
            let prefix = bytes@.subrange(0, 24);
            let suffix = bytes@.subrange(24, 32);
            let p = pow256(8);
            assert(p == 0x1_0000_0000_0000_0000) by {
                reveal_with_fuel(pow256, 9);
            }
            assert(rest == 0) by (nonlinear_arith)
                requires
                    rest as nat * p <= x as nat,
                    x < 0x1_0000_0000_0000_0000,
                    p == 0x1_0000_0000_0000_0000,
            ;
            assert(bytes@ =~= prefix + suffix);
            lemma_be_to_nat_concat(prefix, suffix);
            lemma_be_to_nat_zero(prefix);
        }
        U256 { bytes }
    }

    /// The sum of two values, reduced modulo `2^256`.
    pub fn wrapping_add(self, rhs: U256) -> (sum: U256)
        ensures
            sum@ == (self@ + rhs@) % u256_modulus(),
    {
        let mut bytes = [0u8; 32];
        let mut carry: u16 = 0;
        let mut i: usize = 32;
        proof {
            assert(bytes@.subrange(32, 32).len() == 0);
            assert(self.bytes@.subrange(32, 32).len() == 0);
            assert(rhs.bytes@.subrange(32, 32).len() == 0);
        }
        while i > 0
            invariant
                i <= 32,
                carry <= 1,
                be_to_nat(bytes@.subrange(i as int, 32)) + carry as nat * pow256((32 - i) as nat)
                    == be_to_nat(self.bytes@.subrange(i as int, 32)) + be_to_nat(
                    rhs.bytes@.subrange(i as int, 32),
                ),
            decreases i,
        {
            let ghost prev = bytes@;
            let ghost carry_in = carry as nat;
            i -= 1;
            let a: u8 = self.bytes[i];
            let b: u8 = rhs.bytes[i];
            let t: u16 = a as u16 + b as u16 + carry;
            let digit: u8 = (t % 256) as u8;
            bytes[i] = digit;
            carry = t / 256;
            proof {
                let p = pow256((31 - i) as nat);
                lemma_be_to_nat_suffix(bytes@, i as int);
                lemma_be_to_nat_suffix(self.bytes@, i as int);
                lemma_be_to_nat_suffix(rhs.bytes@, i as int);
                assert(bytes@.subrange(i + 1, 32) =~= prev.subrange(i + 1, 32));
                assert(pow256((32 - i) as nat) == 256 * p);
                assert(digit as nat * p + carry as nat * (256 * p) == a as nat * p + b as nat * p
                    + carry_in * p) by (nonlinear_arith)
                    requires
                        digit as nat + 256 * carry as nat == a as nat + b as nat + carry_in,
                ;
            }
        }
        let sum = U256 { bytes };
        proof {
            assert(bytes@.subrange(0, 32) =~= bytes@);
            assert(self.bytes@.subrange(0, 32) =~= self.bytes@);
            assert(rhs.bytes@.subrange(0, 32) =~= rhs.bytes@);
            lemma_be_to_nat_bound(bytes@);
            lemma_fundamental_div_mod_converse(
                (self@ + rhs@) as int,
                u256_modulus() as int,
                carry as int,
                sum@ as int,
            );
        }
        sum
    }

    /// The value read from 32 big-endian bytes.
    pub fn from_be_bytes(bytes: [u8; 32]) -> (r: U256)
        ensures
            r@ == be_to_nat(bytes@),
    {
        U256 { bytes }
    }

    /// The value as 32 big-endian bytes.
    pub fn to_be_bytes(&self) -> (bytes: [u8; 32])
        ensures
            bytes@ == nat_to_be(self@, 32),
    {
        proof {
            lemma_nat_to_be_of_be_to_nat(self.bytes@);
        }
        self.bytes
    }

    /// Whether the value is zero.
    pub fn is_zero(&self) -> (zero: bool)
        ensures
            zero == (self@ == 0),
    {
        proof {
            lemma_be_to_nat_zero(self.bytes@);
        }
        bytes_all_zero(&self.bytes)
    }
}

} // verus!
