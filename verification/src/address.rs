//! Account identifiers.

use crate::be_bytes::{bytes_all_zero, bytes_equal};
use crate::table::TableKey;
use vstd::prelude::*;
use vstd::std_specs::cmp::PartialEqSpecImpl;

verus! {

/// The identifier that stands for "no account": twenty zero bytes.
pub open spec fn zero_address() -> Seq<u8> {
    Seq::new(20, |i: int| 0u8)
}

/// A 20-byte account identifier.
#[derive(Clone, Copy, Debug, Eq)]
pub struct Address {
    bytes: [u8; 20],
}

impl View for Address {
    type V = Seq<u8>;

    /// The twenty bytes of the identifier.
    closed spec fn view(&self) -> Seq<u8> {
        self.bytes@
    }
}

impl PartialEq for Address {
    fn eq(&self, other: &Address) -> (same: bool) {
        bytes_equal(&self.bytes, &other.bytes)
    }
}

impl PartialEqSpecImpl for Address {
    open spec fn obeys_eq_spec() -> bool {
        true
    }

    open spec fn eq_spec(&self, other: &Address) -> bool {
        self@ == other@
    }
}

impl TableKey for Address {
    fn same_key(&self, other: &Address) -> (same: bool) {
        bytes_equal(&self.bytes, &other.bytes)
    }
}

impl Address {
    /// Every identifier has twenty bytes.
    pub proof fn lemma_len(self)
        ensures
            self@.len() == 20,
    {
    }

    /// Two identifiers with the same bytes are the same identifier.
    pub proof fn lemma_view_injective(self, other: Address)
        requires
            self@ == other@,
        ensures
            self == other,
    {
        assert(self.bytes =~= other.bytes);
    }

    /// The zero identifier.
    pub fn zero() -> (r: Address)
        ensures
            r@ == zero_address(),
    {
        let r = Address { bytes: [0u8; 20] };
        assert(r.bytes@ =~= zero_address());
        r
    }

    /// The identifier with the given bytes.
    pub fn from_bytes(bytes: [u8; 20]) -> (r: Address)
        ensures
            r@ == bytes@,
    {
        Address { bytes }
    }

    /// The bytes of the identifier.
    pub fn to_bytes(&self) -> (bytes: [u8; 20])
        ensures
            bytes@ == self@,
    {
        self.bytes
    }

    /// Whether this is the zero identifier.
    pub fn is_zero(&self) -> (zero: bool)
        ensures
            zero == (self@ == zero_address()),
    {
        let zero = bytes_all_zero(&self.bytes);
        proof {
            if zero {
                assert(self.bytes@ =~= zero_address());
            } else {
                let j = choose|j: int| 0 <= j < 20 && self.bytes@[j] != 0;
                assert(zero_address()[j] == 0);
            }
        }
        zero
    }
}

} // verus!
