//! Addresses: 64-bit values whose sum and difference wrap around.

use vstd::prelude::*;
use vstd::std_specs::convert::FromSpecImpl;
use vstd::std_specs::ops::AddSpecImpl;
use vstd::std_specs::ops::SubSpecImpl;

verus! {

/// An address in the address space of a binary.
#[derive(Clone, Copy, Debug, PartialEq, Eq, Structural)]
pub struct Addr(pub u64);

impl Addr {
    /// The sum of two addresses, modulo 2^64.
    pub open spec fn wrapping_sum(self, other: Addr) -> Addr {
        Addr(((self.0 as int + other.0 as int) % 0x1_0000_0000_0000_0000) as u64)
    }

    /// The difference of two addresses, modulo 2^64.
    pub open spec fn wrapping_diff(self, other: Addr) -> Addr {
        Addr(((self.0 as int - other.0 as int) % 0x1_0000_0000_0000_0000) as u64)
    }
}

impl core::ops::Add for Addr {
    type Output = Addr;

    fn add(self, other: Addr) -> (sum: Addr) {
        Addr(self.0.wrapping_add(other.0))
    }
}

impl AddSpecImpl for Addr {
    open spec fn obeys_add_spec() -> bool {
        true
    }

    open spec fn add_req(self, other: Addr) -> bool {
        true
    }

    open spec fn add_spec(self, other: Addr) -> Addr {
        self.wrapping_sum(other)
    }
}

impl core::ops::Sub for Addr {
    type Output = Addr;

    fn sub(self, other: Addr) -> (diff: Addr) {
        Addr(self.0.wrapping_sub(other.0))
    }
}

impl SubSpecImpl for Addr {
    open spec fn obeys_sub_spec() -> bool {
        true
    }

    open spec fn sub_req(self, other: Addr) -> bool {
        true
    }

    open spec fn sub_spec(self, other: Addr) -> Addr {
        self.wrapping_diff(other)
    }
}

impl Default for Addr {
    fn default() -> (a: Addr)
        ensures
            a == Addr(0),
    {
        Addr(0)
    }
}

impl From<u64> for Addr {
    fn from(n: u64) -> (a: Addr) {
        Addr(n)
    }
}

impl FromSpecImpl<u64> for Addr {
    open spec fn obeys_from_spec() -> bool {
        true
    }

    open spec fn from_spec(n: u64) -> Addr {
        Addr(n)
    }
}

/// Adding an address and taking it away again gives back the start.
pub proof fn lemma_add_then_sub(a: Addr, b: Addr)
    ensures
        a.wrapping_sum(b).wrapping_diff(b) == a,
{
}

} // verus!
