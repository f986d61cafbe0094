//! Caller identities. A principal is an opaque, comparable identifier carried
//! as raw bytes; it keys the authorization table and records provider
//! ownership.

use vstd::prelude::*;

verus! {

/// An opaque caller identity: the raw bytes of a principal.
#[derive(Debug)]
pub struct Principal {
    pub bytes: Vec<u8>,
}

impl View for Principal {
    type V = Seq<u8>;

    open spec fn view(&self) -> Seq<u8> {
        self.bytes@
    }
}

impl Principal {
    /// A principal made of the given bytes.
    pub fn from_bytes(bytes: Vec<u8>) -> (p: Principal)
        ensures
            p@ == bytes@,
    {
        Principal { bytes }
    }

    /// Whether two principals are the same identity, byte for byte.
    pub fn same_as(&self, other: &Principal) -> (r: bool)
        ensures
            r == (self@ == other@),
    {
        if self.bytes.len() != other.bytes.len() {
            assert(self@ != other@);
            return false;
        }
        let n = self.bytes.len();
        let mut i: usize = 0;
        while i < n
            invariant
                i <= n,
                n == self.bytes.len(),
                n == other.bytes.len(),
                forall|k: int| 0 <= k < i ==> self@[k] == other@[k],
            decreases n - i,
        {
            if self.bytes[i] != other.bytes[i] {
                assert(self@[i as int] != other@[i as int]);
                return false;
            }
            i = i + 1;
        }
        proof {
            assert(self@ =~= other@);
        }
        true
    }

    /// A copy of this principal with the same bytes.
    pub fn duplicate(&self) -> (p: Principal)
        ensures
            p@ == self@,
    {
        let n = self.bytes.len();
        let mut bytes: Vec<u8> = Vec::new();
        let mut i: usize = 0;
        while i < n
            invariant
                i <= n,
                n == self.bytes.len(),
                bytes@ =~= self@.take(i as int),
            decreases n - i,
        {
            bytes.push(self.bytes[i]);
            i = i + 1;
        }
        proof {
            assert(bytes@ =~= self@);
        }
        Principal { bytes }
    }
}

} // verus!
