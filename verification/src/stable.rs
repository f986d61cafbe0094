//! Raw persistent-storage access: who may read and write it, and how many
//! pages a write needs.

use vstd::prelude::*;
use crate::principal::Principal;

verus! {

/// A persistent-memory page, in bytes.
pub const WASM_PAGE_SIZE: u64 = 65536;

/// The identities permitted to read and write raw persistent storage. An
/// independent tier from the role table, keyed the same way.
#[derive(Debug)]
pub struct StableAuthSet {
    pub principals: Vec<Principal>,
}

impl StableAuthSet {
    /// Whether `id` is in the set.
    pub open spec fn spec_contains(&self, id: Seq<u8>) -> bool {
        exists|k: int| 0 <= k < self.principals@.len() && self.principals@[k]@ == id
    }

    /// An empty set: nobody is stable-authorized.
    pub fn new() -> (s: StableAuthSet)
        ensures
            forall|id: Seq<u8>| !(#[trigger] s.spec_contains(id)),
            s.principals@.len() == 0,
    {
        StableAuthSet { principals: Vec::new() }
    }

    /// Whether `principal` is in the set.
    pub fn contains(&self, principal: &Principal) -> (r: bool)
        ensures
            r == self.spec_contains(principal@),
    {
        let n = self.principals.len();
        let mut i: usize = 0;
        while i < n
            invariant
                i <= n,
                n == self.principals@.len(),
                forall|k: int| 0 <= k < i ==> self.principals@[k]@ != principal@,
            decreases n - i,
        {
            if self.principals[i].same_as(principal) {
                return true;
            }
            i = i + 1;
        }
        false
    }

    /// Add `principal` to the set. Nobody else's membership changes.
    pub fn insert(&mut self, principal: Principal)
        ensures
            forall|id: Seq<u8>|
                #[trigger] final(self).spec_contains(id) <==> (old(self).spec_contains(id) || id
                    == principal@),
    {
        let ghost old_members = self.principals@;
        self.principals.push(principal);
        proof {
            assert forall|id: Seq<u8>|
                #[trigger] self.spec_contains(id) <==> (exists|k: int|
                    0 <= k < old_members.len() && old_members[k]@ == id) || id == principal@ by {
                if self.spec_contains(id) {
                    let k = choose|k: int|
                        0 <= k < self.principals@.len() && self.principals@[k]@ == id;
                    if k < old_members.len() {
                        assert(old_members[k]@ == id);
                    }
                } else {
                    assert(self.principals@[old_members.len() as int]@ == principal@);
                    assert(forall|k: int|
                        0 <= k < old_members.len() ==> self.principals@[k] == old_members[k]);
                }
            }
        }
    }
}

/// Gate for the raw storage operations: the caller must already be in the
/// set. A fresh deployment's first caller is let in through
/// [`crate::relay::GatewayState::bootstrap`], not through this gate.
pub fn is_stable_authorized(set: &StableAuthSet, caller: &Principal) -> (r: Result<(), String>)
    ensures
        r is Ok <==> set.spec_contains(caller@),
        r matches Err(m) ==> m@ == "You are not stable authorized"@,
{
    if set.contains(caller) {
        Ok(())
    } else {
        Err("You are not stable authorized".to_owned())
    }
}

/// How many pages the persistent memory must grow by so that a write of
/// `len` bytes at `offset` fits, given that `old_size` bytes (a whole number
/// of pages) are allocated. Zero when the write already fits; otherwise the
/// difference between the pages needed and the pages held. Growing by the
/// result always makes the write fit.
pub fn stable_growth_pages(offset: u64, len: u64, old_size: u64) -> (pages: u64)
    requires
        offset + len + (WASM_PAGE_SIZE - 1) <= u64::MAX,
        old_size % WASM_PAGE_SIZE == 0,
    ensures
        offset + len <= old_size ==> pages == 0,
        offset + len > old_size ==> pages == (offset + len + (WASM_PAGE_SIZE - 1)) as u64
            / WASM_PAGE_SIZE - old_size / WASM_PAGE_SIZE,
        old_size + pages * WASM_PAGE_SIZE >= offset + len,
{
    let size = offset + len;
    if size > old_size {
        let old_pages = old_size / WASM_PAGE_SIZE;
        let needed_pages = (size + (WASM_PAGE_SIZE - 1)) / WASM_PAGE_SIZE;
        proof {
            let s = size as int;
            let w = WASM_PAGE_SIZE as int;
            let np = needed_pages as int;
            let op = old_pages as int;
            let os = old_size as int;
            assert(np == (s + w - 1) / w);
            assert(op == os / w);
            assert(op * w == os) by (nonlinear_arith)
                requires
                    os % w == 0,
                    op == os / w,
                    w == 65536,
                    os >= 0,
            ;
            assert(np * w >= s) by (nonlinear_arith)
                requires
                    np == (s + w - 1) / w,
                    w == 65536,
                    s >= 0,
            ;
            assert(np >= op) by (nonlinear_arith)
                requires
                    np * w >= s,
                    op * w == os,
                    s > os,
                    w == 65536,
            ;
            assert((np - op) * w == np * w - op * w) by (nonlinear_arith);
            assert(os + (np - op) * w >= s);
        }
        needed_pages - old_pages
    } else {
        0
    }
}

} // verus!
