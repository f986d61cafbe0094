//! Authorization model: a table mapping principals to a bit-set of roles,
//! with an open-access override for the Rpc role that is checked before the
//! bitmap lookup. Roles are additive; re-authorization OR-merges bits and
//! there is no role-removal operation.

use vstd::prelude::*;
use crate::principal::Principal;

verus! {

/// The roles a caller can hold.
#[derive(Clone, Copy, Debug, PartialEq, Eq, Structural)]
pub enum Auth {
    /// May administer the gateway: grant roles, remove any provider.
    Admin,
    /// May send JSON-RPC calls through the relay.
    Rpc,
    /// May register upstream providers.
    RegisterProvider,
    /// Is not charged cycles for JSON-RPC calls.
    FreeRpc,
}

/// The bit that stands for one role in a stored bit-set.
pub open spec fn spec_role_bit(auth: Auth) -> u32 {
    match auth {
        Auth::Admin => 1,
        Auth::Rpc => 2,
        Auth::RegisterProvider => 4,
        Auth::FreeRpc => 8,
    }
}

/// Executable counterpart of [`spec_role_bit`].
pub fn role_bit(auth: Auth) -> (b: u32)
    ensures
        b == spec_role_bit(auth),
{
    match auth {
        Auth::Admin => 1,
        Auth::Rpc => 2,
        Auth::RegisterProvider => 4,
        Auth::FreeRpc => 8,
    }
}

/// Whether a caller whose stored bit-set is `bits` holds `auth`, under the
/// given open-access configuration. When open access is on, the Rpc role is
/// granted to everyone before the bitmap is consulted.
pub open spec fn spec_has_role(open_rpc_access: bool, bits: u32, auth: Auth) -> bool {
    if auth is Rpc && open_rpc_access {
        true
    } else {
        bits & spec_role_bit(auth) != 0
    }
}

/// One row of the authorization table.
#[derive(Debug)]
pub struct AuthEntry {
    pub principal: Principal,
    pub bits: u32,
}

/// The role bits stored for `id` in `entries`: the bits of the first entry
/// whose principal is `id`, or zero when there is none.
pub open spec fn stored_bits(entries: Seq<AuthEntry>, id: Seq<u8>) -> u32
    decreases entries.len(),
{
    if entries.len() == 0 {
        0
    } else if entries[0].principal@ == id {
        entries[0].bits
    } else {
        stored_bits(entries.drop_first(), id)
    }
}

/// Whether some entry of `entries` is keyed by `id`.
pub open spec fn has_entry(entries: Seq<AuthEntry>, id: Seq<u8>) -> bool {
    exists|k: int| 0 <= k < entries.len() && entries[k].principal@ == id
}

/// An identity with no entry has zero stored bits.
proof fn lemma_stored_bits_absent(entries: Seq<AuthEntry>, id: Seq<u8>)
    requires
        !has_entry(entries, id),
    ensures
        stored_bits(entries, id) == 0,
    decreases entries.len(),
{
    if entries.len() > 0 {
        assert(entries[0].principal@ != id);
        assert(forall|k: int| 0 <= k < entries.drop_first().len()
            ==> entries.drop_first()[k] == entries[k + 1]);
        lemma_stored_bits_absent(entries.drop_first(), id);
    }
}

/// Looking up `id` skips over a prefix that holds no entry for `id`.
proof fn lemma_stored_bits_skip(entries: Seq<AuthEntry>, id: Seq<u8>, i: int)
    requires
        0 <= i <= entries.len(),
        forall|k: int| 0 <= k < i ==> entries[k].principal@ != id,
    ensures
        stored_bits(entries, id) == stored_bits(entries.skip(i), id),
    decreases i,
{
    if i > 0 {
        assert(entries.drop_first() =~= entries.skip(1));
        lemma_stored_bits_skip(entries.drop_first(), id, i - 1);
        assert(entries.drop_first().skip(i - 1) =~= entries.skip(i));
    } else {
        assert(entries.skip(0) =~= entries);
    }
}

/// Replacing the entry at `i` with one keyed by the same principal leaves the
/// bits of every other identity unchanged.
proof fn lemma_stored_bits_update_other(entries: Seq<AuthEntry>, i: int, e: AuthEntry, id: Seq<u8>)
    requires
        0 <= i < entries.len(),
        e.principal@ == entries[i].principal@,
        id != e.principal@,
    ensures
        stored_bits(entries.update(i, e), id) == stored_bits(entries, id),
    decreases entries.len(),
{
    let updated = entries.update(i, e);
    if i == 0 {
        assert(updated[0].principal@ != id);
        assert(entries[0].principal@ != id);
        assert(updated.drop_first() =~= entries.drop_first());
    } else {
        assert(updated[0] == entries[0]);
        if entries[0].principal@ != id {
            assert(updated.drop_first() =~= entries.drop_first().update(i - 1, e));
            lemma_stored_bits_update_other(entries.drop_first(), i - 1, e, id);
        }
    }
}

/// Appending an entry leaves the bits of every other identity unchanged, and
/// gives its own identity the appended bits when it had no entry before.
proof fn lemma_stored_bits_push(entries: Seq<AuthEntry>, e: AuthEntry, id: Seq<u8>)
    ensures
        id != e.principal@ ==> stored_bits(entries.push(e), id) == stored_bits(entries, id),
        id == e.principal@ && !has_entry(entries, id) ==> stored_bits(entries.push(e), id) == e.bits,
    decreases entries.len(),
{
    let pushed = entries.push(e);
    assert(pushed.len() == entries.len() + 1);
    if entries.len() == 0 {
        assert(pushed[0] == e);
        if id != e.principal@ {
            assert(pushed.drop_first() =~= Seq::<AuthEntry>::empty());
            assert(stored_bits(pushed, id) == stored_bits(Seq::<AuthEntry>::empty(), id));
            assert(stored_bits(Seq::<AuthEntry>::empty(), id) == 0);
            assert(stored_bits(entries, id) == 0);
        } else {
            assert(stored_bits(pushed, id) == e.bits);
        }
    } else {
        assert(pushed[0] == entries[0]);
        assert(pushed.drop_first() =~= entries.drop_first().push(e));
        if entries[0].principal@ != id {
            if id == e.principal@ && !has_entry(entries, id) {
                assert(forall|k: int| 0 <= k < entries.drop_first().len()
                    ==> entries.drop_first()[k] == entries[k + 1]);
                assert(!has_entry(entries.drop_first(), id));
            }
            lemma_stored_bits_push(entries.drop_first(), e, id);
            assert(stored_bits(pushed, id) == stored_bits(entries.drop_first().push(e), id));
            assert(stored_bits(entries, id) == stored_bits(entries.drop_first(), id));
        } else {
            assert(stored_bits(pushed, id) == entries[0].bits);
            assert(stored_bits(entries, id) == entries[0].bits);
        }
    }
}

/// The role table, keyed by principal.
#[derive(Debug)]
pub struct AuthTable {
    pub entries: Vec<AuthEntry>,
}

impl AuthTable {
    /// The bits this table stores for `id` (zero when absent).
    pub open spec fn auth_bits(&self, id: Seq<u8>) -> u32 {
        stored_bits(self.entries@, id)
    }

    /// An empty table: every identity has zero roles.
    pub fn new() -> (t: AuthTable)
        ensures
            forall|id: Seq<u8>| #[trigger] t.auth_bits(id) == 0,
            t.entries@.len() == 0,
    {
        AuthTable { entries: Vec::new() }
    }

    /// The index of the first entry keyed by `principal`, if any.
    fn find_index(&self, principal: &Principal) -> (r: Option<usize>)
        ensures
            match r {
                Some(i) => i < self.entries@.len() && self.entries@[i as int].principal@
                    == principal@ && forall|k: int|
                    0 <= k < i ==> self.entries@[k].principal@ != principal@,
                None => forall|k: int|
                    0 <= k < self.entries@.len() ==> self.entries@[k].principal@ != principal@,
            },
    {
        let n = self.entries.len();
        let mut i: usize = 0;
        while i < n
            invariant
                i <= n,
                n == self.entries@.len(),
                forall|k: int| 0 <= k < i ==> self.entries@[k].principal@ != principal@,
            decreases n - i,
        {
            if self.entries[i].principal.same_as(principal) {
                return Some(i);
            }
            i = i + 1;
        }
        None
    }

    /// The role bits stored for `principal` (zero when absent).
    pub fn get_bits(&self, principal: &Principal) -> (bits: u32)
        ensures
            bits == self.auth_bits(principal@),
    {
        match self.find_index(principal) {
            Some(i) => {
                proof {
                    lemma_stored_bits_skip(self.entries@, principal@, i as int);
                    assert(self.entries@.skip(i as int)[0] == self.entries@[i as int]);
                }
                self.entries[i].bits
            },
            None => {
                proof {
                    lemma_stored_bits_absent(self.entries@, principal@);
                }
                0
            },
        }
    }

    /// OR-merge `auth` into the bits stored for `principal`, creating the
    /// entry when absent. No bit is ever cleared, and no other identity is
    /// affected.
    pub fn authorize(&mut self, principal: &Principal, auth: Auth)
        ensures
            final(self).auth_bits(principal@) == old(self).auth_bits(principal@)
                | spec_role_bit(auth),
            forall|id: Seq<u8>| id != principal@
                ==> #[trigger] final(self).auth_bits(id) == old(self).auth_bits(id),
    {
        let bit = role_bit(auth);
        match self.find_index(principal) {
            Some(i) => {
                let ghost old_entries = self.entries@;
                let merged: u32 = self.entries[i].bits | bit;
                let entry = AuthEntry { principal: self.entries[i].principal.duplicate(), bits: merged };
                self.entries.set(i, entry);
                proof {
                    lemma_stored_bits_skip(old_entries, principal@, i as int);
                    assert(old_entries.skip(i as int)[0] == old_entries[i as int]);
                    lemma_stored_bits_skip(self.entries@, principal@, i as int);
                    assert(self.entries@.skip(i as int)[0] == self.entries@[i as int]);
                    assert forall|id: Seq<u8>| id != principal@ implies
                        #[trigger] final(self).auth_bits(id) == stored_bits(old_entries, id) by {
                        lemma_stored_bits_update_other(old_entries, i as int, entry, id);
                        assert(self.entries@ =~= old_entries.update(i as int, entry));
                    }
                }
            },
            None => {
                let ghost old_entries = self.entries@;
                let entry = AuthEntry { principal: principal.duplicate(), bits: bit };
                self.entries.push(entry);
                proof {
                    lemma_stored_bits_absent(old_entries, principal@);
                    lemma_stored_bits_push(old_entries, entry, principal@);
                    assert(final(self).auth_bits(principal@) == bit);
                    assert(0u32 | bit == bit) by (bit_vector);
                    assert forall|id: Seq<u8>| id != principal@ implies
                        #[trigger] final(self).auth_bits(id) == stored_bits(old_entries, id) by {
                        lemma_stored_bits_push(old_entries, entry, id);
                    }
                }
            },
        }
    }

    /// Whether `principal` holds `auth` under the given open-access setting.
    pub fn has_role(&self, open_rpc_access: bool, principal: &Principal, auth: Auth) -> (r: bool)
        ensures
            r == spec_has_role(open_rpc_access, self.auth_bits(principal@), auth),
    {
        let is_rpc = match auth {
            Auth::Rpc => true,
            _ => false,
        };
        if is_rpc && open_rpc_access {
            return true;
        }
        let bits = self.get_bits(principal);
        bits & role_bit(auth) != 0
    }
}

/// Admission check for administrative operations: the caller must hold Admin.
pub fn is_authorized(auth: &AuthTable, caller: &Principal) -> (r: Result<(), String>)
    ensures
        r is Ok <==> spec_has_role(false, auth.auth_bits(caller@), Auth::Admin),
        r matches Err(m) ==> m@ == "You are not authorized"@,
{
    if auth.has_role(false, caller, Auth::Admin) {
        Ok(())
    } else {
        Err("You are not authorized".to_owned())
    }
}

/// Admission check for provider management: the caller must hold
/// RegisterProvider.
pub fn is_authorized_register_provider(auth: &AuthTable, caller: &Principal) -> (r: Result<
    (),
    String,
>)
    ensures
        r is Ok <==> spec_has_role(false, auth.auth_bits(caller@), Auth::RegisterProvider),
        r matches Err(m) ==> m@ == "You are not authorized"@,
{
    if auth.has_role(false, caller, Auth::RegisterProvider) {
        Ok(())
    } else {
        Err("You are not authorized".to_owned())
    }
}

/// When open access is on, everyone holds the Rpc role, whatever their
/// stored bits.
pub proof fn lemma_open_access_grants_rpc(bits: u32)
    ensures
        spec_has_role(true, bits, Auth::Rpc),
{
}

/// Without the open-access override, an identity with no entry in the table
/// holds no role at all.
pub proof fn lemma_no_entry_no_role(entries: Seq<AuthEntry>, id: Seq<u8>, auth: Auth)
    requires
        !has_entry(entries, id),
        !(auth is Rpc),
    ensures
        !spec_has_role(true, stored_bits(entries, id), auth),
        !spec_has_role(false, stored_bits(entries, id), auth),
{
    lemma_stored_bits_absent(entries, id);
    let b = spec_role_bit(auth);
    assert(0u32 & b == 0) by (bit_vector);
}

/// Without the open-access override, an identity with no entry does not hold
/// Rpc either.
pub proof fn lemma_no_entry_no_rpc(entries: Seq<AuthEntry>, id: Seq<u8>)
    requires
        !has_entry(entries, id),
    ensures
        !spec_has_role(false, stored_bits(entries, id), Auth::Rpc),
{
    lemma_stored_bits_absent(entries, id);
    assert(0u32 & 2u32 == 0) by (bit_vector);
}

} // verus!
