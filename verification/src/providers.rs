//! Provider registry: records of registered upstream endpoints, each with an
//! owner, a fee schedule and an accrued cycles balance, plus the metadata
//! counter from which provider identifiers are assigned. Identifiers are
//! strictly increasing and never reused.

use vstd::prelude::*;
use crate::principal::Principal;

verus! {

/// A registered upstream endpoint.
#[derive(Debug)]
pub struct Provider {
    pub provider_id: u64,
    pub owner: Principal,
    pub chain_id: u64,
    pub service_url: String,
    /// Secret key material appended to the service URL at call time.
    pub api_key: String,
    pub cycles_per_call: u64,
    pub cycles_per_message_byte: u64,
    /// Accrued, unwithdrawn fees.
    pub cycles_owed: u128,
}

/// The public view of a provider: every field but the secret key.
#[derive(Debug)]
pub struct RegisteredProvider {
    pub provider_id: u64,
    pub owner: Principal,
    pub chain_id: u64,
    pub service_url: String,
    pub cycles_per_call: u64,
    pub cycles_per_message_byte: u64,
}

/// What a caller submits to register a provider.
#[derive(Debug)]
pub struct RegisterProvider {
    pub chain_id: u64,
    pub service_url: String,
    pub api_key: String,
    pub cycles_per_call: u64,
    pub cycles_per_message_byte: u64,
}

/// The record stored for `id` in `s`: the first record with that identifier,
/// or nothing.
pub open spec fn spec_find(s: Seq<Provider>, id: u64) -> Option<Provider>
    decreases s.len(),
{
    if s.len() == 0 {
        None
    } else if s[0].provider_id == id {
        Some(s[0])
    } else {
        spec_find(s.drop_first(), id)
    }
}

/// Whether some record in `s` carries `id`.
pub open spec fn spec_has(s: Seq<Provider>, id: u64) -> bool {
    exists|k: int| 0 <= k < s.len() && s[k].provider_id == id
}

/// `q` is `p` with its accrued balance replaced by `owed`.
pub open spec fn same_but_owed(p: Provider, q: Provider, owed: u128) -> bool {
    &&& q.provider_id == p.provider_id
    &&& q.owner@ == p.owner@
    &&& q.chain_id == p.chain_id
    &&& q.service_url@ == p.service_url@
    &&& q.api_key@ == p.api_key@
    &&& q.cycles_per_call == p.cycles_per_call
    &&& q.cycles_per_message_byte == p.cycles_per_message_byte
    &&& q.cycles_owed == owed
}

/// A found record carries the identifier it was looked up by.
pub proof fn lemma_find_id(s: Seq<Provider>, id: u64)
    ensures
        spec_find(s, id) matches Some(p) ==> p.provider_id == id,
    decreases s.len(),
{
    if s.len() > 0 && s[0].provider_id != id {
        lemma_find_id(s.drop_first(), id);
    }
}

/// An identifier that no record carries is not found.
proof fn lemma_find_absent(s: Seq<Provider>, id: u64)
    requires
        forall|k: int| 0 <= k < s.len() ==> s[k].provider_id != id,
    ensures
        spec_find(s, id) is None,
    decreases s.len(),
{
    if s.len() > 0 {
        assert(forall|k: int| 0 <= k < s.drop_first().len() ==> s.drop_first()[k] == s[k + 1]);
        lemma_find_absent(s.drop_first(), id);
    }
}

/// Looking an identifier up skips over a prefix that does not carry it.
proof fn lemma_find_skip(s: Seq<Provider>, id: u64, i: int)
    requires
        0 <= i <= s.len(),
        forall|k: int| 0 <= k < i ==> s[k].provider_id != id,
    ensures
        spec_find(s, id) == spec_find(s.skip(i), id),
    decreases i,
{
    if i > 0 {
        assert(s.drop_first() =~= s.skip(1));
        lemma_find_skip(s.drop_first(), id, i - 1);
        assert(s.drop_first().skip(i - 1) =~= s.skip(i));
    } else {
        assert(s.skip(0) =~= s);
    }
}

/// Replacing the record at `i` with one carrying the same identifier leaves
/// every other identifier's lookup unchanged.
proof fn lemma_find_update_other(s: Seq<Provider>, i: int, e: Provider, id: u64)
    requires
        0 <= i < s.len(),
        e.provider_id == s[i].provider_id,
        id != e.provider_id,
    ensures
        spec_find(s.update(i, e), id) == spec_find(s, id),
    decreases s.len(),
{
    let updated = s.update(i, e);
    if i == 0 {
        assert(updated.drop_first() =~= s.drop_first());
    } else {
        assert(updated[0] == s[0]);
        if s[0].provider_id != id {
            assert(updated.drop_first() =~= s.drop_first().update(i - 1, e));
            lemma_find_update_other(s.drop_first(), i - 1, e, id);
        }
    }
}

/// Removing the record at `i` leaves the lookup of every identifier that the
/// removed record does not carry unchanged.
proof fn lemma_find_remove_other(s: Seq<Provider>, i: int, id: u64)
    requires
        0 <= i < s.len(),
        s[i].provider_id != id,
    ensures
        spec_find(s.remove(i), id) == spec_find(s, id),
    decreases s.len(),
{
    let removed = s.remove(i);
    if i == 0 {
        assert(removed =~= s.drop_first());
    } else {
        assert(removed[0] == s[0]);
        if s[0].provider_id != id {
            assert(removed.drop_first() =~= s.drop_first().remove(i - 1));
            lemma_find_remove_other(s.drop_first(), i - 1, id);
        }
    }
}

/// Appending a record leaves the lookup of every other identifier unchanged.
proof fn lemma_find_push_other(s: Seq<Provider>, e: Provider, id: u64)
    requires
        id != e.provider_id,
    ensures
        spec_find(s.push(e), id) == spec_find(s, id),
    decreases s.len(),
{
    let pushed = s.push(e);
    assert(pushed.len() == s.len() + 1);
    if s.len() == 0 {
        assert(pushed[0] == e);
        assert(pushed.drop_first() =~= Seq::<Provider>::empty());
        assert(spec_find(Seq::<Provider>::empty(), id) is None);
    } else {
        assert(pushed[0] == s[0]);
        if s[0].provider_id != id {
            assert(pushed.drop_first() =~= s.drop_first().push(e));
            lemma_find_push_other(s.drop_first(), e, id);
        }
    }
}

/// The provider records together with the metadata counter from which the
/// next identifier is assigned.
#[derive(Debug)]
pub struct ProviderRegistry {
    pub providers: Vec<Provider>,
    /// Metadata: the next identifier to assign. Mutated only together with
    /// record insertion.
    pub next_provider_id: u64,
}

impl ProviderRegistry {
    /// Well-formedness: every stored identifier is below the counter, and no
    /// two records share an identifier.
    pub open spec fn wf(&self) -> bool {
        &&& forall|k: int|
            0 <= k < self.providers@.len()
                ==> #[trigger] self.providers@[k].provider_id < self.next_provider_id
        &&& forall|j: int, k: int|
            0 <= j < k < self.providers@.len() ==> self.providers@[j].provider_id
                != self.providers@[k].provider_id
    }

    /// An empty registry whose counter starts at zero.
    pub fn new() -> (r: ProviderRegistry)
        ensures
            r.wf(),
            r.providers@.len() == 0,
            r.next_provider_id == 0,
    {
        ProviderRegistry { providers: Vec::new(), next_provider_id: 0 }
    }

    /// Load a registry from stored records and a stored counter, checking
    /// that they are well formed: every identifier unique and below the
    /// counter. Returns nothing exactly when they are not.
    pub fn from_parts(providers: Vec<Provider>, next_provider_id: u64) -> (r: Option<
        ProviderRegistry,
    >)
        ensures
            match r {
                Some(reg) => reg.wf() && reg.providers@ == providers@ && reg.next_provider_id
                    == next_provider_id,
                None => true,
            },
            r is Some <==> ((forall|k: int|
                0 <= k < providers@.len() ==> #[trigger] providers@[k].provider_id
                    < next_provider_id) && (forall|j: int, k: int|
                0 <= j < k < providers@.len() ==> providers@[j].provider_id
                    != providers@[k].provider_id)),
    {
        let n = providers.len();
        let mut i: usize = 0;
        while i < n
            invariant
                i <= n,
                n == providers@.len(),
                forall|k: int|
                    0 <= k < i ==> #[trigger] providers@[k].provider_id < next_provider_id,
                forall|j: int, k: int|
                    0 <= j < k < i ==> providers@[j].provider_id != providers@[k].provider_id,
            decreases n - i,
        {
            if providers[i].provider_id >= next_provider_id {
                return None;
            }
            let mut j: usize = 0;
            while j < i
                invariant
                    j <= i < n,
                    n == providers@.len(),
                    forall|k: int|
                        0 <= k < j ==> providers@[k].provider_id != providers@[i as int].provider_id,
                decreases i - j,
            {
                if providers[j].provider_id == providers[i].provider_id {
                    return None;
                }
                j = j + 1;
            }
            i = i + 1;
        }
        Some(ProviderRegistry { providers, next_provider_id })
    }

    /// The index of the first record carrying `provider_id`, if any.
    fn find_index(&self, provider_id: u64) -> (r: Option<usize>)
        ensures
            match r {
                Some(i) => i < self.providers@.len() && self.providers@[i as int].provider_id
                    == provider_id && forall|k: int|
                    0 <= k < i ==> self.providers@[k].provider_id != provider_id,
                None => forall|k: int|
                    0 <= k < self.providers@.len() ==> self.providers@[k].provider_id
                        != provider_id,
            },
    {
        let n = self.providers.len();
        let mut i: usize = 0;
        while i < n
            invariant
                i <= n,
                n == self.providers@.len(),
                forall|k: int| 0 <= k < i ==> self.providers@[k].provider_id != provider_id,
            decreases n - i,
        {
            if self.providers[i].provider_id == provider_id {
                return Some(i);
            }
            i = i + 1;
        }
        None
    }

    /// The record carrying `provider_id`, if any.
    pub fn get(&self, provider_id: u64) -> (r: Option<&Provider>)
        ensures
            match r {
                Some(p) => spec_find(self.providers@, provider_id) == Some(*p),
                None => spec_find(self.providers@, provider_id) is None,
            },
    {
        match self.find_index(provider_id) {
            Some(i) => {
                proof {
                    lemma_find_skip(self.providers@, provider_id, i as int);
                    assert(self.providers@.skip(i as int)[0] == self.providers@[i as int]);
                }
                Some(&self.providers[i])
            },
            None => {
                proof {
                    lemma_find_absent(self.providers@, provider_id);
                }
                None
            },
        }
    }

    /// Register a provider: assign the next identifier, advance the counter,
    /// and store the record with a zero balance, all in one step. The
    /// assigned identifier is fresh: no current record carries it.
    pub fn register(&mut self, owner: Principal, args: RegisterProvider) -> (id: u64)
        requires
            old(self).wf(),
            old(self).next_provider_id < u64::MAX,
        ensures
            final(self).wf(),
            id == old(self).next_provider_id,
            final(self).next_provider_id == old(self).next_provider_id + 1,
            forall|k: int|
                0 <= k < old(self).providers@.len() ==> #[trigger] old(
                    self,
                ).providers@[k].provider_id != id,
            final(self).providers@.len() == old(self).providers@.len() + 1,
            forall|k: int|
                0 <= k < old(self).providers@.len() ==> #[trigger] final(self).providers@[k] == old(
                    self,
                ).providers@[k],
            ({
                let p = final(self).providers@.last();
                &&& p.provider_id == id
                &&& p.owner@ == owner@
                &&& p.chain_id == args.chain_id
                &&& p.service_url@ == args.service_url@
                &&& p.api_key@ == args.api_key@
                &&& p.cycles_per_call == args.cycles_per_call
                &&& p.cycles_per_message_byte == args.cycles_per_message_byte
                &&& p.cycles_owed == 0
                &&& spec_find(final(self).providers@, id) == Some(p)
            }),
            forall|id2: u64| id2 != id ==> #[trigger] spec_find(final(self).providers@, id2)
                == spec_find(old(self).providers@, id2),
    {
        let id = self.next_provider_id;
        self.next_provider_id = id + 1;
        let record = Provider {
            provider_id: id,
            owner,
            chain_id: args.chain_id,
            service_url: args.service_url,
            api_key: args.api_key,
            cycles_per_call: args.cycles_per_call,
            cycles_per_message_byte: args.cycles_per_message_byte,
            cycles_owed: 0,
        };
        let ghost old_records = self.providers@;
        self.providers.push(record);
        proof {
            assert(self.providers@.last() == record);
            lemma_find_skip(self.providers@, id, old_records.len() as int);
            assert(self.providers@.skip(old_records.len() as int)[0] == record);
            assert forall|id2: u64| id2 != id implies #[trigger] spec_find(self.providers@, id2)
                == spec_find(old_records, id2) by {
                lemma_find_push_other(old_records, record, id2);
            }
        }
        id
    }

    /// Remove the record carrying `provider_id`. Doing nothing when it does
    /// not exist; the caller must be its owner or an administrator when it
    /// does. The counter is not decreased, so the identifier is never handed
    /// out again.
    pub fn unregister(&mut self, caller: &Principal, caller_is_admin: bool, provider_id: u64)
        requires
            old(self).wf(),
            spec_find(old(self).providers@, provider_id) matches Some(p) ==> p.owner@ == caller@
                || caller_is_admin,
        ensures
            final(self).wf(),
            final(self).next_provider_id == old(self).next_provider_id,
            spec_find(final(self).providers@, provider_id) is None,
            forall|id2: u64| id2 != provider_id ==> #[trigger] spec_find(
                final(self).providers@,
                id2,
            ) == spec_find(old(self).providers@, id2),
            spec_find(old(self).providers@, provider_id) is Some ==> final(self).providers@.len()
                == old(self).providers@.len() - 1,
            spec_find(old(self).providers@, provider_id) is None ==> final(self).providers@ == old(
                self,
            ).providers@,
    {
        match self.find_index(provider_id) {
            Some(i) => {
                let ghost old_records = self.providers@;
                let _ = self.providers.remove(i);
                proof {
                    assert(forall|k: int|
                        0 <= k < self.providers@.len() ==> #[trigger] self.providers@[k]
                            == (if k < i as int {
                            old_records[k]
                        } else {
                            old_records[k + 1]
                        }));
                    assert forall|k: int| 0 <= k < self.providers@.len() implies
                        #[trigger] self.providers@[k].provider_id != provider_id by {
                        if k >= i as int {
                            assert(old_records[k + 1].provider_id != provider_id);
                        }
                    }
                    lemma_find_absent(self.providers@, provider_id);
                    assert forall|id2: u64| id2 != provider_id implies #[trigger] spec_find(
                        self.providers@,
                        id2,
                    ) == spec_find(old_records, id2) by {
                        lemma_find_remove_other(old_records, i as int, id2);
                        assert(self.providers@ =~= old_records.remove(i as int));
                    }
                    lemma_find_skip(old_records, provider_id, i as int);
                    assert(old_records.skip(i as int)[0] == old_records[i as int]);
                }
            },
            None => {
                proof {
                    lemma_find_absent(self.providers@, provider_id);
                }
            },
        }
    }

    /// Add `amount` to the balance of the record carrying `provider_id`,
    /// re-fetching the record in the same step. When the record no longer
    /// exists the accrual is a silent no-op.
    pub fn accrue(&mut self, provider_id: u64, amount: u128)
        requires
            old(self).wf(),
            spec_find(old(self).providers@, provider_id) matches Some(p) ==> p.cycles_owed + amount
                <= u128::MAX,
        ensures
            final(self).wf(),
            final(self).next_provider_id == old(self).next_provider_id,
            final(self).providers@.len() == old(self).providers@.len(),
            match spec_find(old(self).providers@, provider_id) {
                Some(p) => spec_find(final(self).providers@, provider_id) matches Some(q)
                    && same_but_owed(p, q, (p.cycles_owed + amount) as u128),
                None => final(self).providers@ == old(self).providers@,
            },
            forall|id2: u64| id2 != provider_id ==> #[trigger] spec_find(
                final(self).providers@,
                id2,
            ) == spec_find(old(self).providers@, id2),
    {
        match self.find_index(provider_id) {
            Some(i) => {
                let ghost old_records = self.providers@;
                proof {
                    lemma_find_skip(old_records, provider_id, i as int);
                    assert(old_records.skip(i as int)[0] == old_records[i as int]);
                }
                let updated = Provider {
                    provider_id: self.providers[i].provider_id,
                    owner: self.providers[i].owner.duplicate(),
                    chain_id: self.providers[i].chain_id,
                    service_url: self.providers[i].service_url.clone(),
                    api_key: self.providers[i].api_key.clone(),
                    cycles_per_call: self.providers[i].cycles_per_call,
                    cycles_per_message_byte: self.providers[i].cycles_per_message_byte,
                    cycles_owed: self.providers[i].cycles_owed + amount,
                };
                self.providers.set(i, updated);
                proof {
                    lemma_find_skip(self.providers@, provider_id, i as int);
                    assert(self.providers@.skip(i as int)[0] == self.providers@[i as int]);
                    assert forall|id2: u64| id2 != provider_id implies #[trigger] spec_find(
                        self.providers@,
                        id2,
                    ) == spec_find(old_records, id2) by {
                        lemma_find_update_other(old_records, i as int, updated, id2);
                        assert(self.providers@ =~= old_records.update(i as int, updated));
                    }
                }
            },
            None => {
                proof {
                    lemma_find_absent(self.providers@, provider_id);
                }
            },
        }
    }

    /// The accrued balance of the record carrying `provider_id`, if any. The
    /// balance is not cleared by reading it.
    pub fn owed_cycles(&self, provider_id: u64) -> (r: Option<u128>)
        ensures
            match spec_find(self.providers@, provider_id) {
                Some(p) => r == Some(p.cycles_owed),
                None => r is None,
            },
    {
        match self.get(provider_id) {
            Some(p) => Some(p.cycles_owed),
            None => None,
        }
    }

    /// The public summaries of all records, in storage order, with the
    /// secret key field omitted.
    pub fn get_providers(&self) -> (r: Vec<RegisteredProvider>)
        ensures
            r@.len() == self.providers@.len(),
            forall|k: int|
                0 <= k < r@.len() ==> {
                    let p = self.providers@[k];
                    let q = #[trigger] r@[k];
                    &&& q.provider_id == p.provider_id
                    &&& q.owner@ == p.owner@
                    &&& q.chain_id == p.chain_id
                    &&& q.service_url@ == p.service_url@
                    &&& q.cycles_per_call == p.cycles_per_call
                    &&& q.cycles_per_message_byte == p.cycles_per_message_byte
                },
    {
        let n = self.providers.len();
        let mut out: Vec<RegisteredProvider> = Vec::new();
        let mut i: usize = 0;
        while i < n
            invariant
                i <= n,
                n == self.providers@.len(),
                out@.len() == i,
                forall|k: int|
                    0 <= k < i ==> {
                        let p = self.providers@[k];
                        let q = #[trigger] out@[k];
                        &&& q.provider_id == p.provider_id
                        &&& q.owner@ == p.owner@
                        &&& q.chain_id == p.chain_id
                        &&& q.service_url@ == p.service_url@
                        &&& q.cycles_per_call == p.cycles_per_call
                        &&& q.cycles_per_message_byte == p.cycles_per_message_byte
                    },
            decreases n - i,
        {
            let p = &self.providers[i];
            let summary = RegisteredProvider {
                provider_id: p.provider_id,
                owner: p.owner.duplicate(),
                chain_id: p.chain_id,
                service_url: p.service_url.clone(),
                cycles_per_call: p.cycles_per_call,
                cycles_per_message_byte: p.cycles_per_message_byte,
            };
            out.push(summary);
            i = i + 1;
        }
        out
    }
}

/// Provider identifiers are never reused: every stored identifier lies
/// strictly below the counter, so the identifier that the next registration
/// assigns is distinct from every identifier a record has ever carried, even
/// across interleaved register and unregister sequences, because no operation
/// decreases the counter.
pub proof fn lemma_next_provider_id_fresh(r: &ProviderRegistry)
    requires
        r.wf(),
    ensures
        !spec_has(r.providers@, r.next_provider_id),
        forall|k: int|
            0 <= k < r.providers@.len() ==> #[trigger] r.providers@[k].provider_id
                < r.next_provider_id,
{
}

} // verus!
