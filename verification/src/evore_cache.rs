//! Cache of the EVORE program's accounts (managers, deployers and the
//! balances of their miner-authority accounts), so that clients can read them
//! from this service.

use vstd::prelude::*;
use crate::keyed::{KeyedList, key_before, lemma_keyed_sorted, lookup, sorted_keys};
use crate::chain::{le_u64_at, pubkey_text, pubkey_to_string, u64_from_le_bytes};

verus! {

broadcast use vstd::string::group_string_axioms;

/// Size of a Manager account: discriminator and authority.
pub const MANAGER_SIZE: usize = 40;

/// Size of a Deployer account: discriminator, manager, deploy authority and
/// five 8-byte fields.
pub const DEPLOYER_SIZE: usize = 112;

/// A Manager account.
#[derive(Debug)]
pub struct CachedManager {
    /// The manager account address.
    pub address: String,
    /// The owner of the manager.
    pub authority: String,
}

/// A Deployer account.
#[derive(Debug)]
pub struct CachedDeployer {
    /// The deployer account address.
    pub address: String,
    /// The manager this deployer serves.
    pub manager_key: String,
    /// The key allowed to execute deploys.
    pub deploy_authority: String,
    /// Percentage fee in basis points.
    pub bps_fee: u64,
    /// Flat fee in lamports.
    pub flat_fee: u64,
    /// Highest percentage fee the manager accepts.
    pub expected_bps_fee: u64,
    /// Highest flat fee the manager accepts.
    pub expected_flat_fee: u64,
    /// Most lamports deployed per round (0 = unlimited).
    pub max_per_round: u64,
}

/// Balance of a manager's miner-authority account.
#[derive(Debug)]
pub struct CachedAuthBalance {
    /// The miner-authority account address.
    pub address: String,
    /// The manager it belongs to.
    pub manager: String,
    pub auth_id: u64,
    /// Balance in lamports.
    pub balance: u64,
}

/// Counts of cached accounts.
#[derive(Debug)]
pub struct EvoreCacheStats {
    pub managers_count: usize,
    pub deployers_count: usize,
    pub auth_balances_count: usize,
    pub last_updated_slot: u64,
}

/// The EVORE accounts, by address, with reverse indexes.
pub struct EvoreCache {
    /// Managers by address.
    managers: KeyedList<CachedManager>,
    /// Manager addresses (as a sorted set) by authority.
    managers_by_authority: KeyedList<KeyedList<()>>,
    /// Deployers by address.
    deployers: KeyedList<CachedDeployer>,
    /// Deployer address by manager address.
    deployer_by_manager: KeyedList<String>,
    /// Auth balances by address.
    auth_balances: KeyedList<CachedAuthBalance>,
    /// Auth account address by manager address.
    auth_pda_by_manager: KeyedList<String>,
    /// Last slot at which the cache was refreshed.
    last_updated_slot: u64,
}

/// The managers whose addresses are listed in `addrs` and cached in
/// `managers`, in the order of `addrs`.
pub open spec fn managers_listed(addrs: Seq<(String, ())>, managers: Seq<(String, CachedManager)>) -> Seq<CachedManager>
    decreases addrs.len(),
{
    if addrs.len() == 0 {
        Seq::empty()
    } else {
        let prev = managers_listed(addrs.drop_last(), managers);
        match lookup(managers, addrs.last().0@) {
            Some(m) => prev.push(m),
            None => prev,
        }
    }
}

/// Whether `address` is in the set recorded for `authority`.
pub open spec fn listed_in(idx: Seq<(String, KeyedList<()>)>, authority: Seq<char>, address: Seq<char>) -> bool {
    lookup(idx, authority) matches Some(set) && lookup(set.entries_view(), address) is Some
}

/// The authority index lists an address under an authority exactly when
/// the manager cached at that address has that authority.
pub open spec fn index_exact(idx: Seq<(String, KeyedList<()>)>, managers: Seq<(String, CachedManager)>) -> bool {
    forall|a: Seq<char>, x: Seq<char>| #[trigger] listed_in(idx, a, x)
        <==> (lookup(managers, x) matches Some(m) && m.authority@ == a)
}

/// Every manager is cached under its own address.
pub open spec fn keyed_by_address(managers: Seq<(String, CachedManager)>) -> bool {
    forall|x: Seq<char>| #[trigger] lookup(managers, x) matches Some(m) ==> m.address@ == x
}

/// `after` is `before` with `manager` added or replaced: its address is
/// listed under its authority and no longer under the one it had; nothing
/// else changes, and the manager count grows when the address is new.
pub open spec fn manager_upserted(before: EvoreCache, after: EvoreCache, manager: CachedManager) -> bool {
    &&& after.manager(manager.address@) == Some(manager)
    &&& forall|a: Seq<char>| a != manager.address@ ==> #[trigger] after.manager(a) == before.manager(a)
    &&& forall|a: Seq<char>, x: Seq<char>| #[trigger] after.listed_under(a, x)
        <==> ((before.listed_under(a, x) && x != manager.address@) || (x == manager.address@ && a == manager.authority@))
    &&& after.counts() == (
        before.counts().0 + (if before.manager(manager.address@) is Some { 0nat } else { 1nat }),
        before.counts().1,
        before.counts().2,
    )
    &&& forall|k: Seq<char>| #[trigger] after.deployer(k) == before.deployer(k)
        && after.deployer_address(k) == before.deployer_address(k)
        && after.auth_balance(k) == before.auth_balance(k)
        && after.auth_address(k) == before.auth_address(k)
    &&& after.updated_slot() == before.updated_slot()
}

/// Upserting the same manager twice leaves the cache as the first upsert
/// left it: the same managers, listings, counts and other indices.
pub proof fn lemma_upsert_manager_twice(c0: EvoreCache, c1: EvoreCache, c2: EvoreCache, manager: CachedManager)
    requires
        manager_upserted(c0, c1, manager),
        manager_upserted(c1, c2, manager),
    ensures
        forall|a: Seq<char>| #[trigger] c2.manager(a) == c1.manager(a),
        forall|a: Seq<char>, x: Seq<char>| #[trigger] c2.listed_under(a, x) == c1.listed_under(a, x),
        c2.counts() == c1.counts(),
        forall|k: Seq<char>| #[trigger] c2.deployer(k) == c1.deployer(k)
            && c2.deployer_address(k) == c1.deployer_address(k)
            && c2.auth_balance(k) == c1.auth_balance(k)
            && c2.auth_address(k) == c1.auth_address(k),
        c2.updated_slot() == c1.updated_slot(),
{
    assert forall|a: Seq<char>| #[trigger] c2.manager(a) == c1.manager(a) by {
        if a != manager.address@ {
            assert(c2.manager(a) == c1.manager(a));
        }
    }
    assert forall|a: Seq<char>, x: Seq<char>| #[trigger] c2.listed_under(a, x) == c1.listed_under(a, x) by {
        assert(c2.listed_under(a, x) <==> ((c1.listed_under(a, x) && x != manager.address@) || (x == manager.address@ && a == manager.authority@)));
        assert(c1.listed_under(a, x) <==> ((c0.listed_under(a, x) && x != manager.address@) || (x == manager.address@ && a == manager.authority@)));
    }
}

impl EvoreCache {
    /// Internal consistency: every index is well formed, and so is every
    /// address set of the authority index; that index lists each cached
    /// manager under its authority and nothing else; every manager is cached
    /// under its own address.
    pub closed spec fn well_formed(&self) -> bool {
        &&& self.managers.well_formed()
        &&& self.managers_by_authority.well_formed()
        &&& self.deployers.well_formed()
        &&& self.deployer_by_manager.well_formed()
        &&& self.auth_balances.well_formed()
        &&& self.auth_pda_by_manager.well_formed()
        &&& forall|a: Seq<char>| #[trigger] lookup(self.managers_by_authority.entries_view(), a) matches Some(set)
            ==> set.well_formed()
        &&& index_exact(self.managers_by_authority.entries_view(), self.managers.entries_view())
        &&& keyed_by_address(self.managers.entries_view())
    }

    /// Whether `address` is recorded among the managers of `authority`.
    pub open spec fn listed_under(&self, authority: Seq<char>, address: Seq<char>) -> bool {
        self.authority_managers(authority) matches Some(addrs) && lookup(addrs, address) is Some
    }

    /// The cached manager at `address`.
    pub closed spec fn manager(&self, address: Seq<char>) -> Option<CachedManager> {
        lookup(self.managers.entries_view(), address)
    }

    /// The manager addresses recorded for `authority`, in key order.
    pub closed spec fn authority_managers(&self, authority: Seq<char>) -> Option<Seq<(String, ())>> {
        match lookup(self.managers_by_authority.entries_view(), authority) {
            Some(set) => Some(set.entries_view()),
            None => None,
        }
    }

    /// The cached deployer at `address`.
    pub closed spec fn deployer(&self, address: Seq<char>) -> Option<CachedDeployer> {
        lookup(self.deployers.entries_view(), address)
    }

    /// The deployer address recorded for a manager.
    pub closed spec fn deployer_address(&self, manager: Seq<char>) -> Option<String> {
        lookup(self.deployer_by_manager.entries_view(), manager)
    }

    /// The cached auth balance at `address`.
    pub closed spec fn auth_balance(&self, address: Seq<char>) -> Option<CachedAuthBalance> {
        lookup(self.auth_balances.entries_view(), address)
    }

    /// The auth account address recorded for a manager.
    pub closed spec fn auth_address(&self, manager: Seq<char>) -> Option<String> {
        lookup(self.auth_pda_by_manager.entries_view(), manager)
    }

    /// The managers cached, in address order.
    pub closed spec fn manager_entries(&self) -> Seq<(String, CachedManager)> {
        self.managers.entries_view()
    }

    /// The deployers cached, in address order.
    pub closed spec fn deployer_entries(&self) -> Seq<(String, CachedDeployer)> {
        self.deployers.entries_view()
    }

    /// Number of managers, deployers and auth balances cached.
    pub closed spec fn counts(&self) -> (nat, nat, nat) {
        (self.managers.entries_view().len(), self.deployers.entries_view().len(), self.auth_balances.entries_view().len())
    }

    /// Last slot at which the cache was refreshed.
    pub closed spec fn updated_slot(&self) -> u64 {
        self.last_updated_slot
    }

    /// Record the slot of a refresh.
    pub fn set_last_updated_slot(&mut self, slot: u64)
        requires
            old(self).well_formed(),
        ensures
            final(self).well_formed(),
            final(self).updated_slot() == slot,
            forall|k: Seq<char>| #[trigger] final(self).manager(k) == old(self).manager(k)
                && final(self).authority_managers(k) == old(self).authority_managers(k)
                && final(self).deployer(k) == old(self).deployer(k)
                && final(self).deployer_address(k) == old(self).deployer_address(k)
                && final(self).auth_balance(k) == old(self).auth_balance(k)
                && final(self).auth_address(k) == old(self).auth_address(k),
            final(self).counts() == old(self).counts(),
    {
        self.last_updated_slot = slot;
    }

    /// An empty cache.
    pub fn new() -> (c: Self)
        ensures
            c.well_formed(),
            forall|k: Seq<char>| #[trigger] c.manager(k) is None && c.authority_managers(k) is None
                && c.deployer(k) is None && c.deployer_address(k) is None
                && c.auth_balance(k) is None && c.auth_address(k) is None,
            c.counts() == (0nat, 0nat, 0nat),
            c.updated_slot() == 0,
    {
        EvoreCache {
            managers: KeyedList::new(),
            managers_by_authority: KeyedList::new(),
            deployers: KeyedList::new(),
            deployer_by_manager: KeyedList::new(),
            auth_balances: KeyedList::new(),
            auth_pda_by_manager: KeyedList::new(),
            last_updated_slot: 0,
        }
    }

    /// All cached managers of `authority`, in address order.
    pub fn get_managers_by_authority(&self, authority: &str) -> (r: Vec<&CachedManager>)
        requires
            self.well_formed(),
        ensures
            r@.len() == (match self.authority_managers(authority@) {
                Some(addrs) => managers_listed(addrs, self.manager_entries()).len(),
                None => 0,
            }),
            forall|i: int| 0 <= i < r@.len() ==> *r@[i] == (match self.authority_managers(authority@) {
                Some(addrs) => managers_listed(addrs, self.manager_entries())[i],
                None => *r@[i],
            }),
    {
        let mut r: Vec<&CachedManager> = Vec::new();
        match self.managers_by_authority.get(authority) {
            None => r,
            Some(set) => {
                proof {
                    assert(lookup(self.managers_by_authority.entries_view(), authority@) matches Some(s) && s.well_formed());
                }
                let ghost addrs = set.entries_view();
                let mut i: usize = 0;
                while i < set.len()
                    invariant
                        i <= addrs.len(),
                        addrs == set.entries_view(),
                        self.managers.well_formed(),
                        r@.len() == managers_listed(addrs.take(i as int), self.managers.entries_view()).len(),
                        forall|t: int| 0 <= t < r@.len() ==> *r@[t] == managers_listed(addrs.take(i as int), self.managers.entries_view())[t],
                    decreases addrs.len() - i,
                {
                    let (addr, _) = set.entry_at(i);
                    proof {
                        assert(addrs.take(i + 1).drop_last() =~= addrs.take(i as int));
                    }
                    match self.managers.get(addr.as_str()) {
                        Some(m) => {
                            r.push(m);
                        },
                        None => {},
                    }
                    i = i + 1;
                }
                assert(addrs.take(addrs.len() as int) =~= addrs);
                r
            },
        }
    }

    /// The deployer serving `manager`.
    pub fn get_deployer_for_manager(&self, manager: &str) -> (r: Option<&CachedDeployer>)
        requires
            self.well_formed(),
        ensures
            r matches Some(d) ==> self.deployer_address(manager@) matches Some(a) && self.deployer(a@) == Some(*d),
            r is None ==> (self.deployer_address(manager@) matches Some(a) ==> self.deployer(a@) is None),
    {
        match self.deployer_by_manager.get(manager) {
            Some(addr) => self.deployers.get(addr.as_str()),
            None => None,
        }
    }

    /// The auth balance of `manager`'s miner-authority account.
    pub fn get_auth_balance_for_manager(&self, manager: &str) -> (r: Option<&CachedAuthBalance>)
        requires
            self.well_formed(),
        ensures
            r matches Some(b) ==> self.auth_address(manager@) matches Some(a) && self.auth_balance(a@) == Some(*b),
            r is None ==> (self.auth_address(manager@) matches Some(a) ==> self.auth_balance(a@) is None),
    {
        match self.auth_pda_by_manager.get(manager) {
            Some(addr) => self.auth_balances.get(addr.as_str()),
            None => None,
        }
    }

    /// Add or replace a manager: its address is recorded under its
    /// authority and no longer under the authority it had before.
    pub fn upsert_manager(&mut self, manager: CachedManager)
        requires
            old(self).well_formed(),
        ensures
            final(self).well_formed(),
            manager_upserted(*old(self), *final(self), manager),
            forall|a: Seq<char>, x: Seq<char>| #[trigger] final(self).listed_under(a, x)
                <==> (final(self).manager(x) matches Some(m) && m.authority@ == a),
    {
        let ghost idx0 = self.managers_by_authority.entries_view();
        let ghost mgrs0 = self.managers.entries_view();
        let authority = manager.authority.clone();
        let address = manager.address.clone();
        // Forget the address under the authority it had before.
        match self.managers.get(address.as_str()) {
            Some(prev) => {
                let prev_authority = prev.authority.clone();
                match self.managers_by_authority.take(prev_authority.as_str()) {
                    Some(mut old_set) => {
                        proof {
                            assert(lookup(idx0, prev_authority@) == Some(old_set));
                        }
                        let ghost set0 = old_set.entries_view();
                        let _ = old_set.take(address.as_str());
                        self.managers_by_authority.upsert(prev_authority, old_set);
                        proof {
                            let idx1 = self.managers_by_authority.entries_view();
                            assert forall|a: Seq<char>, x: Seq<char>| #[trigger] listed_in(idx1, a, x)
                                == (listed_in(idx0, a, x) && x != address@) by {
                                if a == prev_authority@ {
                                    assert(lookup(idx1, a) == Some(old_set));
                                    if x != address@ {
                                        assert(lookup(old_set.entries_view(), x) == lookup(set0, x));
                                    }
                                } else {
                                    assert(lookup(idx1, a) == lookup(idx0, a));
                                    if x == address@ && listed_in(idx0, a, x) {
                                        assert(lookup(mgrs0, x) == Some(*prev));
                                    }
                                }
                            }
                        }
                    },
                    None => {
                        proof {
                            assert(listed_in(idx0, prev_authority@, address@));
                        }
                    },
                }
            },
            None => {
                proof {
                    assert forall|a: Seq<char>, x: Seq<char>| #[trigger] listed_in(idx0, a, x)
                        == (listed_in(idx0, a, x) && x != address@) by {
                        if x == address@ && listed_in(idx0, a, x) {
                            assert(lookup(mgrs0, x) is Some);
                        }
                    }
                }
            },
        }
        let ghost idx1 = self.managers_by_authority.entries_view();
        proof {
            assert forall|a: Seq<char>, x: Seq<char>| #[trigger] listed_in(idx1, a, x)
                == (listed_in(idx0, a, x) && x != address@) by {
            }
            assert forall|a: Seq<char>| #[trigger] lookup(idx1, a) is Some implies lookup(idx1, a).unwrap().well_formed() by {
                assert(lookup(self.managers_by_authority.entries_view(), a) == lookup(idx1, a));
            }
        }
        let mut set = match self.managers_by_authority.take(authority.as_str()) {
            Some(s) => s,
            None => KeyedList::new(),
        };
        let ghost set1 = set.entries_view();
        set.upsert(address, ());
        self.managers_by_authority.upsert(authority, set);
        let key = manager.address.clone();
        self.managers.upsert(key, manager);
        proof {
            let idx2 = self.managers_by_authority.entries_view();
            let mgrs2 = self.managers.entries_view();
            assert forall|a: Seq<char>, x: Seq<char>| #[trigger] listed_in(idx2, a, x)
                == (listed_in(idx1, a, x) || (a == manager.authority@ && x == manager.address@)) by {
                if a == manager.authority@ {
                    assert(lookup(idx2, a) == Some(set));
                    if x != manager.address@ {
                        assert(lookup(set.entries_view(), x) == lookup(set1, x));
                    }
                } else {
                    assert(lookup(idx2, a) == lookup(idx1, a));
                }
            }
            assert forall|a: Seq<char>, x: Seq<char>| #[trigger] listed_in(idx2, a, x)
                <==> (lookup(mgrs2, x) matches Some(m) && m.authority@ == a) by {
                assert(listed_in(idx1, a, x) == (listed_in(idx0, a, x) && x != address@));
                assert(listed_in(idx0, a, x) <==> (lookup(mgrs0, x) matches Some(m) && m.authority@ == a));
            }
            assert forall|x: Seq<char>| #[trigger] lookup(mgrs2, x) is Some implies lookup(mgrs2, x).unwrap().address@ == x by {
                if x != manager.address@ {
                    assert(lookup(mgrs2, x) == lookup(mgrs0, x));
                }
            }
            assert forall|a: Seq<char>| #[trigger] lookup(idx2, a) is Some implies lookup(idx2, a).unwrap().well_formed() by {
                if a != manager.authority@ {
                    assert(lookup(idx2, a) == lookup(idx1, a));
                }
            }
            assert forall|a: Seq<char>, x: Seq<char>| #[trigger] self.listed_under(a, x)
                <==> ((old(self).listed_under(a, x) && x != manager.address@)
                    || (x == manager.address@ && a == manager.authority@)) by {
                assert(self.listed_under(a, x) == listed_in(idx2, a, x));
                assert(old(self).listed_under(a, x) == listed_in(idx0, a, x));
                assert(listed_in(idx1, a, x) == (listed_in(idx0, a, x) && x != address@));
            }
            assert forall|a: Seq<char>, x: Seq<char>| #[trigger] self.listed_under(a, x)
                <==> (self.manager(x) matches Some(m) && m.authority@ == a) by {
                assert(self.listed_under(a, x) == listed_in(idx2, a, x));
            }
        }
    }

    /// Add or replace a deployer, and record it as its manager's deployer.
    pub fn upsert_deployer(&mut self, deployer: CachedDeployer)
        requires
            old(self).well_formed(),
        ensures
            final(self).well_formed(),
            final(self).deployer(deployer.address@) == Some(deployer),
            final(self).deployer_address(deployer.manager_key@) matches Some(a) && a == deployer.address,
            final(self).counts() == (
                old(self).counts().0,
                old(self).counts().1 + (if old(self).deployer(deployer.address@) is Some { 0nat } else { 1nat }),
                old(self).counts().2,
            ),
            forall|a: Seq<char>| a != deployer.address@ ==> #[trigger] final(self).deployer(a) == old(self).deployer(a),
            forall|m: Seq<char>| m != deployer.manager_key@ ==> #[trigger] final(self).deployer_address(m) == old(self).deployer_address(m),
            forall|k: Seq<char>| #[trigger] final(self).manager(k) == old(self).manager(k)
                && final(self).authority_managers(k) == old(self).authority_managers(k)
                && final(self).auth_balance(k) == old(self).auth_balance(k)
                && final(self).auth_address(k) == old(self).auth_address(k),
            final(self).updated_slot() == old(self).updated_slot(),
    {
        self.deployer_by_manager.upsert(deployer.manager_key.clone(), deployer.address.clone());
        let key = deployer.address.clone();
        self.deployers.upsert(key, deployer);
    }

    /// Add or replace an auth balance, and record it for its manager.
    pub fn upsert_auth_balance(&mut self, auth: CachedAuthBalance)
        requires
            old(self).well_formed(),
        ensures
            final(self).well_formed(),
            final(self).auth_balance(auth.address@) == Some(auth),
            final(self).auth_address(auth.manager@) matches Some(a) && a == auth.address,
            final(self).counts() == (
                old(self).counts().0,
                old(self).counts().1,
                old(self).counts().2 + (if old(self).auth_balance(auth.address@) is Some { 0nat } else { 1nat }),
            ),
            forall|a: Seq<char>| a != auth.address@ ==> #[trigger] final(self).auth_balance(a) == old(self).auth_balance(a),
            forall|m: Seq<char>| m != auth.manager@ ==> #[trigger] final(self).auth_address(m) == old(self).auth_address(m),
            forall|k: Seq<char>| #[trigger] final(self).manager(k) == old(self).manager(k)
                && final(self).authority_managers(k) == old(self).authority_managers(k)
                && final(self).deployer(k) == old(self).deployer(k)
                && final(self).deployer_address(k) == old(self).deployer_address(k),
            final(self).updated_slot() == old(self).updated_slot(),
    {
        self.auth_pda_by_manager.upsert(auth.manager.clone(), auth.address.clone());
        let key = auth.address.clone();
        self.auth_balances.upsert(key, auth);
    }

    /// Counts of cached accounts and the last refresh slot.
    pub fn stats(&self) -> (s: EvoreCacheStats)
        ensures
            s.managers_count == self.counts().0,
            s.deployers_count == self.counts().1,
            s.auth_balances_count == self.counts().2,
            s.last_updated_slot == self.updated_slot(),
    {
        EvoreCacheStats {
            managers_count: self.managers.len(),
            deployers_count: self.deployers.len(),
            auth_balances_count: self.auth_balances.len(),
            last_updated_slot: self.last_updated_slot,
        }
    }
}

impl CachedManager {
    /// A copy of this manager.
    pub fn copy(&self) -> (r: Self)
        ensures
            r == *self,
    {
        CachedManager { address: self.address.clone(), authority: self.authority.clone() }
    }
}

impl CachedDeployer {
    /// A copy of this deployer.
    pub fn copy(&self) -> (r: Self)
        ensures
            r == *self,
    {
        CachedDeployer {
            address: self.address.clone(),
            manager_key: self.manager_key.clone(),
            deploy_authority: self.deploy_authority.clone(),
            bps_fee: self.bps_fee,
            flat_fee: self.flat_fee,
            expected_bps_fee: self.expected_bps_fee,
            expected_flat_fee: self.expected_flat_fee,
            max_per_round: self.max_per_round,
        }
    }
}

/// Pagination of a listing.
#[derive(Debug)]
pub struct PaginationQuery {
    pub limit: Option<usize>,
    pub offset: Option<usize>,
}

/// Items per page of a listing: 100 by default, at most 1000.
pub fn page_limit(limit: Option<usize>) -> (l: usize)
    ensures
        l == match limit {
            None => 100usize,
            Some(v) => if v < 1000 { v } else { 1000usize },
        },
{
    match limit {
        None => 100,
        Some(v) => if v < 1000 { v } else { 1000 },
    }
}

/// A page of managers with the number cached.
#[derive(Debug)]
pub struct ManagersResponse {
    pub managers: Vec<CachedManager>,
    pub total: usize,
}

/// A page of deployers with the number cached.
#[derive(Debug)]
pub struct DeployersResponse {
    pub deployers: Vec<CachedDeployer>,
    pub total: usize,
}

/// The automated miners of one authority.
#[derive(Debug)]
pub struct MyMinersResponse {
    pub authority: String,
    pub autominers: Vec<AutoMinerInfo>,
}

/// An error answer.
#[derive(Debug)]
pub struct ErrorResponse {
    pub error: String,
}

/// What is known of one automated miner.
#[derive(Debug)]
pub struct AutoMinerInfo {
    pub manager: CachedManager,
    pub deployer: Option<CachedDeployer>,
    pub auth_balance: Option<CachedAuthBalance>,
    /// The ORE miner account, when linked.
    pub miner: Option<MinerInfo>,
}

/// The part of a miner account shown for an automated miner.
#[derive(Debug)]
pub struct MinerInfo {
    pub address: String,
    pub round_id: u64,
    pub checkpoint_id: u64,
    pub deployed: [u64; 25],
    pub rewards_sol: u64,
    pub rewards_ore: u64,
    pub refined_ore: u64,
}

/// Auth ids checked for every manager, whatever is found.
pub const MIN_AUTH_IDS: u64 = 4;

/// Highest auth id checked.
pub const MAX_AUTH_ID: u64 = 100;

/// Whether to check `next_auth_id` after checking the ids below it: always
/// up to the minimum, then only while the previous id had a miner, and
/// never past the maximum.
pub fn continue_auth_scan(next_auth_id: u64, found_at_previous: bool) -> (b: bool)
    ensures
        b == ((next_auth_id < MIN_AUTH_IDS || found_at_previous) && next_auth_id <= MAX_AUTH_ID),
{
    if next_auth_id >= MIN_AUTH_IDS && !found_at_previous {
        return false;
    }
    next_auth_id <= MAX_AUTH_ID
}

impl EvoreCache {
    /// The managers at positions `offset .. offset + limit` in address order.
    pub fn managers_page(&self, offset: usize, limit: usize) -> (r: Vec<CachedManager>)
        requires
            self.well_formed(),
        ensures
            offset >= self.manager_entries().len() ==> r@.len() == 0,
            offset < self.manager_entries().len() ==> r@ =~= self.manager_entries().subrange(
                offset as int,
                if offset + limit < self.manager_entries().len() { offset + limit } else { self.manager_entries().len() as int },
            ).map_values(|e: (String, CachedManager)| e.1),
    {
        let n = self.managers.len();
        let mut r: Vec<CachedManager> = Vec::new();
        if offset >= n {
            return r;
        }
        let end = if limit < n - offset { offset + limit } else { n };
        let mut i = offset;
        while i < end
            invariant
                offset <= i <= end <= n,
                n == self.managers.entries_view().len(),
                r@ =~= self.managers.entries_view().subrange(offset as int, i as int).map_values(|e: (String, CachedManager)| e.1),
            decreases end - i,
        {
            let (_, m) = self.managers.entry_at(i);
            r.push(m.copy());
            i = i + 1;
        }
        r
    }

    /// The deployers at positions `offset .. offset + limit` in address order.
    pub fn deployers_page(&self, offset: usize, limit: usize) -> (r: Vec<CachedDeployer>)
        requires
            self.well_formed(),
        ensures
            offset < self.deployer_entries().len() ==> r@ =~= self.deployer_entries().subrange(
                offset as int,
                if offset + limit < self.deployer_entries().len() { offset + limit } else { self.deployer_entries().len() as int },
            ).map_values(|e: (String, CachedDeployer)| e.1),
            offset >= self.deployer_entries().len() ==> r@.len() == 0,
    {
        let n = self.deployers.len();
        let mut r: Vec<CachedDeployer> = Vec::new();
        if offset >= n {
            return r;
        }
        let end = if limit < n - offset { offset + limit } else { n };
        let mut i = offset;
        while i < end
            invariant
                offset <= i <= end <= n,
                n == self.deployers.entries_view().len(),
                r@ =~= self.deployers.entries_view().subrange(offset as int, i as int).map_values(|e: (String, CachedDeployer)| e.1),
            decreases end - i,
        {
            let (_, d) = self.deployers.entry_at(i);
            r.push(d.copy());
            i = i + 1;
        }
        r
    }

    /// The cached manager at `address`.
    pub fn get_manager(&self, address: &str) -> (r: Option<&CachedManager>)
        requires
            self.well_formed(),
        ensures
            r matches Some(m) ==> self.manager(address@) == Some(*m),
            r is None ==> self.manager(address@) is None,
    {
        self.managers.get(address)
    }

    /// The deployers serving the managers `ms`, in order, skipping managers
    /// with none cached.
    pub open spec fn manager_deployers(&self, ms: Seq<CachedManager>) -> Seq<CachedDeployer>
        decreases ms.len(),
    {
        if ms.len() == 0 {
            Seq::empty()
        } else {
            let prev = self.manager_deployers(ms.drop_last());
            match self.deployer_address(ms.last().address@) {
                Some(a) => match self.deployer(a@) {
                    Some(d) => prev.push(d),
                    None => prev,
                },
                None => prev,
            }
        }
    }

    /// Whether a deployer is cached for a manager.
    pub open spec fn has_deployer(&self) -> spec_fn(CachedManager) -> bool {
        |m: CachedManager| self.deployer_of(m) is Some
    }

    /// The deployer cached for manager `m`, if any.
    pub open spec fn deployer_of(&self, m: CachedManager) -> Option<CachedDeployer> {
        match self.deployer_address(m.address@) {
            Some(a) => self.deployer(a@),
            None => None,
        }
    }

    /// The managers of `authority`, as `get_managers_by_authority` lists them.
    pub open spec fn authority_listing(&self, authority: Seq<char>) -> Seq<CachedManager> {
        match self.authority_managers(authority) {
            Some(addrs) => managers_listed(addrs, self.manager_entries()),
            None => Seq::empty(),
        }
    }

    /// The deployers of all managers of `authority`, with their number.
    pub fn get_deployers_by_authority(&self, authority: &str) -> (r: DeployersResponse)
        requires
            self.well_formed(),
        ensures
            r.deployers@ == self.manager_deployers(self.authority_listing(authority@)),
            r.total == r.deployers@.len(),
    {
        let managers = self.get_managers_by_authority(authority);
        let ghost listing = self.authority_listing(authority@);
        let mut deployers: Vec<CachedDeployer> = Vec::new();
        let mut i: usize = 0;
        while i < managers.len()
            invariant
                self.well_formed(),
                i <= managers@.len(),
                managers@.len() == listing.len(),
                forall|t: int| 0 <= t < managers@.len() ==> *managers@[t] == listing[t],
                deployers@ == self.manager_deployers(listing.take(i as int)),
            decreases managers@.len() - i,
        {
            proof {
                assert(listing.take(i + 1).drop_last() =~= listing.take(i as int));
                assert(listing.take(i + 1).last() == *managers@[i as int]);
            }
            let m = managers[i];
            match self.get_deployer_for_manager(m.address.as_str()) {
                Some(d) => {
                    deployers.push(d.copy());
                },
                None => {},
            }
            i = i + 1;
        }
        proof {
            assert(listing.take(listing.len() as int) =~= listing);
        }
        let total = deployers.len();
        DeployersResponse { deployers, total }
    }

    /// The cached deployer at `address`.
    pub fn get_deployer(&self, address: &str) -> (r: Option<&CachedDeployer>)
        requires
            self.well_formed(),
        ensures
            r matches Some(d) ==> self.deployer(address@) == Some(*d),
            r is None ==> self.deployer(address@) is None,
    {
        self.deployers.get(address)
    }
}

/// The manager an account holds: its address and the authority stored in
/// bytes 8 to 40 (after the discriminator); none when the account is
/// shorter than a Manager account.
pub fn parse_manager(address: &str, data: &[u8]) -> (r: Option<CachedManager>)
    ensures
        data@.len() < MANAGER_SIZE ==> r is None,
        data@.len() >= MANAGER_SIZE ==> (r matches Some(m) && m.address@ == address@
            && m.authority@ == pubkey_text(data@.subrange(8, 40))),
{
    if data.len() < MANAGER_SIZE {
        return None;
    }
    let authority = pubkey_to_string(key_at(data, 8));
    Some(CachedManager { address: address.to_owned(), authority })
}

/// The 32 bytes of `data` from `start`.
fn key_at(data: &[u8], start: usize) -> (k: [u8; 32])
    requires
        start + 32 <= data@.len(),
    ensures
        k@ == data@.subrange(start as int, start + 32),
{
    let mut k = [0u8; 32];
    let n = data.len();
    let mut i: usize = 0;
    while i < 32
        invariant
            i <= 32,
            n == data@.len(),
            start + 32 <= data@.len(),
            forall|t: int| 0 <= t < i ==> k@[t] == data@[start + t],
        decreases 32 - i,
    {
        k[i] = data[start + i];
        i = i + 1;
    }
    assert(k@ =~= data@.subrange(start as int, start + 32));
    k
}

/// The little-endian `u64` of `data` at `start`.
fn u64_at(data: &[u8], start: usize) -> (v: u64)
    requires
        start + 8 <= data@.len(),
    ensures
        v == le_u64_at(data@, start as int),
{
    let n = data.len();
    assert(n == data@.len());
    let bytes: [u8; 8] = [
        data[start],
        data[start + 1],
        data[start + 2],
        data[start + 3],
        data[start + 4],
        data[start + 5],
        data[start + 6],
        data[start + 7],
    ];
    proof {
        assert(bytes@ =~= data@.subrange(start as int, start + 8));
    }
    u64_from_le_bytes(bytes)
}

/// The deployer an account holds: manager and deploy authority keys at bytes
/// 8 and 40, then five little-endian `u64` fields (fees, expected fees, limit)
/// from byte 72; none when the account is shorter than a Deployer account.
pub fn parse_deployer(address: &str, data: &[u8]) -> (r: Option<CachedDeployer>)
    ensures
        data@.len() < DEPLOYER_SIZE ==> r is None,
        data@.len() >= DEPLOYER_SIZE ==> (r matches Some(d) && d.address@ == address@
            && d.manager_key@ == pubkey_text(data@.subrange(8, 40))
            && d.deploy_authority@ == pubkey_text(data@.subrange(40, 72))
            && d.bps_fee == le_u64_at(data@, 72)
            && d.flat_fee == le_u64_at(data@, 80)
            && d.expected_bps_fee == le_u64_at(data@, 88)
            && d.expected_flat_fee == le_u64_at(data@, 96)
            && d.max_per_round == le_u64_at(data@, 104)),
{
    if data.len() < DEPLOYER_SIZE {
        return None;
    }
    let manager_key = pubkey_to_string(key_at(data, 8));
    let deploy_authority = pubkey_to_string(key_at(data, 40));
    Some(CachedDeployer {
        address: address.to_owned(),
        manager_key,
        deploy_authority,
        bps_fee: u64_at(data, 72),
        flat_fee: u64_at(data, 80),
        expected_bps_fee: u64_at(data, 88),
        expected_flat_fee: u64_at(data, 96),
        max_per_round: u64_at(data, 104),
    })
}

/// A manager upserted into the cache is listed among its authority's
/// managers: when its address is recorded for the authority and the cache
/// holds it at that address, the listing contains it.
pub proof fn lemma_upserted_manager_listed(
    addrs: Seq<(String, ())>,
    managers: Seq<(String, CachedManager)>,
    m: CachedManager,
)
    requires
        lookup(addrs, m.address@) is Some,
        lookup(managers, m.address@) == Some(m),
    ensures
        managers_listed(addrs, managers).contains(m),
    decreases addrs.len(),
{
    let i = choose|i: int| 0 <= i < addrs.len() && (#[trigger] addrs[i]).0@ == m.address@;
    if i == addrs.len() - 1 {
        assert(managers_listed(addrs, managers).last() == m);
    } else {
        let init = addrs.drop_last();
        assert(init[i] == addrs[i]);
        lemma_upserted_manager_listed(init, managers, m);
        let prev = managers_listed(init, managers);
        let k = choose|k: int| 0 <= k < prev.len() && prev[k] == m;
        assert(managers_listed(addrs, managers)[k] == m);
    }
}

proof fn lemma_listing_shape(addrs: Seq<(String, ())>, managers: Seq<(String, CachedManager)>)
    requires
        sorted_keys(addrs),
        keyed_by_address(managers),
    ensures
        forall|i: int| 0 <= i < managers_listed(addrs, managers).len() ==> {
            &&& lookup(addrs, (#[trigger] managers_listed(addrs, managers)[i]).address@) is Some
            &&& lookup(managers, managers_listed(addrs, managers)[i].address@) == Some(managers_listed(addrs, managers)[i])
        },
        forall|i: int, j: int| 0 <= i < j < managers_listed(addrs, managers).len() ==> key_before(
            (#[trigger] managers_listed(addrs, managers)[i]).address@,
            (#[trigger] managers_listed(addrs, managers)[j]).address@,
        ),
    decreases addrs.len(),
{
    if addrs.len() > 0 {
        let init = addrs.drop_last();
        assert(sorted_keys(init)) by {
            assert forall|i: int, j: int| 0 <= i < j < init.len() implies key_before(#[trigger] init[i].0@, #[trigger] init[j].0@) by {
                assert(init[i] == addrs[i] && init[j] == addrs[j]);
            }
        }
        lemma_listing_shape(init, managers);
        let prev = managers_listed(init, managers);
        let l = managers_listed(addrs, managers);
        let last = addrs.last().0@;
        assert forall|y: Seq<char>| #[trigger] lookup(init, y) is Some implies lookup(addrs, y) is Some
            && key_before(y, last) by {
            let k = choose|k: int| 0 <= k < init.len() && (#[trigger] init[k]).0@ == y;
            assert(addrs[k] == init[k]);
            assert(key_before(addrs[k].0@, addrs[addrs.len() - 1].0@));
        }
        match lookup(managers, last) {
            Some(m) => {
                assert(l == prev.push(m));
                assert(m.address@ == last);
                assert(addrs[addrs.len() - 1].0@ == last);
                assert forall|i: int| 0 <= i < l.len() implies {
                    &&& lookup(addrs, (#[trigger] l[i]).address@) is Some
                    &&& lookup(managers, l[i].address@) == Some(l[i])
                } by {
                    if i < prev.len() {
                        assert(l[i] == prev[i]);
                        assert(lookup(init, prev[i].address@) is Some);
                    }
                }
                assert forall|i: int, j: int| 0 <= i < j < l.len() implies key_before(
                    (#[trigger] l[i]).address@,
                    (#[trigger] l[j]).address@,
                ) by {
                    assert(l[i] == prev[i]);
                    assert(lookup(init, prev[i].address@) is Some);
                    if j < prev.len() {
                        assert(l[j] == prev[j]);
                    }
                }
            },
            None => {
                assert(l == prev);
                assert forall|i: int| 0 <= i < l.len() implies {
                    &&& lookup(addrs, (#[trigger] l[i]).address@) is Some
                    &&& lookup(managers, l[i].address@) == Some(l[i])
                } by {
                    assert(lookup(init, prev[i].address@) is Some);
                }
            },
        }
    }
}

/// The listing of an authority holds exactly the cached managers of that
/// authority, each once, in increasing address order.
pub proof fn lemma_authority_listing_exact(c: EvoreCache, authority: Seq<char>)
    requires
        c.well_formed(),
    ensures
        forall|i: int| 0 <= i < c.authority_listing(authority).len() ==> (#[trigger] c.authority_listing(authority)[i]).authority@ == authority
            && c.manager(c.authority_listing(authority)[i].address@) == Some(c.authority_listing(authority)[i]),
        forall|x: Seq<char>| #[trigger] c.manager(x) is Some && c.manager(x).unwrap().authority@ == authority
            ==> c.authority_listing(authority).contains(c.manager(x).unwrap()),
        forall|i: int, j: int| 0 <= i < j < c.authority_listing(authority).len() ==> key_before(
            (#[trigger] c.authority_listing(authority)[i]).address@,
            (#[trigger] c.authority_listing(authority)[j]).address@,
        ),
{
    let idx = c.managers_by_authority.entries_view();
    let managers = c.managers.entries_view();
    match lookup(idx, authority) {
        None => {
            assert forall|x: Seq<char>| #[trigger] c.manager(x) is Some && c.manager(x).unwrap().authority@ == authority
                implies c.authority_listing(authority).contains(c.manager(x).unwrap()) by {
                assert(listed_in(idx, authority, x));
            }
        },
        Some(set) => {
            let addrs = set.entries_view();
            lemma_keyed_sorted(set);
            lemma_listing_shape(addrs, managers);
            let l = managers_listed(addrs, managers);
            assert(c.authority_listing(authority) == l);
            assert forall|i: int| 0 <= i < l.len() implies (#[trigger] l[i]).authority@ == authority
                && c.manager(l[i].address@) == Some(l[i]) by {
                assert(listed_in(idx, authority, l[i].address@));
            }
            assert forall|x: Seq<char>| #[trigger] c.manager(x) is Some && c.manager(x).unwrap().authority@ == authority
                implies l.contains(c.manager(x).unwrap()) by {
                let m = c.manager(x).unwrap();
                assert(listed_in(idx, authority, x));
                assert(m.address@ == x);
                lemma_upserted_manager_listed(addrs, managers, m);
            }
        },
    }
}


/// The deployers of managers `ms`: one for each manager with a cached
/// deployer, that manager's deployer, in the managers' order, and nothing
/// else.
pub proof fn lemma_manager_deployers(c: EvoreCache, ms: Seq<CachedManager>)
    ensures
        c.manager_deployers(ms).len() == ms.filter(c.has_deployer()).len(),
        forall|j: int| 0 <= j < c.manager_deployers(ms).len()
            ==> c.deployer_of(ms.filter(c.has_deployer())[j]) == Some(#[trigger] c.manager_deployers(ms)[j]),
        forall|i: int| 0 <= i < ms.len() && #[trigger] c.deployer_of(ms[i]) is Some
            ==> c.manager_deployers(ms).contains(c.deployer_of(ms[i]).unwrap()),
        forall|j: int| 0 <= j < c.manager_deployers(ms).len() ==> exists|i: int| 0 <= i < ms.len()
            && c.deployer_of(ms[i]) == Some(#[trigger] c.manager_deployers(ms)[j]),
    decreases ms.len(),
{
    if ms.len() > 0 {
        let init = ms.drop_last();
        lemma_manager_deployers(c, init);
        let prev = c.manager_deployers(init);
        let all = c.manager_deployers(ms);
        reveal(Seq::filter);
        assert(ms.filter(c.has_deployer()) == (if c.deployer_of(ms.last()) is Some {
            init.filter(c.has_deployer()).push(ms.last())
        } else {
            init.filter(c.has_deployer())
        }));
        assert(all == (if c.deployer_of(ms.last()) is Some { prev.push(c.deployer_of(ms.last()).unwrap()) } else { prev }));
        assert forall|j: int| 0 <= j < all.len()
            implies c.deployer_of(ms.filter(c.has_deployer())[j]) == Some(#[trigger] all[j]) by {
            if j < prev.len() {
                assert(all[j] == prev[j]);
                assert(ms.filter(c.has_deployer())[j] == init.filter(c.has_deployer())[j]);
            }
        }
        assert forall|i: int| 0 <= i < ms.len() && #[trigger] c.deployer_of(ms[i]) is Some implies all.contains(c.deployer_of(ms[i]).unwrap()) by {
            if i < init.len() {
                assert(init[i] == ms[i]);
                let t = choose|t: int| 0 <= t < prev.len() && prev[t] == c.deployer_of(init[i]).unwrap();
                assert(all[t] == prev[t]);
            } else {
                assert(all[all.len() - 1] == c.deployer_of(ms[i]).unwrap());
            }
        }
        assert forall|j: int| 0 <= j < all.len() implies exists|i: int| 0 <= i < ms.len()
            && c.deployer_of(ms[i]) == Some(#[trigger] all[j]) by {
            if j < prev.len() {
                assert(all[j] == prev[j]);
                let i = choose|i: int| 0 <= i < init.len() && c.deployer_of(init[i]) == Some(#[trigger] prev[j]);
                assert(ms[i] == init[i]);
            } else {
                assert(c.deployer_of(ms[ms.len() - 1]) == Some(all[j]));
            }
        }
    }
}

/// The deployers answered for an authority: every cached manager of that
/// authority with a cached deployer has its deployer in the answer, every
/// deployer answered serves one of its managers, and there are as many as
/// the authority has managers with a cached deployer.
pub proof fn lemma_deployers_by_authority(c: EvoreCache, authority: Seq<char>)
    requires
        c.well_formed(),
    ensures
        forall|x: Seq<char>| #[trigger] c.manager(x) matches Some(m) ==> (m.authority@ == authority && c.deployer_of(m) is Some
            ==> c.manager_deployers(c.authority_listing(authority)).contains(c.deployer_of(m).unwrap())),
        forall|j: int| #![trigger c.manager_deployers(c.authority_listing(authority))[j]]
            0 <= j < c.manager_deployers(c.authority_listing(authority)).len() ==> exists|x: Seq<char>| #![trigger c.manager(x)]
            c.manager(x) is Some && c.manager(x).unwrap().authority@ == authority
            && c.deployer_of(c.manager(x).unwrap()) == Some(c.manager_deployers(c.authority_listing(authority))[j]),
        c.manager_deployers(c.authority_listing(authority)).len()
            == c.authority_listing(authority).filter(c.has_deployer()).len(),
{
    let listing = c.authority_listing(authority);
    lemma_authority_listing_exact(c, authority);
    lemma_manager_deployers(c, listing);
    let ds = c.manager_deployers(listing);
    assert forall|x: Seq<char>| #[trigger] c.manager(x) is Some && c.manager(x).unwrap().authority@ == authority
        && c.deployer_of(c.manager(x).unwrap()) is Some
        implies ds.contains(c.deployer_of(c.manager(x).unwrap()).unwrap()) by {
        let m = c.manager(x).unwrap();
        assert(listing.contains(m));
        let i = choose|i: int| 0 <= i < listing.len() && listing[i] == m;
        assert(c.deployer_of(listing[i]) is Some);
    }
    assert forall|j: int| #![trigger ds[j]] 0 <= j < ds.len() implies exists|x: Seq<char>| #![trigger c.manager(x)]
        c.manager(x) is Some && c.manager(x).unwrap().authority@ == authority
        && c.deployer_of(c.manager(x).unwrap()) == Some(ds[j]) by {
        let i = choose|i: int| 0 <= i < listing.len() && c.deployer_of(listing[i]) == Some(#[trigger] ds[j]);
        let x = listing[i].address@;
        assert(c.authority_listing(authority)[i].authority@ == authority);
        assert(c.manager(x) == Some(listing[i]));
    }
}

} // verus!
