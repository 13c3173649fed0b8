//! The non-fungible side of the ledger: an admin-gated registry of
//! uniquely identified items. Each item has one owning account and an
//! inert metadata payload; each account has an item count. Identifiers
//! come from a strictly increasing counter and are never reused, not
//! even after a burn.
//!
//! The registry's global invariant, kept by every operation: each
//! account's count equals the number of live ownership records naming
//! it, so the counts add up to the number of live records, and the owner
//! of any live record has a positive count.

use vstd::prelude::*;
use vstd::set_lib::lemma_len_subset;

use crate::auth::Account;
use crate::auth::AuthGate;
use crate::errors::NFTError;
use crate::sums::int_of_u32;
use crate::sums::lemma_sum_u32_insert;
use crate::sums::msum;
use crate::umap::UMap;

verus! {

/// An item's payload, fixed at mint time. The `owner` field records the
/// receiver of the mint; it is inert payload like the rest and is not
/// rewritten when the item later changes hands.
#[derive(Clone)]
pub struct NFTMetadata {
    pub name: String,
    pub description: String,
    pub image_url: String,
    pub level: u32,
    pub owner: Account,
}

/// A notification record, appended exactly when an operation commits.
#[derive(Clone, Copy, Debug, PartialEq, Eq, Structural)]
pub enum NftEvent {
    Init(Account),
    Mint(Account, u32),
    Transfer(Account, Account, u32),
    Burn(Account, u32),
}

/// The ownership registry's durable state.
pub struct NftStore {
    admin: Option<Account>,
    counter: u32,
    owners: UMap<Account>,
    metadata: UMap<NFTMetadata>,
    counts: UMap<u32>,
    events: Vec<NftEvent>,
}

/// The set of item identifiers whose ownership record names `a`.
pub open spec fn owned_set(owners: Map<u64, Account>, a: Account) -> Set<u64> {
    Set::new(|k: u64| owners.dom().contains(k) && owners[k] == a)
}

/// An account's stored item count; an absent record reads as 0.
pub open spec fn raw_count(counts: Map<u64, u32>, a: Account) -> int {
    if counts.dom().contains(a) {
        counts[a] as int
    } else {
        0
    }
}

/// Every stored count equals the number of live records naming the account.
pub open spec fn counts_accurate(owners: Map<u64, Account>, counts: Map<u64, u32>) -> bool {
    forall|a: Account| raw_count(counts, a) == (#[trigger] owned_set(owners, a)).len()
}

/// Every live identifier lies strictly below the counter.
pub open spec fn ids_below(owners: Map<u64, Account>, c: u32) -> bool {
    forall|k: u64| #[trigger] owners.dom().contains(k) ==> k < c as u64
}

impl NftStore {
    /// The admin singleton, if it has been set.
    pub closed spec fn admin_of(self) -> Option<Account> {
        self.admin
    }

    /// The monotonic counter that assigns fresh item identifiers.
    pub closed spec fn counter_of(self) -> u32 {
        self.counter
    }

    /// The ownership records, keyed by item identifier.
    pub closed spec fn owners_map(self) -> Map<u64, Account> {
        self.owners@
    }

    /// The metadata records, keyed by item identifier.
    pub closed spec fn meta_map(self) -> Map<u64, NFTMetadata> {
        self.metadata@
    }

    /// The per-account item counts.
    pub closed spec fn counts_map(self) -> Map<u64, u32> {
        self.counts@
    }

    /// The notification records committed so far.
    pub closed spec fn log(self) -> Seq<NftEvent> {
        self.events@
    }

    /// Whether a live ownership record exists for the identifier.
    pub open spec fn has_item(self, token_id: u32) -> bool {
        self.owners_map().dom().contains(token_id as u64)
    }

    /// The owner a live record names.
    pub open spec fn owner_of(self, token_id: u32) -> Account {
        self.owners_map()[token_id as u64]
    }

    /// An account's item count; an absent record reads as 0.
    pub open spec fn count_of(self, a: Account) -> int {
        raw_count(self.counts_map(), a)
    }

    /// Well-formedness: representation invariants of the stores and the
    /// registry's global invariants. Counts are exact fibers of the
    /// ownership map, identifiers never reach the counter, metadata and
    /// ownership records live and die together, and before the admin is
    /// set the registry is untouched.
    pub closed spec fn wf(self) -> bool {
        &&& self.owners.wf()
        &&& self.metadata.wf()
        &&& self.counts.wf()
        &&& self.owners_map().dom().finite()
        &&& self.counts_map().dom().finite()
        &&& self.meta_map().dom() == self.owners_map().dom()
        &&& ids_below(self.owners_map(), self.counter_of())
        &&& self.owners_map().dom().len() <= self.counter_of()
        &&& counts_accurate(self.owners_map(), self.counts_map())
        &&& msum(int_of_u32(self.counts_map())) == self.owners_map().dom().len()
        &&& (self.admin_of() is None ==> self.owners_map().dom() == Set::<u64>::empty()
            && self.counter_of() == 0)
    }

    /// A fresh registry: no admin, counter at 0, no records, no events.
    pub fn new() -> (store: NftStore)
        ensures
            store.wf(),
            store.admin_of() is None,
            store.counter_of() == 0,
            store.owners_map() == Map::<u64, Account>::empty(),
            store.meta_map() == Map::<u64, NFTMetadata>::empty(),
            store.counts_map() == Map::<u64, u32>::empty(),
            store.log() == Seq::<NftEvent>::empty(),
    {
        let store = NftStore {
            admin: None,
            counter: 0,
            owners: UMap::new(),
            metadata: UMap::new(),
            counts: UMap::new(),
            events: Vec::new(),
        };
        proof {
            broadcast use vstd::set::group_set_axioms;

            assert forall|a: Account|
                raw_count(store.counts_map(), a) == (#[trigger] owned_set(
                    store.owners_map(),
                    a,
                )).len() by {
                assert(owned_set(store.owners_map(), a) =~= Set::<u64>::empty());
            }
            assert(int_of_u32(store.counts_map()).dom() =~= Set::<u64>::empty());
        }
        store
    }

    /// The notification records committed so far, for outside observers.
    pub fn event_log(&self) -> (r: &Vec<NftEvent>)
        ensures
            r@ == self.log(),
    {
        &self.events
    }
}

/// The storage access layer: one function per stored entity kind, each a
/// plain read or a plain overwrite of one record. The layer knows the
/// representation; the registry's invariants are the orchestrator's
/// business, so these functions require and keep only the stores'
/// representation well-formedness.
pub struct NFTStorageLayer;

impl NftStore {
    /// Representation well-formedness of the backing stores alone.
    pub closed spec fn rep_wf(self) -> bool {
        &&& self.owners.wf()
        &&& self.metadata.wf()
        &&& self.counts.wf()
    }
}

/// Everything but the record the layer call touches stays as it was.
pub open spec fn same_admin_counter(a: NftStore, b: NftStore) -> bool {
    &&& a.admin_of() == b.admin_of()
    &&& a.counter_of() == b.counter_of()
    &&& a.log() == b.log()
}

impl NFTStorageLayer {
    /// Records the admin singleton.
    pub fn set_admin(store: &mut NftStore, admin: Account)
        ensures
            final(store).admin_of() == Some(admin),
            final(store).counter_of() == old(store).counter_of(),
            final(store).owners_map() == old(store).owners_map(),
            final(store).meta_map() == old(store).meta_map(),
            final(store).counts_map() == old(store).counts_map(),
            final(store).log() == old(store).log(),
            final(store).rep_wf() == old(store).rep_wf(),
    {
        store.admin = Some(admin);
    }

    /// Reads the admin singleton; `None` when it was never set.
    pub fn retrieve_admin(store: &NftStore) -> (r: Option<Account>)
        ensures
            r == store.admin_of(),
    {
        store.admin
    }

    /// Raises the account's item count by one.
    pub fn increment_balance(store: &mut NftStore, address: Account)
        requires
            old(store).rep_wf(),
            raw_count(old(store).counts_map(), address) < u32::MAX,
        ensures
            final(store).rep_wf(),
            final(store).counts_map() == old(store).counts_map().insert(
                address,
                (raw_count(old(store).counts_map(), address) + 1) as u32,
            ),
            final(store).owners_map() == old(store).owners_map(),
            final(store).meta_map() == old(store).meta_map(),
            same_admin_counter(*old(store), *final(store)),
    {
        let balance: u32 = match store.counts.get(address) {
            Some(b) => *b,
            None => 0,
        };
        store.counts.insert(address, balance + 1);
    }

    /// Lowers the account's item count by one; the count must be positive,
    /// as it is for any account that holds an item.
    pub fn decrement_balance(store: &mut NftStore, address: Account)
        requires
            old(store).rep_wf(),
            raw_count(old(store).counts_map(), address) >= 1,
        ensures
            final(store).rep_wf(),
            final(store).counts_map() == old(store).counts_map().insert(
                address,
                (raw_count(old(store).counts_map(), address) - 1) as u32,
            ),
            final(store).owners_map() == old(store).owners_map(),
            final(store).meta_map() == old(store).meta_map(),
            same_admin_counter(*old(store), *final(store)),
    {
        let balance: u32 = match store.counts.get(address) {
            Some(b) => *b,
            None => 0,
        };
        store.counts.insert(address, balance - 1);
    }

    /// Writes the ownership record of an item.
    pub fn set_token_owner(store: &mut NftStore, token_id: u32, owner: Account)
        requires
            old(store).rep_wf(),
        ensures
            final(store).rep_wf(),
            final(store).owners_map() == old(store).owners_map().insert(token_id as u64, owner),
            final(store).meta_map() == old(store).meta_map(),
            final(store).counts_map() == old(store).counts_map(),
            same_admin_counter(*old(store), *final(store)),
    {
        store.owners.insert(token_id as u64, owner);
    }

    /// Reads the ownership record of an item; `None` when no record lives.
    pub fn get_token_owner(store: &NftStore, token_id: u32) -> (r: Option<Account>)
        requires
            store.rep_wf(),
        ensures
            r == (if store.has_item(token_id) {
                Some(store.owner_of(token_id))
            } else {
                None::<Account>
            }),
    {
        match store.owners.get(token_id as u64) {
            Some(owner) => Some(*owner),
            None => None,
        }
    }

    /// Writes the metadata record of an item.
    pub fn set_token_metadata(store: &mut NftStore, token_id: u32, metadata: NFTMetadata)
        requires
            old(store).rep_wf(),
        ensures
            final(store).rep_wf(),
            final(store).meta_map() == old(store).meta_map().insert(token_id as u64, metadata),
            final(store).owners_map() == old(store).owners_map(),
            final(store).counts_map() == old(store).counts_map(),
            same_admin_counter(*old(store), *final(store)),
    {
        store.metadata.insert(token_id as u64, metadata);
    }

    /// Reads the metadata record of an item; `None` when no record lives.
    pub fn get_token_metadata(store: &NftStore, token_id: u32) -> (r: Option<&NFTMetadata>)
        requires
            store.rep_wf(),
        ensures
            (match r {
                Some(m) => store.meta_map().dom().contains(token_id as u64) && *m
                    == store.meta_map()[token_id as u64],
                None => !store.meta_map().dom().contains(token_id as u64),
            }),
    {
        store.metadata.get(token_id as u64)
    }
}

/// A fiber of the ownership map is finite and no larger than the set of
/// live records.
proof fn lemma_owned_set_bound(owners: Map<u64, Account>, a: Account)
    requires
        owners.dom().finite(),
    ensures
        owned_set(owners, a).finite(),
        owned_set(owners, a).len() <= owners.dom().len(),
{
    lemma_len_subset(owned_set(owners, a), owners.dom());
}

/// Recording a fresh item for `to` raises exactly `to`'s fiber, by one.
proof fn lemma_counts_after_mint(
    owners: Map<u64, Account>,
    counts: Map<u64, u32>,
    n: u64,
    to: Account,
    c2: u32,
)
    requires
        owners.dom().finite(),
        counts_accurate(owners, counts),
        !owners.dom().contains(n),
        c2 == raw_count(counts, to) + 1,
    ensures
        counts_accurate(owners.insert(n, to), counts.insert(to, c2)),
{
    broadcast use vstd::set::group_set_axioms;

    let o2 = owners.insert(n, to);
    let k2 = counts.insert(to, c2);
    assert forall|a: Account|
        raw_count(k2, a) == (#[trigger] owned_set(o2, a)).len() by {
        if a == to {
            assert(owned_set(o2, a) =~= owned_set(owners, a).insert(n));
            lemma_owned_set_bound(owners, a);
            assert(!owned_set(owners, a).contains(n));
        } else {
            assert(owned_set(o2, a) =~= owned_set(owners, a));
        }
    }
}

/// Reassigning a live record from `from` to `to` moves one unit between
/// their fibers and touches no other fiber.
proof fn lemma_counts_after_reassign(
    owners: Map<u64, Account>,
    counts: Map<u64, u32>,
    id: u64,
    from: Account,
    to: Account,
    cf2: u32,
    ct2: u32,
)
    requires
        owners.dom().finite(),
        counts_accurate(owners, counts),
        owners.dom().contains(id),
        owners[id] == from,
        from != to,
        cf2 == raw_count(counts, from) - 1,
        ct2 == raw_count(counts, to) + 1,
    ensures
        counts_accurate(owners.insert(id, to), counts.insert(from, cf2).insert(to, ct2)),
{
    broadcast use vstd::set::group_set_axioms;

    let o2 = owners.insert(id, to);
    let k2 = counts.insert(from, cf2).insert(to, ct2);
    assert forall|a: Account|
        raw_count(k2, a) == (#[trigger] owned_set(o2, a)).len() by {
        if a == to {
            assert(owned_set(o2, a) =~= owned_set(owners, a).insert(id));
            lemma_owned_set_bound(owners, a);
            assert(!owned_set(owners, a).contains(id));
        } else if a == from {
            assert(owned_set(o2, a) =~= owned_set(owners, a).remove(id));
            lemma_owned_set_bound(owners, a);
            assert(owned_set(owners, a).contains(id));
        } else {
            assert(owned_set(o2, a) =~= owned_set(owners, a));
        }
    }
}

/// Deleting a live record of `from` lowers exactly `from`'s fiber, by one.
proof fn lemma_counts_after_remove(
    owners: Map<u64, Account>,
    counts: Map<u64, u32>,
    id: u64,
    from: Account,
    cf2: u32,
)
    requires
        owners.dom().finite(),
        counts_accurate(owners, counts),
        owners.dom().contains(id),
        owners[id] == from,
        cf2 == raw_count(counts, from) - 1,
    ensures
        counts_accurate(owners.remove(id), counts.insert(from, cf2)),
{
    broadcast use vstd::set::group_set_axioms;

    let o2 = owners.remove(id);
    let k2 = counts.insert(from, cf2);
    assert forall|a: Account|
        raw_count(k2, a) == (#[trigger] owned_set(o2, a)).len() by {
        if a == from {
            assert(owned_set(o2, a) =~= owned_set(owners, a).remove(id));
            lemma_owned_set_bound(owners, a);
            assert(owned_set(owners, a).contains(id));
        } else {
            assert(owned_set(o2, a) =~= owned_set(owners, a));
        }
    }
}

/// The outcome `init_admin` owes: the admin singleton is set at most once.
pub open spec fn init_admin_result(pre: NftStore) -> Result<(), NFTError> {
    if pre.admin_of() is Some {
        Err(NFTError::AdminAlreadyExists)
    } else {
        Ok(())
    }
}

/// The outcome `mint` owes: only the recorded admin's sanction mints, and
/// a fresh identifier must exist.
pub open spec fn mint_result(pre: NftStore, auth: Set<Account>) -> Result<u32, NFTError> {
    match pre.admin_of() {
        None => Err(NFTError::NotAuthorized),
        Some(ad) => if !auth.contains(ad) {
            Err(NFTError::NotAuthorized)
        } else if pre.counter_of() == u32::MAX {
            Err(NFTError::Overflow)
        } else {
            Ok(pre.counter_of())
        },
    }
}

/// The outcome the ownership verbs (`transfer`, `burn`) owe: the record
/// must exist, it must name `from`, and `from` must have sanctioned the
/// call — checked in that order.
pub open spec fn item_move_result(
    pre: NftStore,
    auth: Set<Account>,
    from: Account,
    token_id: u32,
) -> Result<(), NFTError> {
    if !pre.has_item(token_id) {
        Err(NFTError::TokenDoesNotExist)
    } else if pre.owner_of(token_id) != from {
        Err(NFTError::InvalidTokenOwner)
    } else if !auth.contains(from) {
        Err(NFTError::NotAuthorized)
    } else {
        Ok(())
    }
}

/// A successful mint hands out the counter's value and advances it.
pub open spec fn mint_advances(pre: NftStore, post: NftStore, token_id: u32) -> bool {
    &&& token_id == pre.counter_of()
    &&& post.counter_of() == token_id + 1
}

/// How every count moves when `to` receives a fresh item.
pub open spec fn counts_bumped(pre: NftStore, post: NftStore, to: Account) -> bool {
    forall|c: Account| #[trigger]
        post.count_of(c) == pre.count_of(c) + (if c == to {
            1int
        } else {
            0
        })
}

/// How every count moves when an item passes from `from` to `to`
/// (a self-transfer nets to no change).
pub open spec fn counts_shifted(pre: NftStore, post: NftStore, from: Account, to: Account) -> bool {
    forall|c: Account| #[trigger]
        post.count_of(c) == pre.count_of(c) + (if c == to {
            1int
        } else {
            0
        }) - (if c == from {
            1int
        } else {
            0
        })
}

/// How every count moves when an item of `from` is destroyed.
pub open spec fn counts_dropped(pre: NftStore, post: NftStore, from: Account) -> bool {
    forall|c: Account| #[trigger]
        post.count_of(c) == pre.count_of(c) - (if c == from {
            1int
        } else {
            0
        })
}

/// The item-ownership contract: admin lifecycle, minting, transfer and
/// burn of uniquely identified items.
pub struct NFTContract;

impl NFTContract {
    /// Sets the admin singleton — one transition, `Unset` to `Set` — and
    /// initializes the identifier counter to 0. A second call fails with
    /// `AdminAlreadyExists` and changes nothing.
    pub fn init_admin(store: &mut NftStore, admin: Account) -> (r: Result<(), NFTError>)
        requires
            old(store).wf(),
        ensures
            final(store).wf(),
            r == init_admin_result(*old(store)),
            (match r {
                Ok(()) => {
                    &&& final(store).admin_of() == Some(admin)
                    &&& final(store).counter_of() == 0
                    &&& final(store).owners_map() == old(store).owners_map()
                    &&& final(store).meta_map() == old(store).meta_map()
                    &&& final(store).counts_map() == old(store).counts_map()
                    &&& final(store).log() == old(store).log().push(NftEvent::Init(admin))
                },
                Err(_) => *final(store) == *old(store),
            }),
    {
        if store.admin.is_some() {
            return Err(NFTError::AdminAlreadyExists);
        }
        NFTStorageLayer::set_admin(store, admin);
        store.counter = 0;
        store.events.push(NftEvent::Init(admin));
        Ok(())
    }

    /// Mints a fresh item to `to`: hands out the counter's value as the
    /// new identifier, advances the counter, records ownership and
    /// payload, and raises `to`'s count. Requires the recorded admin's
    /// sanction; fails `NotAuthorized` when no admin is recorded or the
    /// admin did not sanction the call, and `Overflow` when the counter
    /// is exhausted.
    pub fn mint(
        store: &mut NftStore,
        auth: &AuthGate,
        to: Account,
        name: String,
        description: String,
        image_url: String,
        level: u32,
    ) -> (r: Result<u32, NFTError>)
        requires
            old(store).wf(),
        ensures
            final(store).wf(),
            r == mint_result(*old(store), auth@),
            (match r {
                Ok(token_id) => {
                    &&& mint_advances(*old(store), *final(store), token_id)
                    &&& final(store).admin_of() == old(store).admin_of()
                    &&& final(store).owners_map() == old(store).owners_map().insert(
                        token_id as u64,
                        to,
                    )
                    &&& final(store).meta_map() == old(store).meta_map().insert(
                        token_id as u64,
                        (NFTMetadata { name, description, image_url, level, owner: to }),
                    )
                    &&& counts_bumped(*old(store), *final(store), to)
                    &&& final(store).log() == old(store).log().push(NftEvent::Mint(to, token_id))
                },
                Err(_) => *final(store) == *old(store),
            }),
    {
        let admin = match NFTStorageLayer::retrieve_admin(store) {
            Some(a) => a,
            None => {
                return Err(NFTError::NotAuthorized);
            },
        };
        if !auth.grants(admin) {
            return Err(NFTError::NotAuthorized);
        }
        if store.counter == u32::MAX {
            return Err(NFTError::Overflow);
        }
        let ghost o0 = store.owners_map();
        let ghost k0 = store.counts_map();
        let token_id: u32 = store.counter;
        proof {
            broadcast use vstd::set::group_set_axioms;

            lemma_owned_set_bound(o0, to);
            assert(!o0.dom().contains(token_id as u64));
        }
        store.counter = token_id + 1;
        let metadata = NFTMetadata {
            name,
            description,
            image_url,
            level,
            owner: to,
        };
        NFTStorageLayer::set_token_owner(store, token_id, to);
        NFTStorageLayer::set_token_metadata(store, token_id, metadata);
        NFTStorageLayer::increment_balance(store, to);
        store.events.push(NftEvent::Mint(to, token_id));
        proof {
            broadcast use vstd::set::group_set_axioms;

            let c2 = (raw_count(k0, to) + 1) as u32;
            lemma_counts_after_mint(o0, k0, token_id as u64, to, c2);
            lemma_sum_u32_insert(k0, to, c2);
            assert(store.meta_map().dom() =~= store.owners_map().dom());
            assert forall|c: Account| #[trigger]
                store.count_of(c) == old(store).count_of(c) + (if c == to {
                    1int
                } else {
                    0
                }) by {
                if c != to {
                    assert(raw_count(k0.insert(to, c2), c) == raw_count(k0, c));
                }
            }
        }
        Ok(token_id)
    }

    /// Reassigns a live item from `from` to `to`: the record must exist
    /// and name `from`, and `from` must have sanctioned the call. Moves
    /// one unit of count from `from` to `to`; the metadata payload is
    /// inert and stays as minted.
    pub fn transfer(store: &mut NftStore, auth: &AuthGate, from: Account, to: Account, token_id:
        u32) -> (r: Result<(), NFTError>)
        requires
            old(store).wf(),
        ensures
            final(store).wf(),
            r == item_move_result(*old(store), auth@, from, token_id),
            (match r {
                Ok(()) => {
                    &&& final(store).owners_map() == old(store).owners_map().insert(
                        token_id as u64,
                        to,
                    )
                    &&& final(store).meta_map() == old(store).meta_map()
                    &&& counts_shifted(*old(store), *final(store), from, to)
                    &&& final(store).admin_of() == old(store).admin_of()
                    &&& final(store).counter_of() == old(store).counter_of()
                    &&& final(store).log() == old(store).log().push(
                        NftEvent::Transfer(from, to, token_id),
                    )
                },
                Err(_) => *final(store) == *old(store),
            }),
    {
        let token_owner = match NFTStorageLayer::get_token_owner(store, token_id) {
            Some(o) => o,
            None => {
                return Err(NFTError::TokenDoesNotExist);
            },
        };
        if token_owner != from {
            return Err(NFTError::InvalidTokenOwner);
        }
        if !auth.grants(from) {
            return Err(NFTError::NotAuthorized);
        }
        let ghost o0 = store.owners_map();
        let ghost k0 = store.counts_map();
        proof {
            broadcast use vstd::set::group_set_axioms;

            lemma_owner_count_positive(*store, token_id);
            if from != to {
                lemma_len_subset(owned_set(o0, to), o0.dom().remove(token_id as u64));
            }
        }
        NFTStorageLayer::set_token_owner(store, token_id, to);
        NFTStorageLayer::decrement_balance(store, from);
        NFTStorageLayer::increment_balance(store, to);
        store.events.push(NftEvent::Transfer(from, to, token_id));
        proof {
            broadcast use vstd::set::group_set_axioms;

            let cf2 = (raw_count(k0, from) - 1) as u32;
            let k1 = k0.insert(from, cf2);
            let ct2 = (raw_count(k1, to) + 1) as u32;
            if from != to {
                lemma_counts_after_reassign(o0, k0, token_id as u64, from, to, cf2, ct2);
                lemma_sum_u32_insert(k0, from, cf2);
                lemma_sum_u32_insert(k1, to, ct2);
                assert(o0.insert(token_id as u64, to).dom() =~= o0.dom());
            } else {
                assert(o0.insert(token_id as u64, to) =~= o0);
                assert(k0.dom().contains(from));
                assert(k1.insert(to, ct2) =~= k0);
            }
            assert(store.meta_map().dom() =~= store.owners_map().dom());
            assert forall|c: Account| #[trigger]
                store.count_of(c) == old(store).count_of(c) + (if c == to {
                    1int
                } else {
                    0
                }) - (if c == from {
                    1int
                } else {
                    0
                }) by {
                if c != to && c != from {
                    assert(raw_count(k1.insert(to, ct2), c) == raw_count(k0, c));
                }
            }
        }
        Ok(())
    }

    /// Reads a live item's metadata payload; fails `EntityNotFound` when
    /// no record lives under the identifier. Pure read, no authorization.
    pub fn get_metadata(store: &NftStore, token_id: u32) -> (r: Result<&NFTMetadata, NFTError>)
        requires
            store.wf(),
        ensures
            (match r {
                Ok(m) => store.has_item(token_id) && *m == store.meta_map()[token_id as u64],
                Err(e) => e == NFTError::EntityNotFound && !store.has_item(token_id),
            }),
    {
        match NFTStorageLayer::get_token_owner(store, token_id) {
            Some(_) => (),
            None => {
                return Err(NFTError::EntityNotFound);
            },
        };
        match NFTStorageLayer::get_token_metadata(store, token_id) {
            Some(m) => Ok(m),
            None => Err(NFTError::EntityNotFound),
        }
    }

    /// Destroys a live item of `from` irreversibly: the ownership record
    /// and the payload are deleted, `from`'s count drops by one, and the
    /// identifier is never handed out again. Owner and authorization are
    /// checked as for a transfer.
    pub fn burn(store: &mut NftStore, auth: &AuthGate, from: Account, token_id: u32) -> (r: Result<
        (),
        NFTError,
    >)
        requires
            old(store).wf(),
        ensures
            final(store).wf(),
            r == item_move_result(*old(store), auth@, from, token_id),
            (match r {
                Ok(()) => {
                    &&& final(store).owners_map() == old(store).owners_map().remove(
                        token_id as u64,
                    )
                    &&& final(store).meta_map() == old(store).meta_map().remove(token_id as u64)
                    &&& counts_dropped(*old(store), *final(store), from)
                    &&& final(store).admin_of() == old(store).admin_of()
                    &&& final(store).counter_of() == old(store).counter_of()
                    &&& final(store).log() == old(store).log().push(
                        NftEvent::Burn(from, token_id),
                    )
                },
                Err(_) => *final(store) == *old(store),
            }),
    {
        let token_owner = match NFTStorageLayer::get_token_owner(store, token_id) {
            Some(o) => o,
            None => {
                return Err(NFTError::TokenDoesNotExist);
            },
        };
        if token_owner != from {
            return Err(NFTError::InvalidTokenOwner);
        }
        if !auth.grants(from) {
            return Err(NFTError::NotAuthorized);
        }
        let ghost o0 = store.owners_map();
        let ghost k0 = store.counts_map();
        proof {
            lemma_owner_count_positive(*store, token_id);
        }
        store.owners.remove(token_id as u64);
        store.metadata.remove(token_id as u64);
        NFTStorageLayer::decrement_balance(store, from);
        store.events.push(NftEvent::Burn(from, token_id));
        proof {
            broadcast use vstd::set::group_set_axioms;

            let cf2 = (raw_count(k0, from) - 1) as u32;
            lemma_counts_after_remove(o0, k0, token_id as u64, from, cf2);
            lemma_sum_u32_insert(k0, from, cf2);
            assert(store.meta_map().dom() =~= store.owners_map().dom());
            assert forall|c: Account| #[trigger]
                store.count_of(c) == old(store).count_of(c) - (if c == from {
                    1int
                } else {
                    0
                }) by {
                if c != from {
                    assert(raw_count(k0.insert(from, cf2), c) == raw_count(k0, c));
                }
            }
        }
        Ok(())
    }
}

/// Law: identifiers grow strictly. Of two successful mints, where the
/// counter did not shrink in between — and no operation ever lowers it —
/// the later mint returns the strictly larger identifier. The premises
/// are exactly what `mint` ensures of its successful calls.
pub proof fn lemma_mint_ids_strictly_increase(
    p0: NftStore,
    p1: NftStore,
    id1: u32,
    q0: NftStore,
    q1: NftStore,
    id2: u32,
)
    requires
        mint_advances(p0, p1, id1),
        mint_advances(q0, q1, id2),
        p1.counter_of() <= q0.counter_of(),
    ensures
        id2 > id1,
{
}

/// Law: the first successful mint after `init_admin` — which leaves the
/// counter at 0 — returns identifier 0.
pub proof fn lemma_first_mint_id_is_zero(s0: NftStore, s1: NftStore, token_id: u32)
    requires
        s0.counter_of() == 0,
        mint_advances(s0, s1, token_id),
    ensures
        token_id == 0,
{
}

/// Law: after a burn — which `burn` ensures removes the ownership record —
/// the identifier has no live record, so `get_metadata` on it owes
/// `EntityNotFound` by its own contract.
pub proof fn lemma_burned_item_not_found(pre: NftStore, post: NftStore, token_id: u32)
    requires
        post.owners_map() == pre.owners_map().remove(token_id as u64),
    ensures
        !post.has_item(token_id),
{
}

/// The owner named by any live record holds a positive count.
pub proof fn lemma_owner_count_positive(store: NftStore, token_id: u32)
    requires
        store.wf(),
        store.has_item(token_id),
    ensures
        store.count_of(store.owner_of(token_id)) >= 1,
{
    broadcast use vstd::set::group_set_axioms;

    let a = store.owner_of(token_id);
    lemma_owned_set_bound(store.owners_map(), a);
    assert(owned_set(store.owners_map(), a).contains(token_id as u64));
}

/// Law: the per-account counts add up to the number of live ownership
/// records, in every well-formed registry state.
pub proof fn lemma_counts_match_live_records(store: NftStore)
    requires
        store.wf(),
    ensures
        msum(int_of_u32(store.counts_map())) == store.owners_map().dom().len(),
{
}

} // verus!
