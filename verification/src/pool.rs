//! The donation pool: the registry of shelters, the balance ledger, and
//! the orchestration of every operation.
//!
//! The ledger state is held in plain memory; the host environment is
//! responsible for persisting it across calls, for authenticating the
//! caller identity handed to each operation, and for actually moving value
//! in and out of custody. Each operation is a single atomic transition:
//! on failure it returns an [`Error`](crate::errors::Error) and leaves the
//! state untouched.

use vstd::prelude::*;
use std::collections::HashMap;
use crate::errors::Error;
use crate::events::Event;
use crate::fees::{net_of, split};

verus! {

broadcast use vstd::std_specs::hash::group_hash_axioms;

/// One registered organization. The record is created at registration and
/// never deleted from the registry; removal only clears `active`.
#[derive(Clone)]
pub struct Shelter {
    /// Text label, set at registration, immutable thereafter.
    pub name: String,
    /// The organization's identity; always equal to its registry key.
    pub wallet: u64,
    /// Net (post-fee) value ever credited since the last registration.
    pub total_received: u64,
    /// True from registration until explicit removal.
    pub active: bool,
}

/// The sum of a sequence of amounts, as an unbounded integer.
pub open spec fn sum_of(s: Seq<u64>) -> int
    decreases s.len(),
{
    if s.len() == 0 {
        0
    } else {
        sum_of(s.drop_last()) + s.last()
    }
}

/// Appending one amount raises the sum by exactly that amount.
pub proof fn lemma_sum_of_push(s: Seq<u64>, x: u64)
    ensures
        sum_of(s.push(x)) == sum_of(s) + x,
{
    assert(s.push(x).drop_last() =~= s);
}

/// Whether `id` has an active record in a registry map.
pub open spec fn active_in(shelters: Map<u64, Shelter>, id: u64) -> bool {
    shelters.contains_key(id) && shelters[id].active
}

/// The balance of `id` in a ledger map; zero when absent.
pub open spec fn balance_in(balances: Map<u64, u64>, id: u64) -> u64 {
    if balances.contains_key(id) {
        balances[id]
    } else {
        0
    }
}

/// The lifetime received total of `id` in a registry map; zero when absent.
pub open spec fn received_in(shelters: Map<u64, Shelter>, id: u64) -> u64 {
    if shelters.contains_key(id) {
        shelters[id].total_received
    } else {
        0
    }
}

/// The credit history of `id` in a credit-log map; empty when absent.
pub open spec fn credits_in(credits: Map<u64, Seq<u64>>, id: u64) -> Seq<u64> {
    if credits.contains_key(id) {
        credits[id]
    } else {
        Seq::empty()
    }
}

/// The carried-in balance of `id` in a carry map; zero when absent.
pub open spec fn carried_in(carried: Map<u64, u64>, id: u64) -> u64 {
    if carried.contains_key(id) {
        carried[id]
    } else {
        0
    }
}

/// The predicate "has an active record in `shelters`", as a value, so
/// that counting and enumeration speak of one and the same filter.
pub open spec fn active_filter(shelters: Map<u64, Shelter>) -> spec_fn(u64) -> bool {
    |id: u64| active_in(shelters, id)
}

/// A sequence filtered by a predicate that holds everywhere is itself.
pub proof fn lemma_filter_all(s: Seq<u64>, pred: spec_fn(u64) -> bool)
    requires
        forall|i: int| 0 <= i < s.len() ==> pred(s[i]),
    ensures
        s.filter(pred) == s,
    decreases s.len(),
{
    reveal_with_fuel(Seq::<_>::filter, 2);
    if s.len() == 0 {
        assert(s.filter(pred) =~= s);
    } else {
        lemma_filter_all(s.drop_last(), pred);
        assert(pred(s.last()));
        assert(s.filter(pred) =~= s.drop_last().push(s.last()));
        assert(s.drop_last().push(s.last()) =~= s);
    }
}

/// The membership list after a swap-remove at position `k`: the last
/// element overwrites position `k` and the list shrinks by one. The
/// remaining entries are reordered exactly this way; enumeration order is
/// not stable across removals.
pub open spec fn swap_removed(s: Seq<u64>, k: int) -> Seq<u64> {
    s.update(k, s[s.len() - 1]).subrange(0, s.len() - 1)
}

/// Structural invariant of the registry: the membership list holds
/// exactly the active identities, once each, and every record carries its
/// own key as `wallet`.
pub open spec fn registry_wf(list: Seq<u64>, shelters: Map<u64, Shelter>) -> bool {
    &&& forall|i: int, j: int| 0 <= i < j < list.len() ==> list[i] != list[j]
    &&& forall|id: u64| #[trigger] list.contains(id) <==> active_in(shelters, id)
    &&& forall|id: u64|
        shelters.contains_key(id) ==> (#[trigger] shelters[id]).wallet == id
}

/// Accounting invariant of the ledger: each shelter's `total_received`
/// is the sum of the net amounts credited to it since its last
/// registration, and its balance can exceed that total only by what the
/// shelter already held when it was last registered (a balance is never
/// cleared by removal, so a re-registration can carry one in).
pub open spec fn accounts_wf(
    shelters: Map<u64, Shelter>,
    balances: Map<u64, u64>,
    credits: Map<u64, Seq<u64>>,
    carried: Map<u64, u64>,
) -> bool {
    &&& forall|id: u64| #[trigger] received_in(shelters, id) == sum_of(credits_in(credits, id))
    &&& forall|id: u64|
        #[trigger] balance_in(balances, id) <= received_in(shelters, id) + carried_in(carried, id)
}

/// The whole ledger state.
///
/// The three `Ghost` fields carry the donation history that the ledger's
/// accumulators are proved to summarize (see [`DonationPool::wf`]): the
/// gross amounts ever accepted, the net credits per shelter since its
/// last registration, and the balance each shelter carried into its last
/// registration.
#[derive(Clone)]
pub struct DonationPool {
    /// The single privileged identity, set by `init`.
    pub admin: u64,
    /// Registry: identity to shelter record; entries are never removed.
    pub shelters: HashMap<u64, Shelter>,
    /// Ledger: identity to currently withdrawable balance.
    pub shelter_balances: HashMap<u64, u64>,
    /// Membership list used for enumeration and pooled distribution;
    /// removal swaps with the last element and truncates.
    pub shelter_list: Vec<u64>,
    /// Gross value ever accepted across both donation entry points.
    pub total_donations: u64,
    /// History: every gross amount a donation call accepted.
    pub donation_log: Ghost<Seq<u64>>,
    /// History: net credits per shelter since its last registration.
    pub credit_log: Ghost<Map<u64, Seq<u64>>>,
    /// The balance a shelter already held when it was last registered.
    pub carried_balance: Ghost<Map<u64, u64>>,
}

impl DonationPool {
    /// Whether `id` currently has an active registry entry.
    pub open spec fn active_spec(self, id: u64) -> bool {
        active_in(self.shelters@, id)
    }

    /// The withdrawable balance of `id`; zero when never credited.
    pub open spec fn balance_of(self, id: u64) -> u64 {
        balance_in(self.shelter_balances@, id)
    }

    /// The lifetime received total of `id`; zero when never registered.
    pub open spec fn received_of(self, id: u64) -> u64 {
        received_in(self.shelters@, id)
    }

    /// The registered name of `id`; empty when never registered.
    pub open spec fn name_of(self, id: u64) -> Seq<char> {
        if self.shelters@.contains_key(id) {
            self.shelters@[id].name@
        } else {
            Seq::empty()
        }
    }

    /// The net credits `id` has received since its last registration.
    pub open spec fn credits_of(self, id: u64) -> Seq<u64> {
        credits_in(self.credit_log@, id)
    }

    /// The balance `id` already held when it was last registered; zero
    /// when never registered.
    pub open spec fn carried_of(self, id: u64) -> u64 {
        carried_in(self.carried_balance@, id)
    }

    /// The number of active shelters, counted along the membership list.
    pub open spec fn active_count_spec(self) -> nat {
        self.shelter_list@.filter(active_filter(self.shelters@)).len()
    }

    /// Well-formedness: established by [`DonationPool::new`] and preserved
    /// by every operation. Combines the registry's structural invariant,
    /// the per-shelter accounting invariant, and the grand-total law:
    /// `total_donations` is the sum of every gross amount ever accepted.
    pub open spec fn wf(self) -> bool {
        &&& registry_wf(self.shelter_list@, self.shelters@)
        &&& accounts_wf(self.shelters@, self.shelter_balances@, self.credit_log@, self.carried_balance@)
        &&& self.total_donations == sum_of(self.donation_log@)
    }

    /// Creates an empty ledger: no admin, no shelters, nothing received.
    pub fn new() -> (pool: DonationPool)
        ensures
            pool.wf(),
            pool.admin == 0,
            pool.shelters@ == Map::<u64, Shelter>::empty(),
            pool.shelter_balances@ == Map::<u64, u64>::empty(),
            pool.shelter_list@ == Seq::<u64>::empty(),
            pool.total_donations == 0,
            pool.donation_log@ == Seq::<u64>::empty(),
            pool.credit_log@ == Map::<u64, Seq<u64>>::empty(),
            pool.carried_balance@ == Map::<u64, u64>::empty(),
    {
        let pool = DonationPool {
            admin: 0,
            shelters: HashMap::new(),
            shelter_balances: HashMap::new(),
            shelter_list: Vec::new(),
            total_donations: 0,
            donation_log: Ghost(Seq::empty()),
            credit_log: Ghost(Map::empty()),
            carried_balance: Ghost(Map::empty()),
        };
        proof {
            assert(forall|id: u64| !pool.shelter_list@.contains(id));
        }
        pool
    }

    /// Initializes the ledger by recording `caller` as the admin. The
    /// host invokes this exactly once before any other operation; a
    /// repeated call overwrites the admin (the design performs no
    /// idempotence check).
    pub fn init(&mut self, caller: u64) -> (r: Result<(), Error>)
        requires
            old(self).wf(),
        ensures
            final(self).wf(),
            r is Ok,
            final(self).admin == caller,
            final(self).shelters@ == old(self).shelters@,
            final(self).shelter_balances@ == old(self).shelter_balances@,
            final(self).shelter_list@ == old(self).shelter_list@,
            final(self).total_donations == old(self).total_donations,
            final(self).donation_log@ == old(self).donation_log@,
            final(self).credit_log@ == old(self).credit_log@,
            final(self).carried_balance@ == old(self).carried_balance@,
    {
        self.admin = caller;
        Ok(())
    }

    /// Registers a new shelter under `shelter_wallet`. Admin-only; the
    /// zero identity is refused, as is an identity that is still active.
    /// On success the registry record is created afresh (`total_received`
    /// resets to zero; any old balance-ledger entry carries over), the
    /// identity is appended to the membership list, and the returned
    /// notification announces the addition.
    pub fn add_shelter(&mut self, caller: u64, shelter_wallet: u64, name: String) -> (r: Result<
        Event,
        Error,
    >)
        requires
            old(self).wf(),
        ensures
            final(self).wf(),
            caller != old(self).admin ==> r == Err::<Event, Error>(Error::NotAuthorized),
            caller == old(self).admin && shelter_wallet == 0 ==> r == Err::<Event, Error>(
                Error::InvalidIdentity,
            ),
            caller == old(self).admin && shelter_wallet != 0 && old(self).active_spec(
                shelter_wallet,
            ) ==> r == Err::<Event, Error>(Error::AlreadyActive),
            caller == old(self).admin && shelter_wallet != 0 && !old(self).active_spec(
                shelter_wallet,
            ) ==> r is Ok,
            r is Err ==> *final(self) == *old(self),
            r is Ok ==> {
                &&& caller == old(self).admin && shelter_wallet != 0 && !old(self).active_spec(
                    shelter_wallet,
                )
                &&& r == Ok::<Event, Error>(
                    (Event::ShelterAdded { shelter: shelter_wallet, name: name }),
                )
                &&& final(self).shelters@ == old(self).shelters@.insert(
                    shelter_wallet,
                    (Shelter {
                        name: name,
                        wallet: shelter_wallet,
                        total_received: 0,
                        active: true,
                    }),
                )
                &&& final(self).shelter_list@ == old(self).shelter_list@.push(shelter_wallet)
                &&& final(self).shelter_balances@ == old(self).shelter_balances@
                &&& final(self).admin == old(self).admin
                &&& final(self).total_donations == old(self).total_donations
                &&& final(self).donation_log@ == old(self).donation_log@
                &&& final(self).credit_log@ == old(self).credit_log@.insert(
                    shelter_wallet,
                    Seq::empty(),
                )
                &&& final(self).carried_balance@ == old(self).carried_balance@.insert(
                    shelter_wallet,
                    old(self).balance_of(shelter_wallet),
                )
            },
    {
        if caller != self.admin {
            return Err(Error::NotAuthorized);
        }
        if shelter_wallet == 0 {
            return Err(Error::InvalidIdentity);
        }
        let already_active = match self.shelters.get(&shelter_wallet) {
            Some(s) => s.active,
            None => false,
        };
        if already_active {
            return Err(Error::AlreadyActive);
        }
        let ghost prior_balance = self.balance_of(shelter_wallet);
        let event_name = name.clone();
        let record = Shelter { name, wallet: shelter_wallet, total_received: 0, active: true };
        self.shelters.insert(shelter_wallet, record);
        self.shelter_list.push(shelter_wallet);
        proof {
            self.credit_log@ = self.credit_log@.insert(shelter_wallet, Seq::empty());
            self.carried_balance@ = self.carried_balance@.insert(shelter_wallet, prior_balance);
        }
        proof {
            let pre = *old(self);
            let post = *self;
            assert(!pre.shelter_list@.contains(shelter_wallet));
            assert forall|id: u64| #[trigger]
                post.shelter_list@.contains(id) <==> active_in(post.shelters@, id) by {
                assert(pre.shelter_list@.contains(id) <==> active_in(pre.shelters@, id));
                if active_in(post.shelters@, id) {
                    if id == shelter_wallet {
                        assert(post.shelter_list@[pre.shelter_list@.len() as int] == id);
                        assert(post.shelter_list@.contains(id));
                    } else {
                        assert(active_in(pre.shelters@, id));
                        assert(pre.shelter_list@.contains(id));
                        let k = choose|k: int|
                            0 <= k < pre.shelter_list@.len() && pre.shelter_list@[k] == id;
                        assert(post.shelter_list@[k] == id);
                        assert(post.shelter_list@.contains(id));
                    }
                }
                if post.shelter_list@.contains(id) {
                    let k = choose|k: int|
                        0 <= k < post.shelter_list@.len() && post.shelter_list@[k] == id;
                    if k < pre.shelter_list@.len() {
                        assert(pre.shelter_list@.contains(id));
                        assert(active_in(post.shelters@, id));
                    } else {
                        assert(post.shelter_list@[k] == shelter_wallet);
                        assert(active_in(post.shelters@, id));
                    }
                }
            }
            assert forall|id: u64| #[trigger]
                received_in(post.shelters@, id) == sum_of(credits_in(post.credit_log@, id)) by {
                assert(received_in(pre.shelters@, id) == sum_of(credits_in(pre.credit_log@, id)));
            }
            assert forall|id: u64| #[trigger]
                balance_in(post.shelter_balances@, id) <= received_in(post.shelters@, id)
                    + carried_in(post.carried_balance@, id) by {
                assert(balance_in(pre.shelter_balances@, id) <= received_in(pre.shelters@, id)
                    + carried_in(pre.carried_balance@, id));
            }
        }
        Ok(Event::ShelterAdded { shelter: shelter_wallet, name: event_name })
    }

    /// Deactivates the shelter registered under `shelter_wallet`.
    /// Admin-only; fails with `NotFound` when no active entry exists. The
    /// record keeps its name, balance and lifetime total (any unwithdrawn
    /// balance becomes inaccessible until a re-registration); the identity
    /// leaves the membership list by a first-match swap-remove, which
    /// reorders the remaining entries.
    #[verifier::loop_isolation(false)]
    pub fn remove_shelter(&mut self, caller: u64, shelter_wallet: u64) -> (r: Result<Event, Error>)
        requires
            old(self).wf(),
        ensures
            final(self).wf(),
            caller != old(self).admin ==> r == Err::<Event, Error>(Error::NotAuthorized),
            caller == old(self).admin && !old(self).active_spec(shelter_wallet) ==> r == Err::<
                Event,
                Error,
            >(Error::NotFound),
            caller == old(self).admin && old(self).active_spec(shelter_wallet) ==> r is Ok,
            r is Err ==> *final(self) == *old(self),
            r is Ok ==> {
                &&& caller == old(self).admin && old(self).active_spec(shelter_wallet)
                &&& r == Ok::<Event, Error>((Event::ShelterRemoved { shelter: shelter_wallet }))
                &&& final(self).shelters@ == old(self).shelters@.insert(
                    shelter_wallet,
                    (Shelter {
                        name: old(self).shelters@[shelter_wallet].name,
                        wallet: old(self).shelters@[shelter_wallet].wallet,
                        total_received: old(self).shelters@[shelter_wallet].total_received,
                        active: false,
                    }),
                )
                &&& exists|k: int|
                    0 <= k < old(self).shelter_list@.len() && old(self).shelter_list@[k]
                        == shelter_wallet && final(self).shelter_list@ == swap_removed(
                        old(self).shelter_list@,
                        k,
                    )
                &&& !final(self).shelter_list@.contains(shelter_wallet)
                &&& final(self).shelter_balances@ == old(self).shelter_balances@
                &&& final(self).admin == old(self).admin
                &&& final(self).total_donations == old(self).total_donations
                &&& final(self).donation_log@ == old(self).donation_log@
                &&& final(self).credit_log@ == old(self).credit_log@
                &&& final(self).carried_balance@ == old(self).carried_balance@
            },
    {
        if caller != self.admin {
            return Err(Error::NotAuthorized);
        }
        let is_active = match self.shelters.get(&shelter_wallet) {
            Some(s) => s.active,
            None => false,
        };
        if !is_active {
            return Err(Error::NotFound);
        }
        let record = self.shelters.remove(&shelter_wallet).unwrap();
        let updated = Shelter {
            name: record.name,
            wallet: record.wallet,
            total_received: record.total_received,
            active: false,
        };
        self.shelters.insert(shelter_wallet, updated);
        proof {
            assert(self.shelters@ =~= old(self).shelters@.insert(shelter_wallet, updated));
        }

        let ghost pre_list = self.shelter_list@;
        let len = self.shelter_list.len();
        let mut k: usize = 0;
        while k < len && self.shelter_list[k] != shelter_wallet
            invariant
                k <= len,
                forall|j: int| 0 <= j < k ==> pre_list[j] != shelter_wallet,
            decreases len - k,
        {
            k = k + 1;
        }
        proof {
            assert(pre_list.contains(shelter_wallet));
            let m = choose|m: int| 0 <= m < pre_list.len() && pre_list[m] == shelter_wallet;
            assert(k < len);
        }
        let last_index = len - 1;
        if k != last_index {
            let last_element = self.shelter_list[last_index];
            self.shelter_list.set(k, last_element);
        }
        self.shelter_list.pop();
        proof {
            let pre = *old(self);
            let post = *self;
            if k == last_index {
                assert(pre_list.update(k as int, pre_list[len - 1]) =~= pre_list);
            }
            assert(post.shelter_list@ =~= swap_removed(pre_list, k as int));
            assert forall|j: int| 0 <= j < post.shelter_list@.len() implies post.shelter_list@[j]
                != shelter_wallet by {
                if j != k {
                    assert(pre_list[j] == post.shelter_list@[j]);
                }
            }
            assert(!post.shelter_list@.contains(shelter_wallet));
            assert forall|i: int, j: int|
                0 <= i < j < post.shelter_list@.len() implies post.shelter_list@[i]
                != post.shelter_list@[j] by {
                assert(pre_list[i] != pre_list[j]);
                assert(j < len - 1 ==> pre_list[j] != pre_list[len - 1]);
                assert(i < len - 1 ==> pre_list[i] != pre_list[len - 1]);
            }
            assert forall|id: u64| #[trigger]
                post.shelter_list@.contains(id) <==> active_in(post.shelters@, id) by {
                assert(pre.shelter_list@.contains(id) <==> active_in(pre.shelters@, id));
                if id == shelter_wallet {
                    assert(!post.shelter_list@.contains(id));
                    assert(!active_in(post.shelters@, id));
                } else {
                    if post.shelter_list@.contains(id) {
                        let j = choose|j: int|
                            0 <= j < post.shelter_list@.len() && post.shelter_list@[j] == id;
                        if j == k {
                            assert(pre_list[len - 1] == id);
                        } else {
                            assert(pre_list[j] == id);
                        }
                        assert(pre_list.contains(id));
                        assert(active_in(post.shelters@, id));
                    }
                    if active_in(post.shelters@, id) {
                        assert(active_in(pre.shelters@, id));
                        assert(pre_list.contains(id));
                        let m = choose|m: int|
                            0 <= m < pre_list.len() && pre_list[m] == id;
                        if m < len - 1 {
                            if m == k {
                                assert(pre_list[k as int] == shelter_wallet);
                            } else {
                                assert(post.shelter_list@[m] == id);
                            }
                        } else {
                            assert(k != len - 1);
                            assert(post.shelter_list@[k as int] == id);
                        }
                        assert(post.shelter_list@.contains(id));
                    }
                }
            }
            assert forall|id: u64| #[trigger]
                received_in(post.shelters@, id) == sum_of(credits_in(post.credit_log@, id)) by {
                assert(received_in(pre.shelters@, id) == sum_of(credits_in(pre.credit_log@, id)));
            }
            assert forall|id: u64| #[trigger]
                balance_in(post.shelter_balances@, id) <= received_in(post.shelters@, id)
                    + carried_in(post.carried_balance@, id) by {
                assert(balance_in(pre.shelter_balances@, id) <= received_in(pre.shelters@, id)
                    + carried_in(pre.carried_balance@, id));
            }
        }
        Ok(Event::ShelterRemoved { shelter: shelter_wallet })
    }

    /// Whether crediting the net part of `gross` to `id` would push any
    /// accumulator past the representable range: the shelter's balance,
    /// its lifetime total, or the pool's grand total.
    pub open spec fn shelter_credit_overflows(self, id: u64, gross: u64) -> bool {
        ||| self.balance_of(id) + net_of(gross) > u64::MAX
        ||| self.received_of(id) + net_of(gross) > u64::MAX
        ||| self.total_donations + gross > u64::MAX
    }

    /// Accepts a donation of `gross_amount` earmarked for the active
    /// shelter `shelter_wallet`: the fee is retained in pool custody, the
    /// net amount is credited to the shelter's balance and lifetime total,
    /// and the grand total grows by the gross amount. The returned
    /// notification carries the net amount.
    pub fn donate_to_shelter(&mut self, caller: u64, shelter_wallet: u64, gross_amount: u64) -> (r:
        Result<Event, Error>)
        requires
            old(self).wf(),
        ensures
            final(self).wf(),
            gross_amount == 0 ==> r == Err::<Event, Error>(Error::InvalidAmount),
            gross_amount > 0 && !old(self).active_spec(shelter_wallet) ==> r == Err::<Event, Error>(
                Error::ShelterInactive,
            ),
            gross_amount > 0 && old(self).active_spec(shelter_wallet) && old(
                self,
            ).shelter_credit_overflows(shelter_wallet, gross_amount) ==> r == Err::<Event, Error>(
                Error::Overflow,
            ),
            gross_amount > 0 && old(self).active_spec(shelter_wallet) && !old(
                self,
            ).shelter_credit_overflows(shelter_wallet, gross_amount) ==> r is Ok,
            r is Err ==> *final(self) == *old(self),
            r is Ok ==> {
                &&& gross_amount > 0 && old(self).active_spec(shelter_wallet) && !old(
                    self,
                ).shelter_credit_overflows(shelter_wallet, gross_amount)
                &&& r == Ok::<Event, Error>(
                    (Event::DonationMade {
                        donor: caller,
                        shelter: shelter_wallet,
                        amount: net_of(gross_amount) as u64,
                    }),
                )
                &&& final(self).shelter_balances@ == old(self).shelter_balances@.insert(
                    shelter_wallet,
                    (old(self).balance_of(shelter_wallet) + net_of(gross_amount)) as u64,
                )
                &&& final(self).shelters@ == old(self).shelters@.insert(
                    shelter_wallet,
                    (Shelter {
                        name: old(self).shelters@[shelter_wallet].name,
                        wallet: old(self).shelters@[shelter_wallet].wallet,
                        total_received: (old(self).received_of(shelter_wallet) + net_of(
                            gross_amount,
                        )) as u64,
                        active: true,
                    }),
                )
                &&& final(self).shelter_list@ == old(self).shelter_list@
                &&& final(self).admin == old(self).admin
                &&& final(self).total_donations == old(self).total_donations + gross_amount
                &&& final(self).donation_log@ == old(self).donation_log@.push(gross_amount)
                &&& final(self).credit_log@ == old(self).credit_log@.insert(
                    shelter_wallet,
                    old(self).credits_of(shelter_wallet).push(net_of(gross_amount) as u64),
                )
                &&& final(self).carried_balance@ == old(self).carried_balance@
            },
    {
        if gross_amount == 0 {
            return Err(Error::InvalidAmount);
        }
        let is_active = match self.shelters.get(&shelter_wallet) {
            Some(s) => s.active,
            None => false,
        };
        if !is_active {
            return Err(Error::ShelterInactive);
        }
        let (fee, donation_amount) = split(gross_amount);
        let current_balance = match self.shelter_balances.get(&shelter_wallet) {
            Some(b) => *b,
            None => 0,
        };
        let current_received = match self.shelters.get(&shelter_wallet) {
            Some(s) => s.total_received,
            None => 0,
        };
        if current_balance as u128 + donation_amount as u128 > u64::MAX as u128 {
            return Err(Error::Overflow);
        }
        if current_received as u128 + donation_amount as u128 > u64::MAX as u128 {
            return Err(Error::Overflow);
        }
        if self.total_donations as u128 + gross_amount as u128 > u64::MAX as u128 {
            return Err(Error::Overflow);
        }

        let new_balance = current_balance + donation_amount;
        self.shelter_balances.insert(shelter_wallet, new_balance);

        let record = self.shelters.remove(&shelter_wallet).unwrap();
        let new_total = record.total_received + donation_amount;
        let updated = Shelter {
            name: record.name,
            wallet: record.wallet,
            total_received: new_total,
            active: record.active,
        };
        self.shelters.insert(shelter_wallet, updated);

        self.total_donations = self.total_donations + gross_amount;
        proof {
            self.donation_log@ = self.donation_log@.push(gross_amount);
            self.credit_log@ = self.credit_log@.insert(
                shelter_wallet,
                credits_in(old(self).credit_log@, shelter_wallet).push(donation_amount),
            );
        }
        proof {
            let pre = *old(self);
            let post = *self;
            assert(post.shelters@ =~= pre.shelters@.insert(shelter_wallet, updated));
            lemma_sum_of_push(pre.donation_log@, gross_amount);
            assert forall|id: u64| #[trigger]
                post.shelter_list@.contains(id) <==> active_in(post.shelters@, id) by {
                assert(pre.shelter_list@.contains(id) <==> active_in(pre.shelters@, id));
            }
            assert forall|id: u64| #[trigger]
                received_in(post.shelters@, id) == sum_of(credits_in(post.credit_log@, id)) by {
                assert(received_in(pre.shelters@, id) == sum_of(credits_in(pre.credit_log@, id)));
                if id == shelter_wallet {
                    lemma_sum_of_push(credits_in(pre.credit_log@, id), donation_amount);
                }
            }
            assert forall|id: u64| #[trigger]
                balance_in(post.shelter_balances@, id) <= received_in(post.shelters@, id)
                    + carried_in(post.carried_balance@, id) by {
                assert(balance_in(pre.shelter_balances@, id) <= received_in(pre.shelters@, id)
                    + carried_in(pre.carried_balance@, id));
            }
        }
        Ok(Event::DonationMade { donor: caller, shelter: shelter_wallet, amount: donation_amount })
    }

    /// The equal share each active shelter receives from a pooled
    /// donation of `gross`: the net amount divided by the active count,
    /// rounded down.
    pub open spec fn per_shelter_amount(self, gross: u64) -> int {
        net_of(gross) / (self.active_count_spec() as int)
    }

    /// Whether distributing a pooled donation of `gross` would push any
    /// accumulator past the representable range: some listed shelter's
    /// balance or lifetime total, or the pool's grand total.
    pub open spec fn pool_credit_overflows(self, gross: u64) -> bool {
        ||| self.total_donations + gross > u64::MAX
        ||| exists|j: int|
            0 <= j < self.shelter_list@.len() && (self.balance_of(self.shelter_list@[j])
                + self.per_shelter_amount(gross) > u64::MAX || self.received_of(
                self.shelter_list@[j],
            ) + self.per_shelter_amount(gross) > u64::MAX)
    }

    /// Accepts a pooled donation of `gross_amount` and distributes it
    /// equally: after the fee is retained, every shelter on the membership
    /// list (all of them active) is credited `floor(net / count)`, one
    /// notification per credited shelter, in list order. The division
    /// remainder is credited to nobody and stays in pool custody,
    /// reachable only through the admin fee withdrawal. The grand total
    /// grows by the gross amount once.
    #[verifier::loop_isolation(false)]
    pub fn donate_to_pool(&mut self, caller: u64, gross_amount: u64) -> (r: Result<
        Vec<Event>,
        Error,
    >)
        requires
            old(self).wf(),
        ensures
            final(self).wf(),
            gross_amount == 0 ==> r == Err::<Vec<Event>, Error>(Error::InvalidAmount),
            gross_amount > 0 && old(self).active_count_spec() == 0 ==> r == Err::<Vec<Event>, Error>(
                Error::NoActiveShelters,
            ),
            gross_amount > 0 && old(self).active_count_spec() > 0 && old(self).pool_credit_overflows(
                gross_amount,
            ) ==> r == Err::<Vec<Event>, Error>(Error::Overflow),
            gross_amount > 0 && old(self).active_count_spec() > 0 && !old(
                self,
            ).pool_credit_overflows(gross_amount) ==> r is Ok,
            r is Err ==> *final(self) == *old(self),
            r matches Ok(events) ==> {
                let per = old(self).per_shelter_amount(gross_amount);
                &&& gross_amount > 0 && old(self).active_count_spec() > 0 && !old(
                    self,
                ).pool_credit_overflows(gross_amount)
                &&& final(self).shelter_list@ == old(self).shelter_list@
                &&& final(self).admin == old(self).admin
                &&& forall|id: u64| #[trigger] old(self).shelter_list@.contains(id) ==> {
                    &&& final(self).balance_of(id) == old(self).balance_of(id) + per
                    &&& final(self).received_of(id) == old(self).received_of(id) + per
                    &&& final(self).name_of(id) == old(self).name_of(id)
                    &&& final(self).active_spec(id)
                    &&& final(self).credits_of(id) == old(self).credits_of(id).push(per as u64)
                }
                &&& forall|id: u64| !old(self).shelter_list@.contains(id) ==> {
                    &&& final(self).balance_of(id) == old(self).balance_of(id)
                    &&& final(self).received_of(id) == old(self).received_of(id)
                    &&& final(self).name_of(id) == old(self).name_of(id)
                    &&& final(self).active_spec(id) == old(self).active_spec(id)
                    &&& final(self).credits_of(id) == old(self).credits_of(id)
                }
                &&& final(self).total_donations == old(self).total_donations + gross_amount
                &&& final(self).donation_log@ == old(self).donation_log@.push(gross_amount)
                &&& final(self).carried_balance@ == old(self).carried_balance@
                &&& events@.len() == old(self).shelter_list@.len()
                &&& forall|t: int| 0 <= t < events@.len() ==> events@[t] == (Event::DonationMade {
                    donor: caller,
                    shelter: old(self).shelter_list@[t],
                    amount: per as u64,
                })
            },
    {
        if gross_amount == 0 {
            return Err(Error::InvalidAmount);
        }
        let shelter_count = self.get_active_shelter_count();
        if shelter_count == 0 {
            return Err(Error::NoActiveShelters);
        }
        let (fee, total_donation) = split(gross_amount);
        let amount_per_shelter = total_donation / shelter_count;
        proof {
            assert(amount_per_shelter == old(self).per_shelter_amount(gross_amount));
        }
        if self.total_donations as u128 + gross_amount as u128 > u64::MAX as u128 {
            return Err(Error::Overflow);
        }

        let len = self.shelter_list.len();
        let mut j: usize = 0;
        while j < len
            invariant
                j <= len,
                forall|t: int|
                    0 <= t < j ==> old(self).balance_of(old(self).shelter_list@[t])
                        + amount_per_shelter <= u64::MAX && old(self).received_of(
                        old(self).shelter_list@[t],
                    ) + amount_per_shelter <= u64::MAX,
            decreases len - j,
        {
            let shelter_address = self.shelter_list[j];
            let bal = match self.shelter_balances.get(&shelter_address) {
                Some(b) => *b,
                None => 0,
            };
            let recv = match self.shelters.get(&shelter_address) {
                Some(s) => s.total_received,
                None => 0,
            };
            if bal as u128 + amount_per_shelter as u128 > u64::MAX as u128 {
                return Err(Error::Overflow);
            }
            if recv as u128 + amount_per_shelter as u128 > u64::MAX as u128 {
                return Err(Error::Overflow);
            }
            j = j + 1;
        }

        let mut events: Vec<Event> = Vec::new();
        let mut i: usize = 0;
        while i < len
            invariant
                i <= len,
                self.shelter_list@ == old(self).shelter_list@,
                self.admin == old(self).admin,
                self.total_donations == old(self).total_donations,
                self.donation_log@ == old(self).donation_log@,
                self.carried_balance@ == old(self).carried_balance@,
                forall|t: int| #![trigger old(self).shelter_list@[t]] 0 <= t < i ==> {
                    &&& balance_in(self.shelter_balances@, old(self).shelter_list@[t]) == old(
                        self,
                    ).balance_of(old(self).shelter_list@[t]) + amount_per_shelter
                    &&& self.shelters@.contains_key(old(self).shelter_list@[t])
                    &&& self.shelters@[old(self).shelter_list@[t]] == (Shelter {
                        name: old(self).shelters@[old(self).shelter_list@[t]].name,
                        wallet: old(self).shelters@[old(self).shelter_list@[t]].wallet,
                        total_received: (old(self).received_of(old(self).shelter_list@[t])
                            + amount_per_shelter) as u64,
                        active: true,
                    })
                    &&& credits_in(self.credit_log@, old(self).shelter_list@[t]) == old(
                        self,
                    ).credits_of(old(self).shelter_list@[t]).push(amount_per_shelter)
                },
                forall|t: int| #![trigger old(self).shelter_list@[t]] i <= t < len ==> {
                    &&& balance_in(self.shelter_balances@, old(self).shelter_list@[t]) == old(
                        self,
                    ).balance_of(old(self).shelter_list@[t])
                    &&& self.shelters@.contains_key(old(self).shelter_list@[t])
                        == old(self).shelters@.contains_key(old(self).shelter_list@[t])
                    &&& old(self).shelters@.contains_key(old(self).shelter_list@[t])
                        ==> self.shelters@[old(self).shelter_list@[t]] == old(self).shelters@[old(
                        self,
                    ).shelter_list@[t]]
                    &&& credits_in(self.credit_log@, old(self).shelter_list@[t]) == old(
                        self,
                    ).credits_of(old(self).shelter_list@[t])
                },
                forall|id: u64|
                    #![trigger old(self).shelter_list@.contains(id)]
                    !old(self).shelter_list@.contains(id) ==> {
                    &&& balance_in(self.shelter_balances@, id) == old(self).balance_of(id)
                    &&& self.shelters@.contains_key(id) == old(self).shelters@.contains_key(id)
                    &&& old(self).shelters@.contains_key(id) ==> self.shelters@[id] == old(
                        self,
                    ).shelters@[id]
                    &&& credits_in(self.credit_log@, id) == old(self).credits_of(id)
                },
                events@.len() == i,
                forall|t: int| 0 <= t < i ==> events@[t] == (Event::DonationMade {
                    donor: caller,
                    shelter: old(self).shelter_list@[t],
                    amount: amount_per_shelter,
                }),
            decreases len - i,
        {
            let shelter_address = self.shelter_list[i];
            proof {
                assert(old(self).shelter_list@.contains(shelter_address));
                assert(active_in(old(self).shelters@, shelter_address));
            }
            let is_active = match self.shelters.get(&shelter_address) {
                Some(s) => s.active,
                None => false,
            };
            assert(is_active);
            if is_active {
                let current_balance = match self.shelter_balances.get(&shelter_address) {
                    Some(b) => *b,
                    None => 0,
                };
                let new_balance = current_balance + amount_per_shelter;
                self.shelter_balances.insert(shelter_address, new_balance);

                let record = self.shelters.remove(&shelter_address).unwrap();
                let new_total = record.total_received + amount_per_shelter;
                let updated = Shelter {
                    name: record.name,
                    wallet: record.wallet,
                    total_received: new_total,
                    active: record.active,
                };
                self.shelters.insert(shelter_address, updated);

                proof {
                    self.credit_log@ = self.credit_log@.insert(
                        shelter_address,
                        credits_in(self.credit_log@, shelter_address).push(amount_per_shelter),
                    );
                }
                events.push(
                    Event::DonationMade {
                        donor: caller,
                        shelter: shelter_address,
                        amount: amount_per_shelter,
                    },
                );
                proof {
                    assert forall|t: int| 0 <= t < len && t != i implies old(
                        self,
                    ).shelter_list@[t] != shelter_address by {
                        if t < i {
                            assert(old(self).shelter_list@[t] != old(self).shelter_list@[i as int]);
                        } else {
                            assert(old(self).shelter_list@[i as int] != old(
                                self,
                            ).shelter_list@[t]);
                        }
                    }
                }
            }
            i = i + 1;
        }

        self.total_donations = self.total_donations + gross_amount;
        proof {
            self.donation_log@ = self.donation_log@.push(gross_amount);
        }
        proof {
            let pre = *old(self);
            let post = *self;
            lemma_sum_of_push(pre.donation_log@, gross_amount);
            assert forall|id: u64| #[trigger] pre.shelter_list@.contains(id) implies {
                &&& balance_in(post.shelter_balances@, id) == pre.balance_of(id)
                    + amount_per_shelter
                &&& post.shelters@.contains_key(id)
                &&& post.shelters@[id] == (Shelter {
                    name: pre.shelters@[id].name,
                    wallet: pre.shelters@[id].wallet,
                    total_received: (pre.received_of(id) + amount_per_shelter) as u64,
                    active: true,
                })
                &&& credits_in(post.credit_log@, id) == pre.credits_of(id).push(amount_per_shelter)
            } by {
                let t = choose|t: int|
                    0 <= t < pre.shelter_list@.len() && pre.shelter_list@[t] == id;
                assert(pre.shelter_list@[t] == id);
                assert(pre.shelters@.contains_key(id));
            }
            assert forall|id: u64| !pre.shelter_list@.contains(id) implies {
                &&& balance_in(post.shelter_balances@, id) == pre.balance_of(id)
                &&& post.shelters@.contains_key(id) == pre.shelters@.contains_key(id)
                &&& (pre.shelters@.contains_key(id) ==> post.shelters@[id] == pre.shelters@[id])
                &&& credits_in(post.credit_log@, id) == pre.credits_of(id)
            } by {
                assert(!pre.shelter_list@.contains(id));
            }
            assert forall|id: u64| #[trigger]
                post.shelter_list@.contains(id) <==> active_in(post.shelters@, id) by {
                assert(pre.shelter_list@.contains(id) <==> active_in(pre.shelters@, id));
                if pre.shelter_list@.contains(id) {
                    assert(post.shelters@[id].active);
                    assert(active_in(post.shelters@, id));
                } else {
                    assert(active_in(post.shelters@, id) == active_in(pre.shelters@, id));
                }
            }
            assert forall|id: u64|
                post.shelters@.contains_key(id) implies (#[trigger] post.shelters@[id]).wallet
                == id by {
                assert(pre.shelters@.contains_key(id) ==> pre.shelters@[id].wallet == id);
                if pre.shelter_list@.contains(id) {
                    assert(pre.shelters@.contains_key(id));
                    assert(post.shelters@[id].wallet == pre.shelters@[id].wallet);
                } else {
                    assert(post.shelters@[id] == pre.shelters@[id]);
                }
            }
            assert forall|id: u64| #[trigger]
                received_in(post.shelters@, id) == sum_of(credits_in(post.credit_log@, id)) by {
                assert(received_in(pre.shelters@, id) == sum_of(credits_in(pre.credit_log@, id)));
                if pre.shelter_list@.contains(id) {
                    lemma_sum_of_push(credits_in(pre.credit_log@, id), amount_per_shelter);
                    assert(received_in(post.shelters@, id) == pre.received_of(id)
                        + amount_per_shelter);
                } else {
                    assert(received_in(post.shelters@, id) == received_in(pre.shelters@, id));
                }
            }
            assert forall|id: u64| #[trigger]
                balance_in(post.shelter_balances@, id) <= received_in(post.shelters@, id)
                    + carried_in(post.carried_balance@, id) by {
                assert(balance_in(pre.shelter_balances@, id) <= received_in(pre.shelters@, id)
                    + carried_in(pre.carried_balance@, id));
                if pre.shelter_list@.contains(id) {
                    assert(balance_in(post.shelter_balances@, id) == pre.balance_of(id)
                        + amount_per_shelter);
                }
            }
        }
        Ok(events)
    }

    /// Withdraws the caller's entire balance: the balance is zeroed and
    /// the previous value returned, for the host to transfer to `caller`
    /// and to announce as `FundsWithdrawn` on confirmed success. The
    /// zeroing happens before the host's transfer, so a reentrant call
    /// during the transfer sees an empty balance and fails with
    /// `NothingToWithdraw`; if the transfer itself fails, the host rolls
    /// the whole call back. Only an active shelter may withdraw: a
    /// removed shelter's balance stays in place but is inaccessible.
    pub fn withdraw_funds(&mut self, caller: u64) -> (r: Result<u64, Error>)
        requires
            old(self).wf(),
        ensures
            final(self).wf(),
            !old(self).active_spec(caller) ==> r == Err::<u64, Error>(Error::ShelterInactive),
            old(self).active_spec(caller) && old(self).balance_of(caller) == 0 ==> r == Err::<
                u64,
                Error,
            >(Error::NothingToWithdraw),
            old(self).active_spec(caller) && old(self).balance_of(caller) > 0 ==> r is Ok,
            r is Err ==> *final(self) == *old(self),
            r is Ok ==> {
                &&& old(self).active_spec(caller) && old(self).balance_of(caller) > 0
                &&& r == Ok::<u64, Error>(old(self).balance_of(caller))
                &&& final(self).shelter_balances@ == old(self).shelter_balances@.insert(caller, 0)
                &&& final(self).shelters@ == old(self).shelters@
                &&& final(self).shelter_list@ == old(self).shelter_list@
                &&& final(self).admin == old(self).admin
                &&& final(self).total_donations == old(self).total_donations
                &&& final(self).donation_log@ == old(self).donation_log@
                &&& final(self).credit_log@ == old(self).credit_log@
                &&& final(self).carried_balance@ == old(self).carried_balance@
            },
    {
        let is_active = match self.shelters.get(&caller) {
            Some(s) => s.active,
            None => false,
        };
        if !is_active {
            return Err(Error::ShelterInactive);
        }
        let amount = match self.shelter_balances.get(&caller) {
            Some(b) => *b,
            None => 0,
        };
        if amount == 0 {
            return Err(Error::NothingToWithdraw);
        }
        self.shelter_balances.insert(caller, 0);
        proof {
            let pre = *old(self);
            let post = *self;
            assert forall|id: u64| #[trigger]
                balance_in(post.shelter_balances@, id) <= received_in(post.shelters@, id)
                    + carried_in(post.carried_balance@, id) by {
                assert(balance_in(pre.shelter_balances@, id) <= received_in(pre.shelters@, id)
                    + carried_in(pre.carried_balance@, id));
            }
        }
        Ok(amount)
    }

    /// Pays the pool's entire custody balance out to the admin. The host
    /// supplies `custody_balance`, its answer to the custody query, and on
    /// success transfers that whole amount to the caller. Custody covers
    /// everything the ledger holds — accrued fees, undistributed pooled
    /// remainders, and shelter balances not yet withdrawn — so this drains
    /// funds still owed to shelters; that hazard is part of the specified
    /// behaviour. The ledger's own records are not changed by this call.
    pub fn withdraw_fees(&self, caller: u64, custody_balance: u64) -> (r: Result<u64, Error>)
        ensures
            caller != self.admin ==> r == Err::<u64, Error>(Error::NotAuthorized),
            caller == self.admin && custody_balance == 0 ==> r == Err::<u64, Error>(
                Error::NothingToWithdraw,
            ),
            caller == self.admin && custody_balance > 0 ==> r == Ok::<u64, Error>(custody_balance),
    {
        if caller != self.admin {
            return Err(Error::NotAuthorized);
        }
        if custody_balance == 0 {
            return Err(Error::NothingToWithdraw);
        }
        Ok(custody_balance)
    }

    /// Reports a shelter's name, withdrawable balance, lifetime received
    /// total and active flag; an identity never registered reports an
    /// empty name, zeroes and `false`. Never fails.
    pub fn get_shelter_info(&self, shelter_wallet: u64) -> (r: Result<
        (String, u64, u64, bool),
        Error,
    >)
        ensures
            r matches Ok(info) && info.0@ == self.name_of(shelter_wallet) && info.1
                == self.balance_of(shelter_wallet) && info.2 == self.received_of(shelter_wallet)
                && info.3 == self.active_spec(shelter_wallet),
    {
        let balance = match self.shelter_balances.get(&shelter_wallet) {
            Some(b) => *b,
            None => 0,
        };
        match self.shelters.get(&shelter_wallet) {
            Some(s) => Ok((s.name.clone(), balance, s.total_received, s.active)),
            None => Ok((String::new(), balance, 0, false)),
        }
    }

    /// Counts the shelters on the membership list whose registry record
    /// is active, by a linear scan in list order.
    pub fn get_active_shelter_count(&self) -> (count: u64)
        ensures
            count == self.active_count_spec(),
    {
        let ghost pred = active_filter(self.shelters@);
        let mut count: u64 = 0;
        let len = self.shelter_list.len();
        let mut i: usize = 0;
        proof {
            reveal_with_fuel(Seq::<_>::filter, 2);
            assert(self.shelter_list@.take(0).filter(pred) =~= Seq::<u64>::empty());
        }
        while i < len
            invariant
                i <= len,
                len == self.shelter_list@.len(),
                pred == active_filter(self.shelters@),
                count == self.shelter_list@.take(i as int).filter(pred).len(),
                count <= i,
            decreases len - i,
        {
            let shelter_address = self.shelter_list[i];
            let is_active = match self.shelters.get(&shelter_address) {
                Some(s) => s.active,
                None => false,
            };
            proof {
                reveal_with_fuel(Seq::<_>::filter, 2);
                let prefix = self.shelter_list@.take(i + 1 as int);
                assert(prefix.drop_last() =~= self.shelter_list@.take(i as int));
                assert(prefix.last() == self.shelter_list@[i as int]);
                assert(pred(shelter_address) == active_in(self.shelters@, shelter_address));
                if is_active {
                    assert(prefix.filter(pred) =~= prefix.drop_last().filter(pred).push(
                        prefix.last(),
                    ));
                } else {
                    assert(prefix.filter(pred) =~= prefix.drop_last().filter(pred));
                }
                prefix.lemma_filter_len(pred);
                assert(prefix.filter(pred).len() <= prefix.len());
            }
            if is_active {
                count = count + 1;
            }
            i = i + 1;
        }
        proof {
            assert(self.shelter_list@.take(len as int) =~= self.shelter_list@);
        }
        count
    }

    /// Lists the active shelters, preserving the membership list's
    /// current order.
    pub fn get_active_shelters(&self) -> (actives: Vec<u64>)
        ensures
            actives@ == self.shelter_list@.filter(active_filter(self.shelters@)),
    {
        let ghost pred = active_filter(self.shelters@);
        let mut active_shelters: Vec<u64> = Vec::new();
        let len = self.shelter_list.len();
        let mut i: usize = 0;
        proof {
            reveal_with_fuel(Seq::<_>::filter, 2);
            assert(self.shelter_list@.take(0).filter(pred) =~= Seq::<u64>::empty());
        }
        while i < len
            invariant
                i <= len,
                len == self.shelter_list@.len(),
                pred == active_filter(self.shelters@),
                active_shelters@ == self.shelter_list@.take(i as int).filter(pred),
            decreases len - i,
        {
            let shelter_address = self.shelter_list[i];
            let is_active = match self.shelters.get(&shelter_address) {
                Some(s) => s.active,
                None => false,
            };
            proof {
                reveal_with_fuel(Seq::<_>::filter, 2);
                let prefix = self.shelter_list@.take(i + 1 as int);
                assert(prefix.drop_last() =~= self.shelter_list@.take(i as int));
                assert(prefix.last() == self.shelter_list@[i as int]);
                assert(pred(shelter_address) == active_in(self.shelters@, shelter_address));
                if is_active {
                    assert(prefix.filter(pred) =~= prefix.drop_last().filter(pred).push(
                        prefix.last(),
                    ));
                } else {
                    assert(prefix.filter(pred) =~= prefix.drop_last().filter(pred));
                }
            }
            if is_active {
                active_shelters.push(shelter_address);
            }
            i = i + 1;
        }
        proof {
            assert(self.shelter_list@.take(len as int) =~= self.shelter_list@);
        }
        active_shelters
    }

    /// Reports the grand total of gross donations ever accepted, the
    /// active shelter count, and the custody balance the host supplied
    /// from its custody query.
    pub fn get_pool_stats(&self, custody_balance: u64) -> (stats: (u64, u64, u64))
        ensures
            stats.0 == self.total_donations,
            stats.1 == self.active_count_spec(),
            stats.2 == custody_balance,
    {
        let active_shelters = self.get_active_shelter_count();
        (self.total_donations, active_shelters, custody_balance)
    }

    /// Law: across any sequence of operations, `total_donations` equals
    /// the sum of every gross amount the two donation entry points ever
    /// accepted. Every operation requires and preserves `wf`, which
    /// carries this equality, and each successful donation appends
    /// exactly its accepted gross amount to `donation_log` while failed
    /// ones leave it unchanged; so the equality follows by induction
    /// over the ledger's whole history.
    pub proof fn lemma_total_donations_is_sum(self)
        requires
            self.wf(),
        ensures
            self.total_donations == sum_of(self.donation_log@),
    {
    }

    /// Law: a shelter's lifetime total equals the sum of the net amounts
    /// credited to it since its last registration (registration resets
    /// the total to zero along with the history).
    pub proof fn lemma_received_is_sum_of_credits(self, id: u64)
        requires
            self.wf(),
        ensures
            self.received_of(id) == sum_of(self.credits_of(id)),
    {
    }

    /// Law: a shelter's withdrawable balance never exceeds its lifetime
    /// received total plus the balance it already carried when it was
    /// last registered: withdrawals only subtract and every credit raises
    /// both sides alike.
    pub proof fn lemma_balance_bounded(self, id: u64)
        requires
            self.wf(),
        ensures
            self.balance_of(id) <= self.received_of(id) + self.carried_of(id),
    {
    }

    /// Law: for a shelter that held no stale balance at its last
    /// registration — in particular one never registered twice — the
    /// balance never exceeds the lifetime received total. (A
    /// re-registration with an unwithdrawn balance carries that balance
    /// over while the total resets to zero, so the carried term of
    /// [`DonationPool::lemma_balance_bounded`] is then needed.)
    pub proof fn lemma_balance_le_received(self, id: u64)
        requires
            self.wf(),
            self.carried_of(id) == 0,
        ensures
            self.balance_of(id) <= self.received_of(id),
    {
    }

    /// In a well-formed ledger every listed shelter is active, so the
    /// active count equals the membership list's length.
    pub proof fn lemma_active_count_full(self)
        requires
            self.wf(),
        ensures
            self.active_count_spec() == self.shelter_list@.len(),
    {
        let pred = active_filter(self.shelters@);
        assert forall|i: int|
            0 <= i < self.shelter_list@.len() implies pred(self.shelter_list@[i]) by {
            assert(self.shelter_list@.contains(self.shelter_list@[i]));
            assert(active_in(self.shelters@, self.shelter_list@[i]));
            assert(pred(self.shelter_list@[i]) == active_in(self.shelters@, self.shelter_list@[i]));
        }
        lemma_filter_all(self.shelter_list@, pred);
    }
}

} // verus!
