//! The vault: the open deposits, by depositor and id, and for every depositor
//! the id of the latest deposit.

use crate::error::Error;
use std::collections::HashMap;
use vstd::prelude::*;

verus! {

/// One open deposit.
#[derive(Clone, Copy, Debug, PartialEq, Eq, Structural)]
pub struct Deposit {
    /// The amount that was deposited and is reserved.
    pub principal: u128,
    /// The block at which the deposit was opened.
    pub opened_at: u64,
    /// The number of blocks after which the deposit is mature.
    pub maturity_period: u32,
}

/// The vault as two maps.
pub struct VaultView {
    /// For every account the id of its latest deposit, zero where it has
    /// made none, and its investment score. The map is total.
    pub details: Map<u64, (u32, u16)>,
    /// The open deposits, by depositor and id.
    pub deposits: Map<(u64, u32), Deposit>,
}

impl VaultView {
    /// The vault in which nobody has made a deposit.
    pub open spec fn empty() -> VaultView {
        VaultView { details: Map::total(|a: u64| (0u32, 0u16)), deposits: Map::empty() }
    }

    /// The id after the latest of `who`.
    pub open spec fn next_id(self, who: u64) -> int {
        self.details[who].0 + 1
    }

    /// The vault with `deposit` stored under `who` and `id`.
    pub open spec fn insert(self, who: u64, id: u32, deposit: Deposit) -> VaultView {
        VaultView { deposits: self.deposits.insert((who, id), deposit), ..self }
    }

    /// The vault in which `id` is the latest id of `who`.
    pub open spec fn advance(self, who: u64, id: u32) -> VaultView {
        VaultView { details: self.details.insert(who, (id, self.details[who].1)), ..self }
    }

    /// The vault without the deposit `id` of `who`.
    pub open spec fn remove(self, who: u64, id: u32) -> VaultView {
        VaultView { deposits: self.deposits.remove((who, id)), ..self }
    }

    /// The principal of the deposit `id` of `who`, nothing where there is no
    /// such deposit.
    pub open spec fn principal_at(self, who: u64, id: nat) -> nat {
        if id <= u32::MAX && self.deposits.contains_key((who, id as u32)) {
            self.deposits[(who, id as u32)].principal as nat
        } else {
            0
        }
    }

    /// The principal of all open deposits of `who` with ids up to `upto`.
    pub open spec fn staked(self, who: u64, upto: nat) -> nat
        decreases upto,
    {
        if upto == 0 {
            0
        } else {
            self.staked(who, (upto - 1) as nat) + self.principal_at(who, upto)
        }
    }

    /// Two vaults that hold the same deposits of `who` up to an id hold the
    /// same principal up to it.
    pub proof fn lemma_staked_agrees(self, other: VaultView, who: u64, upto: nat)
        requires
            forall|id: nat| 1 <= id <= upto ==> self.principal_at(who, id) == other.principal_at(who, id),
        ensures
            self.staked(who, upto) == other.staked(who, upto),
        decreases upto,
    {
        if upto > 0 {
            self.lemma_staked_agrees(other, who, (upto - 1) as nat);
        }
    }

    /// The principal of one open deposit is part of what is staked up to its
    /// id, and up to any id after it.
    pub proof fn lemma_staked_covers_deposit(self, who: u64, id: u32, upto: nat)
        requires
            self.deposits.contains_key((who, id)),
            1 <= id <= upto,
        ensures
            self.staked(who, upto) >= self.deposits[(who, id)].principal,
        decreases upto,
    {
        if upto > id {
            self.lemma_staked_covers_deposit(who, id, (upto - 1) as nat);
        }
    }

    /// Taking a deposit out lowers what is staked by its principal.
    pub proof fn lemma_staked_after_remove(self, who: u64, id: u32, upto: nat)
        requires
            self.deposits.contains_key((who, id)),
            1 <= id <= upto,
        ensures
            self.remove(who, id).staked(who, upto) == self.staked(who, upto) - self.deposits[(
                who,
                id,
            )].principal,
        decreases upto,
    {
        let after = self.remove(who, id);
        if upto > id {
            self.lemma_staked_after_remove(who, id, (upto - 1) as nat);
            assert(after.principal_at(who, upto) == self.principal_at(who, upto));
        } else {
            assert forall|i: nat| 1 <= i <= (upto - 1) as nat implies after.principal_at(who, i)
                == self.principal_at(who, i) by {}
            after.lemma_staked_agrees(self, who, (upto - 1) as nat);
            assert(after.principal_at(who, upto) == 0);
        }
    }
}

/// The key under which the deposit `id` of `who` is stored.
pub open spec fn vault_key(who: u64, id: u32) -> u128 {
    (who * 0x1_0000_0000 + id) as u128
}

fn make_vault_key(who: u64, id: u32) -> (k: u128)
    ensures
        k == vault_key(who, id),
{
    (who as u128) * 0x1_0000_0000 + (id as u128)
}

/// Two deposits are stored under one key only if they are one deposit.
proof fn lemma_vault_key_injective(a: u64, i: u32, b: u64, j: u32)
    ensures
        vault_key(a, i) == vault_key(b, j) <==> a == b && i == j,
{
}

/// A vault held in memory.
pub struct Vault {
    users: HashMap<u64, (u32, u16)>,
    deposits: HashMap<u128, Deposit>,
}

impl Vault {
    /// The vault as two maps.
    pub closed spec fn view(&self) -> VaultView {
        VaultView {
            details: Map::total(
                |a: u64|
                    if self.users@.contains_key(a) {
                        self.users@[a]
                    } else {
                        (0u32, 0u16)
                    },
            ),
            deposits: Map::new(
                |k: (u64, u32)| self.deposits@.contains_key(vault_key(k.0, k.1)),
                |k: (u64, u32)| self.deposits@[vault_key(k.0, k.1)],
            ),
        }
    }

    /// A vault in which nobody has made a deposit.
    pub fn new() -> (r: Vault)
        ensures
            r@ == VaultView::empty(),
    {
        let r = Vault { users: HashMap::new(), deposits: HashMap::new() };
        proof {
            assert(r@.details =~= VaultView::empty().details);
            assert(r@.deposits =~= VaultView::empty().deposits);
        }
        r
    }

    /// The id of the latest deposit of `who`, zero where there is none, and
    /// the investment score of `who`.
    pub fn details(&self, who: u64) -> (r: (u32, u16))
        ensures
            r == self@.details[who],
    {
        broadcast use vstd::std_specs::hash::group_hash_axioms;

        match self.users.get(&who) {
            Some(d) => *d,
            None => (0, 0),
        }
    }

    /// The id that the next deposit of `who` gets, or `None` where the ids
    /// have run out. Nothing is used up.
    pub fn next_id(&self, who: u64) -> (r: Option<u32>)
        ensures
            r == if self@.next_id(who) <= u32::MAX {
                Some(self@.next_id(who) as u32)
            } else {
                None::<u32>
            },
    {
        self.details(who).0.checked_add(1)
    }

    /// The deposit `id` of `who`, or `None` where there is none.
    pub fn get(&self, who: u64, id: u32) -> (r: Option<Deposit>)
        ensures
            r == if self@.deposits.contains_key((who, id)) {
                Some(self@.deposits[(who, id)])
            } else {
                None::<Deposit>
            },
    {
        broadcast use vstd::std_specs::hash::group_hash_axioms;

        let key = make_vault_key(who, id);
        match self.deposits.get(&key) {
            Some(d) => Some(*d),
            None => None,
        }
    }

    /// Stores `deposit` under `who` and `id`. Fails where a deposit is stored
    /// there already: nothing is ever overwritten.
    pub fn insert(&mut self, who: u64, id: u32, deposit: Deposit) -> (r: Result<(), Error>)
        ensures
            r == if old(self)@.deposits.contains_key((who, id)) {
                Err::<(), Error>(Error::FDAlreadyExistsWithIdWhenOpeningFD)
            } else {
                Ok::<(), Error>(())
            },
            r is Ok ==> final(self)@ == old(self)@.insert(who, id, deposit),
            r is Err ==> final(self)@ == old(self)@,
    {
        broadcast use vstd::std_specs::hash::group_hash_axioms;

        let key = make_vault_key(who, id);
        if self.deposits.contains_key(&key) {
            return Err(Error::FDAlreadyExistsWithIdWhenOpeningFD);
        }
        self.deposits.insert(key, deposit);
        proof {
            let after = old(self)@.insert(who, id, deposit);
            assert forall|k: (u64, u32)| #[trigger]
                self@.deposits.contains_key(k) == after.deposits.contains_key(k) by {
                lemma_vault_key_injective(k.0, k.1, who, id);
            }
            assert forall|k: (u64, u32)| #[trigger]
                self@.deposits.contains_key(k) implies self@.deposits[k] == after.deposits[k] by {
                lemma_vault_key_injective(k.0, k.1, who, id);
            }
            assert(self@.deposits =~= after.deposits);
            assert(self@.details =~= after.details);
        }
        Ok(())
    }

    /// Makes `id` the latest id of `who`.
    pub fn advance(&mut self, who: u64, id: u32)
        ensures
            final(self)@ == old(self)@.advance(who, id),
    {
        broadcast use vstd::std_specs::hash::group_hash_axioms;

        let score = self.details(who).1;
        self.users.insert(who, (id, score));
        proof {
            let after = old(self)@.advance(who, id);
            assert(self@.details =~= after.details);
            assert(self@.deposits =~= after.deposits);
        }
    }

    /// Takes the deposit `id` of `who` out of the vault, if it is there.
    pub fn remove(&mut self, who: u64, id: u32)
        ensures
            final(self)@ == old(self)@.remove(who, id),
    {
        broadcast use vstd::std_specs::hash::group_hash_axioms;

        let key = make_vault_key(who, id);
        self.deposits.remove(&key);
        proof {
            let after = old(self)@.remove(who, id);
            assert forall|k: (u64, u32)| #[trigger]
                self@.deposits.contains_key(k) == after.deposits.contains_key(k) by {
                lemma_vault_key_injective(k.0, k.1, who, id);
            }
            assert forall|k: (u64, u32)| #[trigger]
                self@.deposits.contains_key(k) implies self@.deposits[k] == after.deposits[k] by {
                lemma_vault_key_injective(k.0, k.1, who, id);
            }
            assert(self@.deposits =~= after.deposits);
            assert(self@.details =~= after.details);
        }
    }
}

} // verus!
