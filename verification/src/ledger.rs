//! The account book that the bank settles against: for every account a free
//! balance, a reserved balance, which is set aside, and a lock, which keeps
//! that much of the free balance from being spent or reserved.

use std::collections::HashMap;
use vstd::prelude::*;

verus! {

/// The balances of one account and the lock on it.
#[derive(Clone, Copy, Debug, PartialEq, Eq, Structural)]
pub struct Account {
    pub free: u128,
    pub reserved: u128,
    pub locked: u128,
}

/// Why the ledger refused an operation.
#[derive(Clone, Copy, Debug, PartialEq, Eq, Structural)]
pub enum LedgerError {
    /// The free balance does not cover the amount.
    InsufficientBalance,
    /// The free balance covers the amount, but not beside the lock.
    Frozen,
    /// The account to be credited would hold more than its type allows.
    Overflow,
}

/// The ledger as three total maps from accounts to amounts.
pub struct LedgerView {
    pub free: Map<u64, u128>,
    pub reserved: Map<u64, u128>,
    pub locked: Map<u64, u128>,
}

impl LedgerView {
    /// The ledger in which every balance is zero.
    pub open spec fn empty() -> LedgerView {
        LedgerView {
            free: Map::total(|a: u64| 0u128),
            reserved: Map::total(|a: u64| 0u128),
            locked: Map::total(|a: u64| 0u128),
        }
    }

    /// What `who` can spend or reserve: the free balance over the lock.
    pub open spec fn available(self, who: u64) -> u128 {
        if self.free[who] >= self.locked[who] {
            (self.free[who] - self.locked[who]) as u128
        } else {
            0
        }
    }

    /// The ledger with a lock of `amount` on `who`, in place of any other.
    pub open spec fn set_lock(self, who: u64, amount: u128) -> LedgerView {
        LedgerView { locked: self.locked.insert(who, amount), ..self }
    }

    /// The ledger with no lock on `who`.
    pub open spec fn remove_lock(self, who: u64) -> LedgerView {
        LedgerView { locked: self.locked.insert(who, 0), ..self }
    }

    /// The two balances of every account together fit in 128 bits.
    pub open spec fn wf(self) -> bool {
        forall|a: u64| #[trigger] self.free[a] + self.reserved[a] <= u128::MAX
    }

    /// Whether `amount` can be added to what `who` holds.
    pub open spec fn can_credit(self, who: u64, amount: u128) -> bool {
        self.free[who] + self.reserved[who] + amount <= u128::MAX
    }

    /// `amount` added to the free balance of `who`.
    pub open spec fn credit(self, who: u64, amount: u128) -> LedgerView {
        LedgerView { free: self.free.insert(who, (self.free[who] + amount) as u128), ..self }
    }

    /// `amount` moved from the free to the reserved balance of `who`.
    pub open spec fn reserve(self, who: u64, amount: u128) -> LedgerView {
        LedgerView {
            free: self.free.insert(who, (self.free[who] - amount) as u128),
            reserved: self.reserved.insert(who, (self.reserved[who] + amount) as u128),
            ..self
        }
    }

    /// How much of `amount` the reserved balance of `who` can give back.
    pub open spec fn releasable(self, who: u64, amount: u128) -> u128 {
        if amount <= self.reserved[who] {
            amount
        } else {
            self.reserved[who]
        }
    }

    /// As much of `amount` as is there moved from the reserved to the free
    /// balance of `who`.
    pub open spec fn unreserve(self, who: u64, amount: u128) -> LedgerView {
        let moved = self.releasable(who, amount);
        LedgerView {
            free: self.free.insert(who, (self.free[who] + moved) as u128),
            reserved: self.reserved.insert(who, (self.reserved[who] - moved) as u128),
            ..self
        }
    }

    /// Whether `from` can pay `amount` to `to`.
    pub open spec fn can_transfer(self, from: u64, to: u64, amount: u128) -> bool {
        self.available(from) >= amount && (from == to || self.can_credit(to, amount))
    }

    /// `amount` moved from the free balance of `from` to that of `to`.
    pub open spec fn transfer(self, from: u64, to: u64, amount: u128) -> LedgerView {
        if from == to {
            self
        } else {
            LedgerView {
                free: self.free.insert(from, (self.free[from] - amount) as u128).insert(
                    to,
                    (self.free[to] + amount) as u128,
                ),
                ..self
            }
        }
    }
}

impl LedgerView {
    /// Crediting an account that can take the amount keeps the ledger well
    /// formed.
    pub proof fn lemma_credit_keeps_wf(self, who: u64, amount: u128)
        requires
            self.wf(),
            self.can_credit(who, amount),
        ensures
            self.credit(who, amount).wf(),
    {
        let t = self.credit(who, amount);
        assert forall|a: u64| #[trigger] t.free[a] + t.reserved[a] <= u128::MAX by {
            assert(self.free[a] + self.reserved[a] <= u128::MAX);
        }
    }

    /// Reserving what is free keeps the ledger well formed.
    pub proof fn lemma_reserve_keeps_wf(self, who: u64, amount: u128)
        requires
            self.wf(),
            self.available(who) >= amount,
        ensures
            self.reserve(who, amount).wf(),
    {
        let t = self.reserve(who, amount);
        assert forall|a: u64| #[trigger] t.free[a] + t.reserved[a] <= u128::MAX by {
            assert(self.free[a] + self.reserved[a] <= u128::MAX);
        }
    }

    /// Releasing keeps the ledger well formed.
    pub proof fn lemma_unreserve_keeps_wf(self, who: u64, amount: u128)
        requires
            self.wf(),
        ensures
            self.unreserve(who, amount).wf(),
    {
        let t = self.unreserve(who, amount);
        assert forall|a: u64| #[trigger] t.free[a] + t.reserved[a] <= u128::MAX by {
            assert(self.free[a] + self.reserved[a] <= u128::MAX);
        }
    }

    /// A transfer that can be made keeps the ledger well formed.
    pub proof fn lemma_transfer_keeps_wf(self, from: u64, to: u64, amount: u128)
        requires
            self.wf(),
            self.can_transfer(from, to, amount),
        ensures
            self.transfer(from, to, amount).wf(),
    {
        let t = self.transfer(from, to, amount);
        assert forall|a: u64| #[trigger] t.free[a] + t.reserved[a] <= u128::MAX by {
            assert(self.free[a] + self.reserved[a] <= u128::MAX);
        }
    }
}

/// An account book held in memory. An account that was never touched holds
/// nothing.
pub struct Ledger {
    accounts: HashMap<u64, Account>,
}

impl Ledger {
    /// What `who` holds.
    pub closed spec fn account(&self, who: u64) -> Account {
        if self.accounts@.contains_key(who) {
            self.accounts@[who]
        } else {
            Account { free: 0, reserved: 0, locked: 0 }
        }
    }

    /// The balances of all accounts.
    pub closed spec fn view(&self) -> LedgerView {
        LedgerView {
            free: Map::total(|a: u64| self.account(a).free),
            reserved: Map::total(|a: u64| self.account(a).reserved),
            locked: Map::total(|a: u64| self.account(a).locked),
        }
    }

    /// The two balances of every account together fit in 128 bits.
    pub open spec fn wf(&self) -> bool {
        self@.wf()
    }

    /// A ledger in which every balance is zero.
    pub fn new() -> (r: Ledger)
        ensures
            r@ == LedgerView::empty(),
            r.wf(),
    {
        let r = Ledger { accounts: HashMap::new() };
        proof {
            assert(r@.free =~= LedgerView::empty().free);
            assert(r@.reserved =~= LedgerView::empty().reserved);
            assert(r@.locked =~= LedgerView::empty().locked);
        }
        r
    }

    fn lookup(&self, who: u64) -> (r: Account)
        ensures
            r == self.account(who),
            r.free == self@.free[who],
            r.reserved == self@.reserved[who],
            r.locked == self@.locked[who],
    {
        broadcast use vstd::std_specs::hash::group_hash_axioms;

        match self.accounts.get(&who) {
            Some(a) => *a,
            None => Account { free: 0, reserved: 0, locked: 0 },
        }
    }

    fn store(&mut self, who: u64, account: Account)
        ensures
            final(self)@.free == old(self)@.free.insert(who, account.free),
            final(self)@.reserved == old(self)@.reserved.insert(who, account.reserved),
            final(self)@.locked == old(self)@.locked.insert(who, account.locked),
    {
        broadcast use vstd::std_specs::hash::group_hash_axioms;

        self.accounts.insert(who, account);
        proof {
            assert(self@.free =~= old(self)@.free.insert(who, account.free));
            assert(self@.reserved =~= old(self)@.reserved.insert(who, account.reserved));
            assert(self@.locked =~= old(self)@.locked.insert(who, account.locked));
        }
    }

    /// The free balance of `who`.
    pub fn free_balance(&self, who: u64) -> (r: u128)
        ensures
            r == self@.free[who],
    {
        self.lookup(who).free
    }

    /// The reserved balance of `who`.
    pub fn reserved_balance(&self, who: u64) -> (r: u128)
        ensures
            r == self@.reserved[who],
    {
        self.lookup(who).reserved
    }

    /// The lock on `who`.
    pub fn locked_balance(&self, who: u64) -> (r: u128)
        ensures
            r == self@.locked[who],
    {
        self.lookup(who).locked
    }

    /// What `who` can spend or reserve: the free balance over the lock.
    pub fn usable_balance(&self, who: u64) -> (r: u128)
        ensures
            r == self@.available(who),
    {
        let a = self.lookup(who);
        if a.free >= a.locked {
            a.free - a.locked
        } else {
            0
        }
    }

    /// Puts a lock of `amount` on `who`, in place of any other.
    pub fn set_lock(&mut self, who: u64, amount: u128)
        requires
            old(self).wf(),
        ensures
            final(self).wf(),
            final(self)@ == old(self)@.set_lock(who, amount),
    {
        let a = self.lookup(who);
        self.store(who, Account { free: a.free, reserved: a.reserved, locked: amount });
        proof {
            assert(self@.free =~= old(self)@.free);
            assert(self@.reserved =~= old(self)@.reserved);
        }
    }

    /// Takes the lock off `who`.
    pub fn remove_lock(&mut self, who: u64)
        requires
            old(self).wf(),
        ensures
            final(self).wf(),
            final(self)@ == old(self)@.remove_lock(who),
    {
        let a = self.lookup(who);
        self.store(who, Account { free: a.free, reserved: a.reserved, locked: 0 });
        proof {
            assert(self@.free =~= old(self)@.free);
            assert(self@.reserved =~= old(self)@.reserved);
        }
    }

    /// Whether `amount` can be added to what `who` holds.
    pub fn can_credit(&self, who: u64, amount: u128) -> (r: bool)
        requires
            self.wf(),
        ensures
            r == self@.can_credit(who, amount),
    {
        let a = self.lookup(who);
        assert(self@.free[who] + self@.reserved[who] <= u128::MAX);
        amount <= u128::MAX - (a.free + a.reserved)
    }

    /// Adds `amount` to the free balance of `who`, unless the account would
    /// then hold more than fits in 128 bits.
    pub fn deposit(&mut self, who: u64, amount: u128) -> (r: Result<(), LedgerError>)
        requires
            old(self).wf(),
        ensures
            final(self).wf(),
            r == if old(self)@.can_credit(who, amount) {
                Ok::<(), LedgerError>(())
            } else {
                Err::<(), LedgerError>(LedgerError::Overflow)
            },
            r is Ok ==> final(self)@ == old(self)@.credit(who, amount),
            r is Err ==> final(self)@ == old(self)@,
    {
        if !self.can_credit(who, amount) {
            return Err(LedgerError::Overflow);
        }
        let a = self.lookup(who);
        self.store(who, Account { free: a.free + amount, reserved: a.reserved, locked: a.locked });
        proof {
            assert(self@.reserved =~= old(self)@.reserved);
            assert(self@.locked =~= old(self)@.locked);
            assert forall|b: u64| #[trigger] self@.free[b] + self@.reserved[b] <= u128::MAX by {
                assert(old(self)@.free[b] + old(self)@.reserved[b] <= u128::MAX);
            }
        }
        Ok(())
    }

    /// Moves `amount` from the free to the reserved balance of `who`, unless
    /// the free balance is smaller, or is not larger by the lock.
    pub fn reserve(&mut self, who: u64, amount: u128) -> (r: Result<(), LedgerError>)
        requires
            old(self).wf(),
        ensures
            final(self).wf(),
            r == if old(self)@.free[who] < amount {
                Err::<(), LedgerError>(LedgerError::InsufficientBalance)
            } else if old(self)@.available(who) < amount {
                Err::<(), LedgerError>(LedgerError::Frozen)
            } else {
                Ok::<(), LedgerError>(())
            },
            r is Ok ==> final(self)@ == old(self)@.reserve(who, amount),
            r is Err ==> final(self)@ == old(self)@,
    {
        let a = self.lookup(who);
        if a.free < amount {
            return Err(LedgerError::InsufficientBalance);
        }
        if self.usable_balance(who) < amount {
            return Err(LedgerError::Frozen);
        }
        assert(old(self)@.free[who] + old(self)@.reserved[who] <= u128::MAX);
        self.store(
            who,
            Account { free: a.free - amount, reserved: a.reserved + amount, locked: a.locked },
        );
        proof {
            assert(self@.locked =~= old(self)@.locked);
            assert forall|b: u64| #[trigger] self@.free[b] + self@.reserved[b] <= u128::MAX by {
                assert(old(self)@.free[b] + old(self)@.reserved[b] <= u128::MAX);
            }
        }
        Ok(())
    }

    /// Moves `amount` from the reserved to the free balance of `who`, or as
    /// much of it as is reserved. Returns what could not be moved.
    pub fn unreserve(&mut self, who: u64, amount: u128) -> (rest: u128)
        requires
            old(self).wf(),
        ensures
            final(self).wf(),
            final(self)@ == old(self)@.unreserve(who, amount),
            rest == amount - old(self)@.releasable(who, amount),
    {
        let a = self.lookup(who);
        let moved: u128 = if amount <= a.reserved {
            amount
        } else {
            a.reserved
        };
        assert(old(self)@.free[who] + old(self)@.reserved[who] <= u128::MAX);
        self.store(
            who,
            Account { free: a.free + moved, reserved: a.reserved - moved, locked: a.locked },
        );
        proof {
            assert(self@.locked =~= old(self)@.locked);
            assert forall|b: u64| #[trigger] self@.free[b] + self@.reserved[b] <= u128::MAX by {
                assert(old(self)@.free[b] + old(self)@.reserved[b] <= u128::MAX);
            }
        }
        amount - moved
    }

    /// Moves `amount` from the free balance of `from` to that of `to`. Fails
    /// where `from` has less, or not as much beside the lock, and where `to`
    /// would then hold more than fits in 128 bits.
    pub fn transfer(&mut self, from: u64, to: u64, amount: u128) -> (r: Result<(), LedgerError>)
        requires
            old(self).wf(),
        ensures
            final(self).wf(),
            r == if old(self)@.free[from] < amount {
                Err::<(), LedgerError>(LedgerError::InsufficientBalance)
            } else if old(self)@.available(from) < amount {
                Err::<(), LedgerError>(LedgerError::Frozen)
            } else if !old(self)@.can_transfer(from, to, amount) {
                Err::<(), LedgerError>(LedgerError::Overflow)
            } else {
                Ok::<(), LedgerError>(())
            },
            r is Ok ==> final(self)@ == old(self)@.transfer(from, to, amount),
            r is Err ==> final(self)@ == old(self)@,
    {
        let payer = self.lookup(from);
        if payer.free < amount {
            return Err(LedgerError::InsufficientBalance);
        }
        if self.usable_balance(from) < amount {
            return Err(LedgerError::Frozen);
        }
        if from == to {
            return Ok(());
        }
        if !self.can_credit(to, amount) {
            return Err(LedgerError::Overflow);
        }
        let payee = self.lookup(to);
        self.store(
            from,
            Account { free: payer.free - amount, reserved: payer.reserved, locked: payer.locked },
        );
        self.store(
            to,
            Account { free: payee.free + amount, reserved: payee.reserved, locked: payee.locked },
        );
        proof {
            assert(self@.reserved =~= old(self)@.reserved);
            assert(self@.locked =~= old(self)@.locked);
            assert forall|b: u64| #[trigger] self@.free[b] + self@.reserved[b] <= u128::MAX by {
                assert(old(self)@.free[b] + old(self)@.reserved[b] <= u128::MAX);
            }
        }
        Ok(())
    }
}

} // verus!
