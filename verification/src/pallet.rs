//! The bank's state and the operations on it: the parameter store, the
//! treasury binding, the vault of open deposits, the two transitions of a
//! deposit's life, opening and closing, and the lock that membership takes.
//!
//! Every operation is all or nothing: it either succeeds and changes the state
//! as its contract says, or fails with an error and changes nothing.

use crate::error::Error;
use crate::fixed::Permill;
use crate::interest::{compound_interest_result, penalty};
use crate::ledger::{Ledger, LedgerError, LedgerView};
use crate::vault::{Deposit, Vault, VaultView};
use vstd::prelude::*;

verus! {

/// The bounds that deposits and locks must keep. They are fixed when the bank
/// is made.
#[derive(Clone, Copy, Debug, PartialEq, Eq, Structural)]
pub struct Config {
    /// The smallest amount that can be deposited.
    pub min_fd_amount: u128,
    /// The largest amount that can be deposited.
    pub max_fd_amount: u128,
    /// The smallest amount that can be locked for membership.
    pub min_lock_value: u128,
    /// The largest amount that can be locked for membership.
    pub max_lock_value: u128,
    /// The longest maturity period, in blocks.
    pub max_fd_maturity_period: u32,
}

/// The parameters that the administrator sets.
#[derive(Clone, Copy, Debug, PartialEq, Eq, Structural)]
pub struct FdParams {
    /// The interest earned in one epoch.
    pub interest_rate: Permill,
    /// The share of the principal that an early withdrawal costs.
    pub penalty_rate: Permill,
    /// How often interest is compounded in one epoch.
    pub compound_frequency: u16,
    /// The length of an epoch, in blocks.
    pub fd_epoch: u32,
}

impl FdParams {
    /// None of the four parameters is zero.
    pub open spec fn positive(self) -> bool {
        &&& self.interest_rate.parts() > 0
        &&& self.penalty_rate.parts() > 0
        &&& self.compound_frequency > 0
        &&& self.fd_epoch > 0
    }
}

/// Who asks for an operation. The caller of the bank has established this.
#[derive(Clone, Copy, Debug, PartialEq, Eq, Structural)]
pub enum Origin {
    /// The administrator.
    Root,
    /// The holder of an account.
    Signed(u64),
    /// Nobody in particular.
    Anonymous,
}

/// What the bank records of each successful operation.
#[derive(Clone, Copy, Debug, PartialEq, Eq, Structural)]
pub enum Event {
    /// The parameters were set.
    FDParamsSet { interest_rate: Permill, penalty_rate: Permill, fd_epoch: u32 },
    /// The treasury account was set.
    TreasurySet { account: u64, block_num: u64 },
    /// The treasury account was unset.
    TreasuryReset { block_num: u64 },
    /// A deposit was opened.
    FDOpened { user: u64, amount: u128, block: u64 },
    /// A deposit was closed, at or before maturity.
    FDClosed { maturity: bool, user: u64, principal: u128, interest: u128, penalty: u128, block: u64 },
    /// An amount was locked for membership.
    LockedForMembership { user: u64, amount: u128, block: u64 },
    /// The lock for membership was taken off.
    UnlockedForMembership { user: u64, block: u64 },
}

/// The account that signed, if one did.
pub open spec fn signer(origin: Origin) -> Option<u64> {
    match origin {
        Origin::Signed(who) => Some(who),
        _ => None,
    }
}

/// The bank as a mathematical value.
pub struct BankView {
    /// The bounds on deposits.
    pub config: Config,
    /// The current block.
    pub now: u64,
    /// The parameters, once set.
    pub params: Option<FdParams>,
    /// The treasury account, while set.
    pub treasury: Option<u64>,
    /// The open deposits and the depositors' latest ids.
    pub vault: VaultView,
    /// The balances.
    pub ledger: LedgerView,
    /// The record of what was done, oldest first.
    pub events: Seq<Event>,
}

impl BankView {
    /// The bank before anything has happened.
    pub open spec fn initial(config: Config) -> BankView {
        BankView {
            config,
            now: 0,
            params: None,
            treasury: None,
            vault: VaultView::empty(),
            ledger: LedgerView::empty(),
            events: Seq::empty(),
        }
    }

    /// Whether the deposit `id` of `who` is as a deposit is when it is
    /// opened: its id is one that `who` was given, and its principal and
    /// maturity period keep the bounds.
    pub open spec fn in_bounds(self, who: u64, id: u32) -> bool
        recommends
            self.vault.deposits.contains_key((who, id)),
    {
        let d = self.vault.deposits[(who, id)];
        &&& 1 <= id <= self.vault.details[who].0
        &&& d.principal > 0
        &&& self.config.min_fd_amount <= d.principal <= self.config.max_fd_amount
        &&& d.maturity_period <= self.config.max_fd_maturity_period
    }

    /// Whether the reserved balance of `who` covers the principal of all the
    /// open deposits of `who`.
    pub open spec fn covered(self, who: u64) -> bool {
        self.ledger.reserved[who] >= self.vault.staked(who, self.vault.details[who].0 as nat)
    }

    /// Parameters that are set are all positive; every open deposit is in
    /// bounds, and while there is one the parameters are set; the reserved
    /// balance of every depositor covers the open deposits; nobody has an
    /// investment score yet; and the balances of every account fit in 128
    /// bits.
    pub open spec fn wf(self) -> bool {
        &&& self.ledger.wf()
        &&& forall|who: u64| #[trigger] self.covered(who)
        &&& forall|who: u64, id: u32| #[trigger]
            self.vault.deposits.contains_key((who, id)) ==> self.in_bounds(who, id)
                && self.params is Some
        &&& forall|who: u64| (#[trigger] self.vault.details[who]).1 == 0
        &&& match self.params {
            Some(p) => p.positive(),
            None => true,
        }
    }

    /// Whether `set_fd_params` succeeds, and why not.
    pub open spec fn set_fd_params_result(
        origin: Origin,
        interest_rate: Permill,
        penalty_rate: Permill,
        compound_frequency: u16,
        fd_epoch: u32,
    ) -> Result<(), Error> {
        if origin != Origin::Root {
            Err(Error::BadOrigin)
        } else if interest_rate.parts() == 0 {
            Err(Error::ZeroFDInterestRate)
        } else if penalty_rate.parts() == 0 {
            Err(Error::ZeroFDPenalty)
        } else if compound_frequency == 0 {
            Err(Error::ZeroFDCompoundFrequency)
        } else if fd_epoch == 0 {
            Err(Error::ZeroFDEpoch)
        } else {
            Ok(())
        }
    }

    /// The bank after `set_fd_params` has succeeded.
    pub open spec fn after_set_fd_params(self, params: FdParams) -> BankView {
        BankView {
            params: Some(params),
            events: self.events.push(
                Event::FDParamsSet {
                    interest_rate: params.interest_rate,
                    penalty_rate: params.penalty_rate,
                    fd_epoch: params.fd_epoch,
                },
            ),
            ..self
        }
    }

    /// The bank after `set_treasury` has succeeded.
    pub open spec fn after_set_treasury(self, treasury: u64) -> BankView {
        BankView {
            treasury: Some(treasury),
            events: self.events.push(Event::TreasurySet { account: treasury, block_num: self.now }),
            ..self
        }
    }

    /// Whether `reset_treasury` succeeds, and why not.
    pub open spec fn reset_treasury_result(self, origin: Origin) -> Result<(), Error> {
        if origin != Origin::Root {
            Err(Error::BadOrigin)
        } else if self.treasury is None {
            Err(Error::TreasuryNotSet)
        } else {
            Ok(())
        }
    }

    /// The bank after `reset_treasury` has succeeded.
    pub open spec fn after_reset_treasury(self) -> BankView {
        BankView {
            treasury: None,
            events: self.events.push(Event::TreasuryReset { block_num: self.now }),
            ..self
        }
    }

    /// The id of the deposit that `open_fd` opens, or why it opens none. The
    /// conditions are tested in this order.
    pub open spec fn open_result(self, origin: Origin, amount: u128, maturity_period: u32) -> Result<
        u32,
        Error,
    > {
        match signer(origin) {
            None => Err(Error::BadOrigin),
            Some(who) => {
                if amount == 0 {
                    Err(Error::ZeroAmountWhenOpeningFD)
                } else if amount < self.config.min_fd_amount || amount
                    > self.config.max_fd_amount {
                    Err(Error::FDAmountOutOfRangeWhenOpening)
                } else if self.treasury is None {
                    Err(Error::TreasuryNotSet)
                } else if self.params is None {
                    Err(Error::FDParamsNotSet)
                } else if maturity_period < self.params->Some_0.fd_epoch || maturity_period
                    > self.config.max_fd_maturity_period {
                    Err(Error::FDMaturityPeriodOutOfRangeWhenOpening)
                } else if self.vault.next_id(who) > u32::MAX {
                    Err(Error::ArithmeticOverflow)
                } else if self.vault.deposits.contains_key((who, self.vault.next_id(who) as u32)) {
                    Err(Error::FDAlreadyExistsWithIdWhenOpeningFD)
                } else if self.ledger.available(who) < amount {
                    Err(Error::InsufficientFreeBalanceWhenOpeningFD)
                } else {
                    Ok(self.vault.next_id(who) as u32)
                }
            },
        }
    }

    /// The bank after `who` has opened a deposit: the amount is reserved,
    /// the deposit is stored under the next id of `who`, and that id is
    /// used up.
    pub open spec fn after_open(self, who: u64, amount: u128, maturity_period: u32) -> BankView {
        let id = self.vault.next_id(who) as u32;
        BankView {
            ledger: self.ledger.reserve(who, amount),
            vault: self.vault.insert(
                who,
                id,
                Deposit { principal: amount, opened_at: self.now, maturity_period },
            ).advance(who, id),
            events: self.events.push(Event::FDOpened { user: who, amount, block: self.now }),
            ..self
        }
    }

    /// The blocks that have passed since the deposit was opened.
    pub open spec fn elapsed(self, who: u64, id: u32) -> int
        recommends
            self.vault.deposits.contains_key((who, id)),
    {
        self.now - self.vault.deposits[(who, id)].opened_at
    }

    /// Whether the deposit has been open for its maturity period.
    pub open spec fn is_mature(self, who: u64, id: u32) -> bool
        recommends
            self.vault.deposits.contains_key((who, id)),
    {
        self.elapsed(who, id) >= self.vault.deposits[(who, id)].maturity_period
    }

    /// The interest that the deposit earns at maturity under the current
    /// parameters, or why it cannot be computed.
    pub open spec fn interest_due(self, who: u64, id: u32) -> Result<u128, Error>
        recommends
            self.vault.deposits.contains_key((who, id)),
            self.params is Some,
    {
        let d = self.vault.deposits[(who, id)];
        let p = self.params->Some_0;
        compound_interest_result(
            d.principal as nat,
            p.interest_rate.parts(),
            p.compound_frequency as nat,
            p.fd_epoch as nat,
            d.maturity_period as nat,
        )
    }

    /// The penalty that closing the deposit early costs under the current
    /// parameters.
    pub open spec fn penalty_due(self, who: u64, id: u32) -> nat
        recommends
            self.vault.deposits.contains_key((who, id)),
            self.params is Some,
    {
        penalty(self.vault.deposits[(who, id)].principal as nat, self.params->Some_0.penalty_rate.parts())
    }

    /// Whether `close_fd` closes the deposit, and why not. The conditions
    /// are tested in this order.
    pub open spec fn close_result(self, origin: Origin, id: u32, has_matured: u8) -> Result<
        (),
        Error,
    > {
        match signer(origin) {
            None => Err(Error::BadOrigin),
            Some(who) => {
                if id == 0 {
                    Err(Error::ZeroIdWhenClosingFD)
                } else if has_matured > 1 {
                    Err(Error::InvalidMaturityStatus)
                } else if !self.vault.deposits.contains_key((who, id)) {
                    Err(Error::FDNotExistsWithIdWhenClosingFD)
                } else if self.treasury is None {
                    Err(Error::TreasuryNotSet)
                } else if self.params is None {
                    Err(Error::FDInterestNotSet)
                } else if self.elapsed(who, id) < 0 {
                    Err(Error::ArithmeticUnderflow)
                } else if self.is_mature(who, id) && has_matured == 1 {
                    self.mature_close_result(who, id)
                } else if !self.is_mature(who, id) && has_matured == 0 {
                    self.early_close_result(who, id)
                } else {
                    Err(Error::InvalidCloseFDCombination)
                }
            },
        }
    }

    /// Whether a mature deposit can be settled: the interest can be
    /// computed, what the treasury has available exceeds it, and the
    /// depositor's account can take it.
    pub open spec fn mature_close_result(self, who: u64, id: u32) -> Result<(), Error>
        recommends
            self.vault.deposits.contains_key((who, id)),
            self.params is Some,
            self.treasury is Some,
    {
        let treasury = self.treasury->Some_0;
        match self.interest_due(who, id) {
            Err(e) => Err(e),
            Ok(interest) => {
                if self.ledger.available(treasury) <= interest {
                    Err(Error::InsufficientFreeBalanceForInterest)
                } else if !self.ledger.can_transfer(treasury, who, interest) {
                    Err(Error::ArithmeticOverflow)
                } else {
                    Ok(())
                }
            },
        }
    }

    /// Whether a deposit can be settled early: what the depositor has
    /// available exceeds the penalty, and the treasury's account can take it.
    pub open spec fn early_close_result(self, who: u64, id: u32) -> Result<(), Error>
        recommends
            self.vault.deposits.contains_key((who, id)),
            self.params is Some,
            self.treasury is Some,
    {
        let treasury = self.treasury->Some_0;
        let due = self.penalty_due(who, id);
        if self.ledger.available(who) <= due {
            Err(Error::InsufficientFreeBalanceForPenalty)
        } else if !self.ledger.can_transfer(who, treasury, due as u128) {
            Err(Error::ArithmeticOverflow)
        } else {
            Ok(())
        }
    }

    /// The bank after `who` has closed deposit `id`. At maturity the
    /// treasury pays the interest to the depositor; before it the depositor
    /// pays the penalty to the treasury. Either way the principal is
    /// released and the deposit is gone.
    pub open spec fn after_close(self, who: u64, id: u32) -> BankView
        recommends
            self.vault.deposits.contains_key((who, id)),
            self.params is Some,
            self.treasury is Some,
    {
        let treasury = self.treasury->Some_0;
        let d = self.vault.deposits[(who, id)];
        if self.is_mature(who, id) {
            let interest = self.interest_due(who, id)->Ok_0;
            BankView {
                ledger: self.ledger.transfer(treasury, who, interest).unreserve(who, d.principal),
                vault: self.vault.remove(who, id),
                events: self.events.push(
                    Event::FDClosed {
                        maturity: true,
                        user: who,
                        principal: d.principal,
                        interest,
                        penalty: 0,
                        block: self.now,
                    },
                ),
                ..self
            }
        } else {
            let due = self.penalty_due(who, id) as u128;
            BankView {
                ledger: self.ledger.transfer(who, treasury, due).unreserve(who, d.principal),
                vault: self.vault.remove(who, id),
                events: self.events.push(
                    Event::FDClosed {
                        maturity: false,
                        user: who,
                        principal: d.principal,
                        interest: 0,
                        penalty: due,
                        block: self.now,
                    },
                ),
                ..self
            }
        }
    }

    /// Whether `lock_for_membership` succeeds, and why not.
    pub open spec fn lock_result(self, origin: Origin, amount: u128) -> Result<(), Error> {
        if signer(origin) is None {
            Err(Error::BadOrigin)
        } else if amount < self.config.min_lock_value {
            Err(Error::LockAmountIsLessThanMinLockAmount)
        } else if amount > self.config.max_lock_value {
            Err(Error::LockAmountExceedsMaxLockAmount)
        } else {
            Ok(())
        }
    }

    /// The bank after `who` has locked `amount` for membership.
    pub open spec fn after_lock(self, who: u64, amount: u128) -> BankView {
        BankView {
            ledger: self.ledger.set_lock(who, amount),
            events: self.events.push(
                Event::LockedForMembership { user: who, amount, block: self.now },
            ),
            ..self
        }
    }

    /// The bank after `who` has taken the lock for membership off.
    pub open spec fn after_unlock(self, who: u64) -> BankView {
        BankView {
            ledger: self.ledger.remove_lock(who),
            events: self.events.push(Event::UnlockedForMembership { user: who, block: self.now }),
            ..self
        }
    }
}

/// Whether a bank is well formed depends only on its bounds, its
/// parameters, its vault and its balances: a change that keeps the vault, the
/// bounds and the reserved balances, and leaves the ledger well formed and
/// the parameters as they were or sets them to positive values, keeps it so.
pub proof fn lemma_wf_frame(s: BankView, t: BankView)
    requires
        s.wf(),
        t.config == s.config,
        t.vault == s.vault,
        t.ledger.wf(),
        t.ledger.reserved == s.ledger.reserved,
        t.params == s.params || (t.params is Some && t.params->Some_0.positive()),
    ensures
        t.wf(),
{
    assert forall|w: u64| #[trigger] t.covered(w) by {
        assert(s.covered(w));
    }
    assert forall|w: u64, i: u32| #[trigger] t.vault.deposits.contains_key((w, i)) implies
        t.in_bounds(w, i) && t.params is Some by {
        assert(s.in_bounds(w, i));
    }
}

/// Opening a deposit leaves the bank well formed.
pub proof fn lemma_open_keeps_wf(s: BankView, who: u64, amount: u128, maturity_period: u32)
    requires
        s.wf(),
        s.open_result(Origin::Signed(who), amount, maturity_period) is Ok,
    ensures
        s.after_open(who, amount, maturity_period).wf(),
{
    let t = s.after_open(who, amount, maturity_period);
    let new_id = s.vault.next_id(who) as u32;
    s.ledger.lemma_reserve_keeps_wf(who, amount);
    assert forall|w: u64, i: u32| #[trigger]
        t.vault.deposits.contains_key((w, i)) implies t.in_bounds(w, i) by {
        if !(w == who && i == new_id) {
            assert(s.vault.deposits.contains_key((w, i)));
            assert(s.in_bounds(w, i));
        }
    }
    assert forall|w: u64| #[trigger] t.covered(w) by {
        assert(s.covered(w));
        let upto = s.vault.details[w].0 as nat;
        assert forall|i: nat| 1 <= i <= upto implies t.vault.principal_at(w, i)
            == s.vault.principal_at(w, i) by {}
        t.vault.lemma_staked_agrees(s.vault, w, upto);
        if w == who {
            assert(s.ledger.free[who] + s.ledger.reserved[who] <= u128::MAX);
            assert(t.vault.principal_at(who, new_id as nat) == amount);
        }
    }
}

/// Closing a deposit leaves the bank well formed.
pub proof fn lemma_close_keeps_wf(s: BankView, who: u64, id: u32, has_matured: u8)
    requires
        s.wf(),
        s.close_result(Origin::Signed(who), id, has_matured) is Ok,
    ensures
        s.after_close(who, id).wf(),
{
    let t = s.after_close(who, id);
    let treasury = s.treasury->Some_0;
    let d = s.vault.deposits[(who, id)];
    if s.is_mature(who, id) {
        let interest = s.interest_due(who, id)->Ok_0;
        s.ledger.lemma_transfer_keeps_wf(treasury, who, interest);
        s.ledger.transfer(treasury, who, interest).lemma_unreserve_keeps_wf(who, d.principal);
    } else {
        let due = s.penalty_due(who, id) as u128;
        s.ledger.lemma_transfer_keeps_wf(who, treasury, due);
        s.ledger.transfer(who, treasury, due).lemma_unreserve_keeps_wf(who, d.principal);
    }
    assert forall|w: u64, i: u32| #[trigger]
        t.vault.deposits.contains_key((w, i)) implies t.in_bounds(w, i) by {
        assert(s.vault.deposits.contains_key((w, i)));
        assert(s.in_bounds(w, i));
    }
    assert(s.in_bounds(who, id));
    assert(s.covered(who));
    let last = s.vault.details[who].0 as nat;
    s.vault.lemma_staked_covers_deposit(who, id, last);
    s.vault.lemma_staked_after_remove(who, id, last);
    assert forall|w: u64| #[trigger] t.covered(w) by {
        assert(s.covered(w));
        if w != who {
            let upto = s.vault.details[w].0 as nat;
            assert forall|i: nat| 1 <= i <= upto implies t.vault.principal_at(w, i)
                == s.vault.principal_at(w, i) by {}
            t.vault.lemma_staked_agrees(s.vault, w, upto);
        }
    }
}

/// The bank.
pub struct Pallet {
    config: Config,
    block_number: u64,
    params: Option<FdParams>,
    treasury: Option<u64>,
    vault: Vault,
    ledger: Ledger,
    events: Vec<Event>,
}

impl Pallet {
    /// The bank as a mathematical value.
    pub closed spec fn view(&self) -> BankView {
        BankView {
            config: self.config,
            now: self.block_number,
            params: self.params,
            treasury: self.treasury,
            vault: self.vault@,
            ledger: self.ledger@,
            events: self.events@,
        }
    }

    /// Parameters that are set are all positive; every open deposit is in
    /// bounds, and while there is one the parameters are set; the reserved
    /// balance of every depositor covers the open deposits; nobody has an
    /// investment score yet; and the balances of every account fit in 128
    /// bits.
    pub open spec fn wf(&self) -> bool {
        self@.wf()
    }

    /// A bank with the given bounds, at block zero, with no parameters, no
    /// treasury, no deposits and no money.
    pub fn new(config: Config) -> (r: Pallet)
        ensures
            r@ == BankView::initial(config),
            r.wf(),
    {
        Pallet {
            config,
            block_number: 0,
            params: None,
            treasury: None,
            vault: Vault::new(),
            ledger: Ledger::new(),
            events: Vec::new(),
        }
    }

    /// The current block.
    pub fn block_number(&self) -> (r: u64)
        ensures
            r == self@.now,
    {
        self.block_number
    }

    /// Moves the clock to block `number`.
    pub fn set_block_number(&mut self, number: u64)
        requires
            old(self).wf(),
        ensures
            final(self).wf(),
            final(self)@ == (BankView { now: number, ..old(self)@ }),
    {
        self.block_number = number;
        proof {
            lemma_wf_frame(old(self)@, self@);
        }
    }

    /// Adds `amount` to the free balance of `who`, as an endowment from
    /// outside the bank. Fails where the account would then hold more than
    /// fits in 128 bits.
    pub fn endow(&mut self, who: u64, amount: u128) -> (r: Result<(), Error>)
        requires
            old(self).wf(),
        ensures
            final(self).wf(),
            r == if old(self)@.ledger.can_credit(who, amount) {
                Ok::<(), Error>(())
            } else {
                Err::<(), Error>(Error::ArithmeticOverflow)
            },
            r is Ok ==> final(self)@ == (BankView {
                ledger: old(self)@.ledger.credit(who, amount),
                ..old(self)@
            }),
            r is Err ==> final(self)@ == old(self)@,
    {
        let credited = self.ledger.deposit(who, amount);
        proof {
            lemma_wf_frame(old(self)@, self@);
        }
        match credited {
            Ok(()) => Ok(()),
            Err(_) => Err(Error::ArithmeticOverflow),
        }
    }

    /// The free balance of `who`.
    pub fn free_balance(&self, who: u64) -> (r: u128)
        ensures
            r == self@.ledger.free[who],
    {
        self.ledger.free_balance(who)
    }

    /// The reserved balance of `who`.
    pub fn reserved_balance(&self, who: u64) -> (r: u128)
        ensures
            r == self@.ledger.reserved[who],
    {
        self.ledger.reserved_balance(who)
    }

    /// What `who` can spend or reserve: the free balance over the lock.
    pub fn usable_balance(&self, who: u64) -> (r: u128)
        ensures
            r == self@.ledger.available(who),
    {
        self.ledger.usable_balance(who)
    }

    /// Moves `amount` from the free balance of `from` to that of `to`, as the
    /// holder of `from` may at any time. Fails where `from` has less, or not
    /// as much beside the lock, and where `to` would then hold more than fits
    /// in 128 bits.
    pub fn transfer(&mut self, from: u64, to: u64, amount: u128) -> (r: Result<(), LedgerError>)
        requires
            old(self).wf(),
        ensures
            final(self).wf(),
            r == if old(self)@.ledger.free[from] < amount {
                Err::<(), LedgerError>(LedgerError::InsufficientBalance)
            } else if old(self)@.ledger.available(from) < amount {
                Err::<(), LedgerError>(LedgerError::Frozen)
            } else if !old(self)@.ledger.can_transfer(from, to, amount) {
                Err::<(), LedgerError>(LedgerError::Overflow)
            } else {
                Ok::<(), LedgerError>(())
            },
            r is Ok ==> final(self)@ == (BankView {
                ledger: old(self)@.ledger.transfer(from, to, amount),
                ..old(self)@
            }),
            r is Err ==> final(self)@ == old(self)@,
    {
        let moved = self.ledger.transfer(from, to, amount);
        proof {
            lemma_wf_frame(old(self)@, self@);
        }
        moved
    }

    /// The parameters as interest rate, penalty rate, compounding frequency
    /// and epoch length, or `None` while they are not set.
    pub fn fd_params(&self) -> (r: Option<(Permill, Permill, u16, u32)>)
        ensures
            r == match self@.params {
                Some(p) => Some(
                    (p.interest_rate, p.penalty_rate, p.compound_frequency, p.fd_epoch),
                ),
                None => None::<(Permill, Permill, u16, u32)>,
            },
    {
        match self.params {
            Some(p) => Some((p.interest_rate, p.penalty_rate, p.compound_frequency, p.fd_epoch)),
            None => None,
        }
    }

    /// The parameters, or an error while they are not set.
    pub fn get_fd_params(&self) -> (r: Result<(Permill, Permill, u16, u32), Error>)
        ensures
            r == match self@.params {
                Some(p) => Ok::<(Permill, Permill, u16, u32), Error>(
                    (p.interest_rate, p.penalty_rate, p.compound_frequency, p.fd_epoch),
                ),
                None => Err::<(Permill, Permill, u16, u32), Error>(Error::FDParamsNotSet),
            },
    {
        match self.params {
            Some(p) => Ok((p.interest_rate, p.penalty_rate, p.compound_frequency, p.fd_epoch)),
            None => Err(Error::FDParamsNotSet),
        }
    }

    /// The treasury account, or `None` while none is set.
    pub fn treasury(&self) -> (r: Option<u64>)
        ensures
            r == self@.treasury,
    {
        self.treasury
    }

    /// The id of the latest deposit of `user`, zero where there is none, and
    /// the investment score of `user`.
    pub fn fd_user_details(&self, user: u64) -> (r: (u32, u16))
        ensures
            r == self@.vault.details[user],
    {
        self.vault.details(user)
    }

    /// The investment score of `user`. Nothing accrues it yet, so in a
    /// well-formed bank it is zero.
    pub fn get_investment_score(&self, user: u64) -> (r: u16)
        ensures
            r == self@.vault.details[user].1,
            self.wf() ==> r == 0,
    {
        self.fd_user_details(user).1
    }

    /// The id that the next deposit of `user` would get. Nothing is used up.
    pub fn next_fd_id(&self, user: u64) -> (r: Option<u32>)
        ensures
            r == if self@.vault.next_id(user) <= u32::MAX {
                Some(self@.vault.next_id(user) as u32)
            } else {
                None::<u32>
            },
    {
        self.vault.next_id(user)
    }

    /// The deposit `id` of `user` as principal, opening block and maturity
    /// period, or `None` where there is no such deposit.
    pub fn fd_vault(&self, user: u64, id: u32) -> (r: Option<(u128, u64, u32)>)
        ensures
            r == if self@.vault.deposits.contains_key((user, id)) {
                let d = self@.vault.deposits[(user, id)];
                Some((d.principal, d.opened_at, d.maturity_period))
            } else {
                None::<(u128, u64, u32)>
            },
    {
        match self.vault.get(user, id) {
            Some(d) => Some((d.principal, d.opened_at, d.maturity_period)),
            None => None,
        }
    }

    /// The deposit `id` of `user` as principal, opening block and maturity
    /// period, or an error where there is no such deposit.
    pub fn get_fd_vault_details(&self, user: u64, id: u32) -> (r: Result<(u128, u64, u32), Error>)
        ensures
            r == if self@.vault.deposits.contains_key((user, id)) {
                let d = self@.vault.deposits[(user, id)];
                Ok::<(u128, u64, u32), Error>((d.principal, d.opened_at, d.maturity_period))
            } else {
                Err::<(u128, u64, u32), Error>(Error::FDVaultDoesNotExist)
            },
    {
        match self.fd_vault(user, id) {
            Some(d) => Ok(d),
            None => Err(Error::FDVaultDoesNotExist),
        }
    }

    /// The latest record, or `None` where nothing has been done yet.
    pub fn last_event(&self) -> (r: Option<Event>)
        ensures
            r == if self@.events.len() > 0 {
                Some(self@.events.last())
            } else {
                None::<Event>
            },
    {
        let n = self.events.len();
        if n == 0 {
            None
        } else {
            Some(self.events[n - 1])
        }
    }

    /// The number of records.
    pub fn event_count(&self) -> (r: usize)
        ensures
            r == self@.events.len(),
    {
        self.events.len()
    }

    /// Sets the four parameters. Only the administrator may, and none of them
    /// may be zero.
    pub fn set_fd_params(
        &mut self,
        origin: Origin,
        interest_rate: Permill,
        penalty_rate: Permill,
        compound_frequency: u16,
        fd_epoch: u32,
    ) -> (r: Result<(), Error>)
        requires
            old(self).wf(),
        ensures
            final(self).wf(),
            r == BankView::set_fd_params_result(
                origin,
                interest_rate,
                penalty_rate,
                compound_frequency,
                fd_epoch,
            ),
            r is Ok ==> final(self)@ == old(self)@.after_set_fd_params(
                FdParams { interest_rate, penalty_rate, compound_frequency, fd_epoch },
            ),
            r is Err ==> final(self)@ == old(self)@,
    {
        match origin {
            Origin::Root => {},
            _ => {
                return Err(Error::BadOrigin);
            },
        }
        if interest_rate.is_zero() {
            return Err(Error::ZeroFDInterestRate);
        }
        if penalty_rate.is_zero() {
            return Err(Error::ZeroFDPenalty);
        }
        if compound_frequency == 0 {
            return Err(Error::ZeroFDCompoundFrequency);
        }
        if fd_epoch == 0 {
            return Err(Error::ZeroFDEpoch);
        }
        self.params = Some(FdParams { interest_rate, penalty_rate, compound_frequency, fd_epoch });
        self.events.push(Event::FDParamsSet { interest_rate, penalty_rate, fd_epoch });
        proof {
            lemma_wf_frame(old(self)@, self@);
        }
        Ok(())
    }

    /// Binds the treasury to `treasury`. Only the administrator may.
    pub fn set_treasury(&mut self, origin: Origin, treasury: u64) -> (r: Result<(), Error>)
        requires
            old(self).wf(),
        ensures
            final(self).wf(),
            r == if origin == Origin::Root {
                Ok::<(), Error>(())
            } else {
                Err::<(), Error>(Error::BadOrigin)
            },
            r is Ok ==> final(self)@ == old(self)@.after_set_treasury(treasury),
            r is Err ==> final(self)@ == old(self)@,
    {
        match origin {
            Origin::Root => {},
            _ => {
                return Err(Error::BadOrigin);
            },
        }
        self.treasury = Some(treasury);
        self.events.push(Event::TreasurySet { account: treasury, block_num: self.block_number });
        proof {
            lemma_wf_frame(old(self)@, self@);
        }
        Ok(())
    }

    /// Unbinds the treasury. Only the administrator may, and only while a
    /// treasury is set.
    pub fn reset_treasury(&mut self, origin: Origin) -> (r: Result<(), Error>)
        requires
            old(self).wf(),
        ensures
            final(self).wf(),
            r == old(self)@.reset_treasury_result(origin),
            r is Ok ==> final(self)@ == old(self)@.after_reset_treasury(),
            r is Err ==> final(self)@ == old(self)@,
    {
        match origin {
            Origin::Root => {},
            _ => {
                return Err(Error::BadOrigin);
            },
        }
        if self.treasury.is_none() {
            return Err(Error::TreasuryNotSet);
        }
        self.treasury = None;
        self.events.push(Event::TreasuryReset { block_num: self.block_number });
        proof {
            lemma_wf_frame(old(self)@, self@);
        }
        Ok(())
    }

    /// Opens a deposit of `amount` for the signer, to mature after
    /// `maturity_period` blocks, and returns its id. The amount is reserved
    /// from the signer's free balance.
    pub fn open_fd(&mut self, origin: Origin, amount: u128, maturity_period: u32) -> (r: Result<
        u32,
        Error,
    >)
        requires
            old(self).wf(),
        ensures
            final(self).wf(),
            r == old(self)@.open_result(origin, amount, maturity_period),
            r is Ok ==> final(self)@ == old(self)@.after_open(
                signer(origin)->Some_0,
                amount,
                maturity_period,
            ),
            r is Err ==> final(self)@ == old(self)@,
    {
        let user = match origin {
            Origin::Signed(who) => who,
            _ => {
                return Err(Error::BadOrigin);
            },
        };
        if amount == 0 {
            return Err(Error::ZeroAmountWhenOpeningFD);
        }
        if amount < self.config.min_fd_amount || amount > self.config.max_fd_amount {
            return Err(Error::FDAmountOutOfRangeWhenOpening);
        }
        if self.treasury.is_none() {
            return Err(Error::TreasuryNotSet);
        }
        let params = match self.params {
            Some(p) => p,
            None => {
                return Err(Error::FDParamsNotSet);
            },
        };
        if maturity_period < params.fd_epoch || maturity_period
            > self.config.max_fd_maturity_period {
            return Err(Error::FDMaturityPeriodOutOfRangeWhenOpening);
        }
        let next_fd_id: u32 = match self.vault.next_id(user) {
            Some(id) => id,
            None => {
                return Err(Error::ArithmeticOverflow);
            },
        };
        if self.vault.get(user, next_fd_id).is_some() {
            return Err(Error::FDAlreadyExistsWithIdWhenOpeningFD);
        }
        if self.ledger.reserve(user, amount).is_err() {
            return Err(Error::InsufficientFreeBalanceWhenOpeningFD);
        }
        let deposit = Deposit { principal: amount, opened_at: self.block_number, maturity_period };
        let stored = self.vault.insert(user, next_fd_id, deposit);
        assert(stored is Ok);
        self.vault.advance(user, next_fd_id);
        self.events.push(Event::FDOpened { user, amount, block: self.block_number });
        proof {
            lemma_open_keeps_wf(old(self)@, user, amount, maturity_period);
        }
        Ok(next_fd_id)
    }

    /// Closes the signer's deposit `id`. `has_matured` is 1 to claim the
    /// interest of a mature deposit and 0 to withdraw early against the
    /// penalty; the claim must agree with the time that has passed.
    pub fn close_fd(&mut self, origin: Origin, id: u32, has_matured: u8) -> (r: Result<(), Error>)
        requires
            old(self).wf(),
        ensures
            final(self).wf(),
            r == old(self)@.close_result(origin, id, has_matured),
            r is Ok ==> final(self)@ == old(self)@.after_close(signer(origin)->Some_0, id),
            r is Err ==> final(self)@ == old(self)@,
    {
        let user = match origin {
            Origin::Signed(who) => who,
            _ => {
                return Err(Error::BadOrigin);
            },
        };
        if id == 0 {
            return Err(Error::ZeroIdWhenClosingFD);
        }
        if has_matured > 1 {
            return Err(Error::InvalidMaturityStatus);
        }
        let deposit: Deposit = match self.vault.get(user, id) {
            Some(d) => d,
            None => {
                return Err(Error::FDNotExistsWithIdWhenClosingFD);
            },
        };
        let treasury = match self.treasury {
            Some(t) => t,
            None => {
                return Err(Error::TreasuryNotSet);
            },
        };
        let params = match self.params {
            Some(p) => p,
            None => {
                return Err(Error::FDInterestNotSet);
            },
        };
        let staked_duration: u64 = match self.block_number.checked_sub(deposit.opened_at) {
            Some(d) => d,
            None => {
                return Err(Error::ArithmeticUnderflow);
            },
        };
        let matured = staked_duration >= deposit.maturity_period as u64;
        let event = if matured && has_matured == 1 {
            let total_interest = match Pallet::get_compound_interest(
                deposit.principal,
                params.interest_rate,
                params.compound_frequency,
                params.fd_epoch,
                deposit.maturity_period,
            ) {
                Ok(v) => v,
                Err(e) => {
                    return Err(e);
                },
            };
            if self.ledger.usable_balance(treasury) <= total_interest {
                return Err(Error::InsufficientFreeBalanceForInterest);
            }
            if self.ledger.transfer(treasury, user, total_interest).is_err() {
                return Err(Error::ArithmeticOverflow);
            }
            Event::FDClosed {
                maturity: true,
                user,
                principal: deposit.principal,
                interest: total_interest,
                penalty: 0,
                block: self.block_number,
            }
        } else if !matured && has_matured == 0 {
            let penalty = Pallet::get_penalty(deposit.principal, params.penalty_rate);
            if self.ledger.usable_balance(user) <= penalty {
                return Err(Error::InsufficientFreeBalanceForPenalty);
            }
            if self.ledger.transfer(user, treasury, penalty).is_err() {
                return Err(Error::ArithmeticOverflow);
            }
            Event::FDClosed {
                maturity: false,
                user,
                principal: deposit.principal,
                interest: 0,
                penalty,
                block: self.block_number,
            }
        } else {
            return Err(Error::InvalidCloseFDCombination);
        };
        self.vault.remove(user, id);
        self.ledger.unreserve(user, deposit.principal);
        self.events.push(event);
        proof {
            lemma_close_keeps_wf(old(self)@, user, id, has_matured);
        }
        Ok(())
    }

    /// Locks `amount` of the signer's free balance for membership, in place
    /// of any amount locked before. The amount must be within the bounds for
    /// locks; it may exceed what the signer holds.
    pub fn lock_for_membership(&mut self, origin: Origin, amount: u128) -> (r: Result<(), Error>)
        requires
            old(self).wf(),
        ensures
            final(self).wf(),
            r == old(self)@.lock_result(origin, amount),
            r is Ok ==> final(self)@ == old(self)@.after_lock(signer(origin)->Some_0, amount),
            r is Err ==> final(self)@ == old(self)@,
    {
        let user = match origin {
            Origin::Signed(who) => who,
            _ => {
                return Err(Error::BadOrigin);
            },
        };
        if amount < self.config.min_lock_value {
            return Err(Error::LockAmountIsLessThanMinLockAmount);
        }
        if amount > self.config.max_lock_value {
            return Err(Error::LockAmountExceedsMaxLockAmount);
        }
        self.ledger.set_lock(user, amount);
        self.events.push(Event::LockedForMembership { user, amount, block: self.block_number });
        proof {
            lemma_wf_frame(old(self)@, self@);
        }
        Ok(())
    }

    /// Takes the lock for membership off the signer's balance.
    pub fn unlock_for_membership(&mut self, origin: Origin) -> (r: Result<(), Error>)
        requires
            old(self).wf(),
        ensures
            final(self).wf(),
            r == if signer(origin) is Some {
                Ok::<(), Error>(())
            } else {
                Err::<(), Error>(Error::BadOrigin)
            },
            r is Ok ==> final(self)@ == old(self)@.after_unlock(signer(origin)->Some_0),
            r is Err ==> final(self)@ == old(self)@,
    {
        let user = match origin {
            Origin::Signed(who) => who,
            _ => {
                return Err(Error::BadOrigin);
            },
        };
        self.ledger.remove_lock(user);
        self.events.push(Event::UnlockedForMembership { user, block: self.block_number });
        proof {
            lemma_wf_frame(old(self)@, self@);
        }
        Ok(())
    }

    /// A balance as a 32-bit number, where it fits.
    pub fn balance_to_u32(input: u128) -> (r: Option<u32>)
        ensures
            r == if input <= u32::MAX {
                Some(input as u32)
            } else {
                None::<u32>
            },
    {
        if input <= u32::MAX as u128 {
            Some(input as u32)
        } else {
            None
        }
    }

    /// A balance as a 128-bit number.
    pub fn balance_to_u128(input: u128) -> (r: Option<u128>)
        ensures
            r == Some(input),
    {
        Some(input)
    }

    /// A 32-bit number as a balance.
    pub fn u32_to_balance(input: u32) -> (r: Option<u128>)
        ensures
            r == Some(input as u128),
    {
        Some(input as u128)
    }

    /// A 128-bit number as a balance.
    pub fn u128_to_balance(input: u128) -> (r: Option<u128>)
        ensures
            r == Some(input),
    {
        Some(input)
    }
}

} // verus!
