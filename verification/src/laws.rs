//! What holds of the bank whatever its state: laws that relate its
//! operations, stated over the same functions as their contracts.

use crate::error::Error;
use crate::interest::penalty;
use crate::ledger::LedgerView;
use crate::pallet::{lemma_open_keeps_wf, BankView, Origin};
use crate::vault::Deposit;
use vstd::prelude::*;

verus! {

/// The penalty for an early withdrawal is never zero.
pub proof fn lemma_penalty_is_positive(principal: nat, rate: nat)
    ensures
        penalty(principal, rate) >= 1,
{
}

/// A deposit that was just opened is stored under the id that was returned,
/// with the amount, the block and the maturity period it was opened with, and
/// the id is the depositor's latest.
pub proof fn lemma_open_stores_deposit(s: BankView, who: u64, amount: u128, maturity_period: u32)
    requires
        s.open_result(Origin::Signed(who), amount, maturity_period) is Ok,
    ensures
        ({
            let id = s.open_result(Origin::Signed(who), amount, maturity_period)->Ok_0;
            let t = s.after_open(who, amount, maturity_period);
            &&& id >= 1
            &&& t.vault.deposits.contains_key((who, id))
            &&& t.vault.deposits[(who, id)] == Deposit {
                principal: amount,
                opened_at: s.now,
                maturity_period,
            }
            &&& t.vault.details[who].0 == id
        }),
{
}

/// Opening a deposit leaves every other deposit as it was.
pub proof fn lemma_open_keeps_other_deposits(
    s: BankView,
    who: u64,
    amount: u128,
    maturity_period: u32,
    other: u64,
    other_id: u32,
)
    requires
        s.open_result(Origin::Signed(who), amount, maturity_period) is Ok,
        s.vault.deposits.contains_key((other, other_id)),
    ensures
        ({
            let t = s.after_open(who, amount, maturity_period);
            &&& t.vault.deposits.contains_key((other, other_id))
            &&& t.vault.deposits[(other, other_id)] == s.vault.deposits[(other, other_id)]
        }),
{
}

/// In a well-formed bank the id that the next deposit gets is free: opening
/// never fails because a deposit is in the way.
pub proof fn lemma_next_id_is_free(
    s: BankView,
    origin: Origin,
    amount: u128,
    maturity_period: u32,
)
    requires
        s.wf(),
    ensures
        s.open_result(origin, amount, maturity_period) != Err::<u32, Error>(
            Error::FDAlreadyExistsWithIdWhenOpeningFD,
        ),
{
    match origin {
        Origin::Signed(who) => {
            if s.vault.next_id(who) <= u32::MAX {
                let id = s.vault.next_id(who) as u32;
                if s.vault.deposits.contains_key((who, id)) {
                    assert(s.in_bounds(who, id));
                }
            }
        },
        _ => {},
    }
}

/// In a well-formed bank the parameters are set for as long as a deposit is
/// open: closing never fails for want of them.
pub proof fn lemma_params_outlive_deposits(s: BankView, origin: Origin, id: u32, has_matured: u8)
    requires
        s.wf(),
    ensures
        s.close_result(origin, id, has_matured) != Err::<(), Error>(Error::FDInterestNotSet),
{
}

/// A deposit that was closed is gone: it cannot be closed again, whatever is
/// claimed of its maturity.
pub proof fn lemma_close_removes_deposit(
    s: BankView,
    who: u64,
    id: u32,
    has_matured: u8,
    again: u8,
)
    requires
        s.close_result(Origin::Signed(who), id, has_matured) is Ok,
        again <= 1,
    ensures
        !s.after_close(who, id).vault.deposits.contains_key((who, id)),
        s.after_close(who, id).close_result(Origin::Signed(who), id, again) == Err::<(), Error>(
            Error::FDNotExistsWithIdWhenClosingFD,
        ),
{
}

/// Closing a deposit succeeds only where the claim agrees with the time that
/// has passed. For an open deposit, with treasury and parameters set: a
/// claim of maturity is settled with interest exactly if the maturity
/// period has passed, a claim of none is settled with the penalty exactly if
/// it has not, and each of the two other combinations is refused as invalid.
pub proof fn lemma_close_checks_claim(s: BankView, who: u64, id: u32)
    requires
        id > 0,
        s.vault.deposits.contains_key((who, id)),
        s.treasury is Some,
        s.params is Some,
        s.elapsed(who, id) >= 0,
    ensures
        s.is_mature(who, id) ==> {
            &&& s.close_result(Origin::Signed(who), id, 1) == s.mature_close_result(who, id)
            &&& s.close_result(Origin::Signed(who), id, 0) == Err::<(), Error>(
                Error::InvalidCloseFDCombination,
            )
        },
        !s.is_mature(who, id) ==> {
            &&& s.close_result(Origin::Signed(who), id, 0) == s.early_close_result(who, id)
            &&& s.close_result(Origin::Signed(who), id, 1) == Err::<(), Error>(
                Error::InvalidCloseFDCombination,
            )
        },
        s.close_result(Origin::Signed(who), id, 1) is Ok ==> s.is_mature(who, id),
        s.close_result(Origin::Signed(who), id, 0) is Ok ==> !s.is_mature(who, id),
        s.mature_close_result(who, id) != Err::<(), Error>(Error::InvalidCloseFDCombination),
        s.early_close_result(who, id) != Err::<(), Error>(Error::InvalidCloseFDCombination),
{
}

/// Whoever claims maturity before the maturity period has passed is refused,
/// whatever else holds of the deposit.
pub proof fn lemma_early_claim_of_maturity_fails(s: BankView, who: u64, id: u32)
    requires
        s.vault.deposits.contains_key((who, id)),
        s.elapsed(who, id) < s.vault.deposits[(who, id)].maturity_period,
    ensures
        s.close_result(Origin::Signed(who), id, 1) is Err,
        id > 0 && s.treasury is Some && s.params is Some && s.elapsed(who, id) >= 0
            ==> s.close_result(Origin::Signed(who), id, 1) == Err::<(), Error>(
            Error::InvalidCloseFDCombination,
        ),
{
}

/// A deposit that was just opened is not mature: to close it at once is an
/// early withdrawal.
pub proof fn lemma_new_deposit_is_not_mature(
    s: BankView,
    who: u64,
    amount: u128,
    maturity_period: u32,
)
    requires
        s.wf(),
        s.open_result(Origin::Signed(who), amount, maturity_period) is Ok,
    ensures
        ({
            let id = s.open_result(Origin::Signed(who), amount, maturity_period)->Ok_0;
            let t = s.after_open(who, amount, maturity_period);
            &&& t.wf()
            &&& !t.is_mature(who, id)
            &&& t.close_result(Origin::Signed(who), id, 0) == t.early_close_result(who, id)
            &&& t.close_result(Origin::Signed(who), id, 1) == Err::<(), Error>(
                Error::InvalidCloseFDCombination,
            )
        }),
{
    lemma_open_keeps_wf(s, who, amount, maturity_period);
}

/// Opening a deposit and closing it at once costs the depositor the penalty
/// and nothing else: the free balance and what is available of it end up
/// lower by the penalty, the reserved balance is what it was, and the
/// treasury has the penalty. The depositor is not the treasury itself.
pub proof fn lemma_open_then_early_close(
    s: BankView,
    who: u64,
    amount: u128,
    maturity_period: u32,
)
    requires
        s.wf(),
        s.open_result(Origin::Signed(who), amount, maturity_period) is Ok,
        s.treasury != Some(who),
        s.after_open(who, amount, maturity_period).close_result(
            Origin::Signed(who),
            s.open_result(Origin::Signed(who), amount, maturity_period)->Ok_0,
            0,
        ) is Ok,
    ensures
        ({
            let id = s.open_result(Origin::Signed(who), amount, maturity_period)->Ok_0;
            let t = s.after_open(who, amount, maturity_period);
            let u = t.after_close(who, id);
            let due = penalty(amount as nat, s.params->Some_0.penalty_rate.parts());
            let treasury = s.treasury->Some_0;
            &&& due >= 1
            &&& u.ledger.free[who] == s.ledger.free[who] - due
            &&& u.ledger.reserved[who] == s.ledger.reserved[who]
            &&& u.ledger.free[treasury] == s.ledger.free[treasury] + due
            &&& u.ledger.reserved[treasury] == s.ledger.reserved[treasury]
            &&& u.ledger.locked == s.ledger.locked
            &&& u.ledger.available(who) == s.ledger.available(who) - due
            &&& u.vault.deposits == s.vault.deposits
        }),
{
    lemma_new_deposit_is_not_mature(s, who, amount, maturity_period);
    let id = s.open_result(Origin::Signed(who), amount, maturity_period)->Ok_0;
    let t = s.after_open(who, amount, maturity_period);
    let u = t.after_close(who, id);
    assert(s.ledger.free[who] + s.ledger.reserved[who] <= u128::MAX);
    assert(u.vault.deposits =~= s.vault.deposits);
}

/// Closing a deposit releases its whole principal: in a well-formed bank the
/// reserved balance covers every open deposit, so it goes down by exactly
/// the principal.
pub proof fn lemma_close_releases_principal(s: BankView, who: u64, id: u32, has_matured: u8)
    requires
        s.wf(),
        s.close_result(Origin::Signed(who), id, has_matured) is Ok,
    ensures
        s.ledger.reserved[who] >= s.vault.deposits[(who, id)].principal,
        s.after_close(who, id).ledger.reserved[who] == s.ledger.reserved[who]
            - s.vault.deposits[(who, id)].principal,
{
    assert(s.in_bounds(who, id));
    assert(s.covered(who));
    s.vault.lemma_staked_covers_deposit(who, id, s.vault.details[who].0 as nat);
}

/// What an account holds in all: its free and its reserved balance.
pub open spec fn holdings(ledger: LedgerView, who: u64) -> int {
    ledger.free[who] + ledger.reserved[who]
}

/// Opening a deposit makes and loses no money: every account holds in all
/// what it held before, and no lock changes.
pub proof fn lemma_open_conserves_money(
    s: BankView,
    who: u64,
    amount: u128,
    maturity_period: u32,
    any: u64,
)
    requires
        s.wf(),
        s.open_result(Origin::Signed(who), amount, maturity_period) is Ok,
    ensures
        ({
            let t = s.after_open(who, amount, maturity_period);
            &&& holdings(t.ledger, any) == holdings(s.ledger, any)
            &&& t.ledger.locked == s.ledger.locked
        }),
{
    assert(s.ledger.free[who] + s.ledger.reserved[who] <= u128::MAX);
}

/// Closing a deposit makes and loses no money: what the depositor gains the
/// treasury pays, what the depositor pays the treasury gains, and every
/// other account holds what it held before.
pub proof fn lemma_close_conserves_money(
    s: BankView,
    who: u64,
    id: u32,
    has_matured: u8,
    any: u64,
)
    requires
        s.wf(),
        s.close_result(Origin::Signed(who), id, has_matured) is Ok,
    ensures
        ({
            let t = s.after_close(who, id);
            let treasury = s.treasury->Some_0;
            &&& any != who && any != treasury ==> holdings(t.ledger, any) == holdings(
                s.ledger,
                any,
            )
            &&& who == treasury ==> holdings(t.ledger, who) == holdings(s.ledger, who)
            &&& who != treasury ==> holdings(t.ledger, who) + holdings(t.ledger, treasury)
                == holdings(s.ledger, who) + holdings(s.ledger, treasury)
            &&& t.ledger.locked == s.ledger.locked
        }),
{
    let treasury = s.treasury->Some_0;
    assert(s.ledger.free[who] + s.ledger.reserved[who] <= u128::MAX);
    assert(s.ledger.free[treasury] + s.ledger.reserved[treasury] <= u128::MAX);
}

} // verus!
