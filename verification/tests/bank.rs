use bank::error::Error;
use bank::fixed::Permill;
use bank::ledger::LedgerError;
use bank::pallet::{Config, Event, Origin, Pallet};

const ALICE: u64 = 1;
const BOB: u64 = 2;
const CHARLIE: u64 = 3;
const DAVE: u64 = 4;
const TREASURY: u64 = 100;

const THREE_QUARTER_YEAR: u32 = 3_888_000;
const ONE_YEAR: u32 = 5_184_000;

const UNIT: u128 = 10_000_000_000;
const PRINCIPAL_AMOUNT: u128 = UNIT * 5000;
const COMPOUND_FREQUENCY: u16 = 1;
const FD_EPOCH: u32 = ONE_YEAR;
const MATURITY_PERIOD: u32 = 3 * ONE_YEAR;

const MIN_FD_AMOUNT: u128 = 50 * UNIT;
const MAX_FD_AMOUNT: u128 = 200_000 * UNIT;
const MIN_LOCK_VALUE: u128 = 20 * UNIT;
const MAX_LOCK_VALUE: u128 = 100_000 * UNIT;
const MAX_FD_MATURITY_PERIOD: u32 = 5 * ONE_YEAR;

fn interest_rate() -> Permill {
    Permill::from_percent(2)
}

fn penalty_rate() -> Permill {
    Permill::from_parts(5_000)
}

fn new_test_ext() -> Pallet {
    let mut bank = Pallet::new(Config {
        min_fd_amount: MIN_FD_AMOUNT,
        max_fd_amount: MAX_FD_AMOUNT,
        min_lock_value: MIN_LOCK_VALUE,
        max_lock_value: MAX_LOCK_VALUE,
        max_fd_maturity_period: MAX_FD_MATURITY_PERIOD,
    });
    assert_eq!(bank.endow(ALICE, 10_000 * UNIT), Ok(()));
    assert_eq!(bank.endow(BOB, 20_000 * UNIT), Ok(()));
    assert_eq!(bank.endow(CHARLIE, 30_000 * UNIT), Ok(()));
    assert_eq!(bank.endow(DAVE, 40_000 * UNIT), Ok(()));
    assert_eq!(bank.endow(TREASURY, 1_000_000 * UNIT), Ok(()));
    bank.set_block_number(1);
    bank
}

fn set_default_params(bank: &mut Pallet) {
    assert_eq!(
        bank.set_fd_params(
            Origin::Root,
            interest_rate(),
            penalty_rate(),
            COMPOUND_FREQUENCY,
            FD_EPOCH,
        ),
        Ok(())
    );
}

/// What must stay as it is when an operation is refused.
fn snapshot(bank: &Pallet) -> (usize, Vec<(u128, u128, (u32, u16))>, Option<u64>, bool) {
    let accounts = [ALICE, BOB, CHARLIE, DAVE, TREASURY]
        .iter()
        .map(|a| (bank.free_balance(*a), bank.reserved_balance(*a), bank.fd_user_details(*a)))
        .collect();
    (bank.event_count(), accounts, bank.treasury(), bank.fd_params().is_some())
}

#[test]
fn get_default_fd_params() {
    let bank = new_test_ext();
    assert_eq!(bank.fd_params(), None);
}

#[test]
fn get_default_treasury() {
    let bank = new_test_ext();
    assert_eq!(bank.treasury(), None);
}

#[test]
fn get_default_fd_user_id() {
    let bank = new_test_ext();
    assert_eq!(bank.fd_user_details(ALICE), (0, 0));
    assert_eq!(bank.fd_user_details(BOB), (0, 0));
    assert_eq!(bank.fd_user_details(CHARLIE), (0, 0));
}

#[test]
fn only_root_can_set_fd_params() {
    let mut bank = new_test_ext();
    assert_eq!(
        bank.set_fd_params(
            Origin::Root,
            interest_rate(),
            penalty_rate(),
            COMPOUND_FREQUENCY,
            FD_EPOCH,
        ),
        Ok(())
    );
    assert_eq!(
        bank.last_event(),
        Some(Event::FDParamsSet {
            interest_rate: interest_rate(),
            penalty_rate: penalty_rate(),
            fd_epoch: FD_EPOCH,
        })
    );
}

#[test]
fn others_cant_set_fd_params() {
    let mut bank = new_test_ext();
    let before = snapshot(&bank);
    assert_eq!(
        bank.set_fd_params(
            Origin::Signed(ALICE),
            interest_rate(),
            penalty_rate(),
            COMPOUND_FREQUENCY,
            FD_EPOCH,
        ),
        Err(Error::BadOrigin)
    );
    assert_eq!(snapshot(&bank), before);
}

#[test]
fn only_root_can_set_treasury() {
    let mut bank = new_test_ext();
    assert_eq!(bank.set_treasury(Origin::Root, TREASURY), Ok(()));
    assert_eq!(
        bank.last_event(),
        Some(Event::TreasurySet { account: TREASURY, block_num: bank.block_number() })
    );
}

#[test]
fn others_cant_set_treasury() {
    let mut bank = new_test_ext();
    let before = snapshot(&bank);
    assert_eq!(bank.set_treasury(Origin::Signed(ALICE), TREASURY), Err(Error::BadOrigin));
    assert_eq!(snapshot(&bank), before);
}

#[test]
fn open_fd_fail_for_zero_amount() {
    let mut bank = new_test_ext();
    let before = snapshot(&bank);
    assert_eq!(
        bank.open_fd(Origin::Signed(ALICE), 0, MATURITY_PERIOD),
        Err(Error::ZeroAmountWhenOpeningFD)
    );
    assert_eq!(snapshot(&bank), before);
}

#[test]
fn open_fd_fail_when_amount_less_than_min_fd_amt() {
    let mut bank = new_test_ext();
    let before = snapshot(&bank);
    assert_eq!(
        bank.open_fd(Origin::Signed(ALICE), MIN_FD_AMOUNT - 1, MATURITY_PERIOD),
        Err(Error::FDAmountOutOfRangeWhenOpening)
    );
    assert_eq!(snapshot(&bank), before);
}

#[test]
fn open_fd_fail_when_amount_more_than_max_fd_amt() {
    let mut bank = new_test_ext();
    let before = snapshot(&bank);
    assert_eq!(
        bank.open_fd(Origin::Signed(ALICE), MAX_FD_AMOUNT + 1, MATURITY_PERIOD),
        Err(Error::FDAmountOutOfRangeWhenOpening)
    );
    assert_eq!(snapshot(&bank), before);
}

#[test]
fn open_fd_fail_when_treasury_not_set() {
    let mut bank = new_test_ext();
    assert_eq!(bank.treasury(), None);
    let before = snapshot(&bank);
    assert_eq!(
        bank.open_fd(Origin::Signed(ALICE), PRINCIPAL_AMOUNT, MATURITY_PERIOD),
        Err(Error::TreasuryNotSet)
    );
    assert_eq!(snapshot(&bank), before);
}

#[test]
fn open_fd_fail_when_interest_not_set() {
    let mut bank = new_test_ext();
    assert_eq!(bank.set_treasury(Origin::Root, TREASURY), Ok(()));
    assert_eq!(bank.fd_params(), None);
    let before = snapshot(&bank);
    assert_eq!(
        bank.open_fd(Origin::Signed(ALICE), PRINCIPAL_AMOUNT, MATURITY_PERIOD),
        Err(Error::FDParamsNotSet)
    );
    assert_eq!(snapshot(&bank), before);
}

#[test]
fn open_fd_fail_when_zero_maturity_period() {
    let mut bank = new_test_ext();
    set_default_params(&mut bank);
    assert_eq!(bank.fd_params().is_some(), true);

    assert_eq!(bank.set_treasury(Origin::Root, TREASURY), Ok(()));
    assert_eq!(bank.treasury().is_some(), true);
    let before = snapshot(&bank);
    assert_eq!(
        bank.open_fd(Origin::Signed(ALICE), PRINCIPAL_AMOUNT, 0),
        Err(Error::FDMaturityPeriodOutOfRangeWhenOpening)
    );
    assert_eq!(snapshot(&bank), before);
}

#[test]
fn open_fd_fail_when_maturity_period_less_than_fd_epoch() {
    let mut bank = new_test_ext();
    set_default_params(&mut bank);
    assert_eq!(bank.fd_params().is_some(), true);

    assert_eq!(bank.set_treasury(Origin::Root, TREASURY), Ok(()));
    assert_eq!(bank.treasury().is_some(), true);
    let before = snapshot(&bank);
    assert_eq!(
        bank.open_fd(Origin::Signed(ALICE), PRINCIPAL_AMOUNT, FD_EPOCH - 1),
        Err(Error::FDMaturityPeriodOutOfRangeWhenOpening)
    );
    assert_eq!(snapshot(&bank), before);
}

#[test]
fn open_fd_fail_when_maturity_period_more_than_max_maturity_period() {
    let mut bank = new_test_ext();
    set_default_params(&mut bank);
    assert_eq!(bank.fd_params().is_some(), true);

    assert_eq!(bank.set_treasury(Origin::Root, TREASURY), Ok(()));
    assert_eq!(bank.treasury().is_some(), true);
    let before = snapshot(&bank);
    assert_eq!(
        bank.open_fd(Origin::Signed(ALICE), PRINCIPAL_AMOUNT, MAX_FD_MATURITY_PERIOD + 1),
        Err(Error::FDMaturityPeriodOutOfRangeWhenOpening)
    );
    assert_eq!(snapshot(&bank), before);
}

#[test]
fn open_fd() {
    let mut bank = new_test_ext();
    set_default_params(&mut bank);
    assert_eq!(bank.set_treasury(Origin::Root, TREASURY), Ok(()));

    let pre_balance = bank.free_balance(ALICE);
    let fd_id_pre = bank.fd_user_details(ALICE).0;

    assert_eq!(bank.open_fd(Origin::Signed(ALICE), PRINCIPAL_AMOUNT, MATURITY_PERIOD), Ok(1));
    assert_eq!(
        bank.last_event(),
        Some(Event::FDOpened {
            user: ALICE,
            amount: PRINCIPAL_AMOUNT,
            block: bank.block_number(),
        })
    );

    let post_balance = bank.free_balance(ALICE);
    assert_eq!(pre_balance - post_balance, PRINCIPAL_AMOUNT);
    assert_eq!(bank.reserved_balance(ALICE), PRINCIPAL_AMOUNT);

    let fd_id_post = bank.fd_user_details(ALICE).0;
    assert_eq!(fd_id_post - fd_id_pre, 1);
}

#[test]
fn close_fd_fails_for_zero_id() {
    let mut bank = new_test_ext();
    let before = snapshot(&bank);
    assert_eq!(bank.close_fd(Origin::Signed(ALICE), 0, 1), Err(Error::ZeroIdWhenClosingFD));
    assert_eq!(snapshot(&bank), before);
}

#[test]
fn close_fd_fails_when_fd_not_opened() {
    let mut bank = new_test_ext();
    let before = snapshot(&bank);
    assert_eq!(
        bank.close_fd(Origin::Signed(ALICE), 1, 1),
        Err(Error::FDNotExistsWithIdWhenClosingFD)
    );
    assert_eq!(snapshot(&bank), before);
}

#[test]
fn close_fd_fails_when_treasury_not_set() {
    let mut bank = new_test_ext();
    set_default_params(&mut bank);
    assert_eq!(bank.set_treasury(Origin::Root, TREASURY), Ok(()));
    assert_eq!(bank.open_fd(Origin::Signed(ALICE), PRINCIPAL_AMOUNT, MATURITY_PERIOD), Ok(1));

    assert_eq!(bank.reset_treasury(Origin::Root), Ok(()));
    assert_eq!(bank.treasury(), None);

    let before = snapshot(&bank);
    assert_eq!(bank.close_fd(Origin::Signed(ALICE), 1, 1), Err(Error::TreasuryNotSet));
    assert_eq!(snapshot(&bank), before);
}

#[test]
fn close_fd_fails_for_invalid_user() {
    let mut bank = new_test_ext();
    set_default_params(&mut bank);
    assert_eq!(bank.set_treasury(Origin::Root, TREASURY), Ok(()));
    assert_eq!(bank.open_fd(Origin::Signed(ALICE), PRINCIPAL_AMOUNT, MATURITY_PERIOD), Ok(1));

    let before = snapshot(&bank);
    assert_eq!(
        bank.close_fd(Origin::Signed(BOB), 1, 1),
        Err(Error::FDNotExistsWithIdWhenClosingFD)
    );
    assert_eq!(snapshot(&bank), before);
}

#[test]
fn close_fd_wo_maturity() {
    let mut bank = new_test_ext();
    set_default_params(&mut bank);
    assert_eq!(bank.set_treasury(Origin::Root, TREASURY), Ok(()));
    assert_eq!(bank.open_fd(Origin::Signed(ALICE), PRINCIPAL_AMOUNT, MATURITY_PERIOD), Ok(1));

    bank.set_block_number(THREE_QUARTER_YEAR as u64);

    let pre_balance = bank.free_balance(ALICE);
    let treasury_balance_pre = bank.free_balance(TREASURY);
    let principal_amt: u128 = PRINCIPAL_AMOUNT;

    let (_, penalty_rate, _, _) = bank.get_fd_params().unwrap();
    let mut penalty_amt =
        sp_arithmetic::Permill::from_parts(penalty_rate.deconstruct()) * principal_amt;
    if penalty_amt == 0 {
        penalty_amt = 1;
    }
    assert_eq!(penalty_amt, 25 * UNIT);

    assert_eq!(bank.close_fd(Origin::Signed(ALICE), 1, 0), Ok(()));
    assert_eq!(
        bank.last_event(),
        Some(Event::FDClosed {
            maturity: false,
            user: ALICE,
            principal: principal_amt,
            interest: 0,
            penalty: penalty_amt,
            block: bank.block_number(),
        })
    );

    let post_balance = bank.free_balance(ALICE);
    assert_eq!(post_balance - pre_balance, principal_amt.checked_sub(penalty_amt).unwrap());

    let treasury_balance_post = bank.free_balance(TREASURY);
    assert_eq!(treasury_balance_post - treasury_balance_pre, penalty_amt);
}

#[test]
fn close_fd_w_maturity() {
    let mut bank = new_test_ext();
    set_default_params(&mut bank);
    assert_eq!(bank.set_treasury(Origin::Root, TREASURY), Ok(()));
    assert_eq!(bank.open_fd(Origin::Signed(ALICE), PRINCIPAL_AMOUNT, MATURITY_PERIOD), Ok(1));

    bank.set_block_number((MATURITY_PERIOD + 1) as u64);

    let pre_balance = bank.free_balance(ALICE);
    let treasury_pre_balance = bank.free_balance(TREASURY);

    let (interest_rate, _, compound_frequency, fd_epoch) = bank.get_fd_params().unwrap();
    let tot_interest_amt = Pallet::get_compound_interest(
        PRINCIPAL_AMOUNT,
        interest_rate,
        compound_frequency,
        fd_epoch,
        MATURITY_PERIOD,
    )
    .ok()
    .unwrap();
    // 5000 units at 2% over three years: 5000 * (1.02^3 - 1)
    assert_eq!(tot_interest_amt, 3_060_400_000_000);

    assert_eq!(bank.close_fd(Origin::Signed(ALICE), 1, 1), Ok(()));
    assert_eq!(
        bank.last_event(),
        Some(Event::FDClosed {
            maturity: true,
            user: ALICE,
            principal: PRINCIPAL_AMOUNT,
            interest: tot_interest_amt,
            penalty: 0,
            block: bank.block_number(),
        })
    );

    let post_balance = bank.free_balance(ALICE);
    assert!(post_balance > pre_balance);
    assert_eq!(post_balance - pre_balance, PRINCIPAL_AMOUNT + tot_interest_amt);
    assert_eq!(bank.reserved_balance(ALICE), 0);

    let treasury_post_balance = bank.free_balance(TREASURY);
    assert_eq!(treasury_pre_balance - treasury_post_balance, tot_interest_amt);
}

#[test]
fn fails_when_lock_less_for_membership() {
    let mut bank = new_test_ext();
    assert_eq!(bank.free_balance(ALICE), 10_000 * UNIT);
    let before = snapshot(&bank);
    assert_eq!(
        bank.lock_for_membership(Origin::Signed(ALICE), 0),
        Err(Error::LockAmountIsLessThanMinLockAmount)
    );
    assert_eq!(snapshot(&bank), before);

    assert_eq!(
        bank.lock_for_membership(Origin::Signed(ALICE), 19 * UNIT),
        Err(Error::LockAmountIsLessThanMinLockAmount)
    );
    assert_eq!(snapshot(&bank), before);
    assert_eq!(bank.free_balance(ALICE), 10_000 * UNIT); // no change
    assert_eq!(bank.transfer(ALICE, BOB, 10_000 * UNIT), Ok(()));
}

#[test]
fn fails_when_lock_more_for_membership() {
    let mut bank = new_test_ext();
    assert_eq!(bank.free_balance(ALICE), 10_000 * UNIT);
    let before = snapshot(&bank);
    assert_eq!(
        bank.lock_for_membership(Origin::Signed(ALICE), 100_001 * UNIT),
        Err(Error::LockAmountExceedsMaxLockAmount)
    );
    assert_eq!(snapshot(&bank), before);

    assert_eq!(
        bank.lock_for_membership(Origin::Signed(ALICE), u128::MAX),
        Err(Error::LockAmountExceedsMaxLockAmount)
    );
    assert_eq!(snapshot(&bank), before);
    assert_eq!(bank.free_balance(ALICE), 10_000 * UNIT); // no change
    assert_eq!(bank.transfer(ALICE, BOB, 10_000 * UNIT), Ok(()));
}

#[test]
fn lock_valid_amt_for_membership() {
    let mut bank = new_test_ext();
    assert_eq!(bank.free_balance(ALICE), 10_000 * UNIT);
    assert_eq!(bank.lock_for_membership(Origin::Signed(ALICE), 21 * UNIT), Ok(()));
    assert_eq!(
        bank.last_event(),
        Some(Event::LockedForMembership {
            user: ALICE,
            amount: 21 * UNIT,
            block: bank.block_number(),
        })
    );

    assert_eq!(bank.lock_for_membership(Origin::Signed(ALICE), 100_000 * UNIT), Ok(()));
    assert_eq!(
        bank.last_event(),
        Some(Event::LockedForMembership {
            user: ALICE,
            amount: 100_000 * UNIT,
            block: bank.block_number(),
        })
    );
    assert_eq!(bank.free_balance(ALICE), 10_000 * UNIT); // no change
    let before = snapshot(&bank);
    assert_eq!(bank.transfer(ALICE, BOB, 10_000 * UNIT), Err(LedgerError::Frozen));
    assert_eq!(snapshot(&bank), before);
}

#[test]
fn unlock_works_when_locked_successfully() {
    let mut bank = new_test_ext();
    assert_eq!(bank.free_balance(ALICE), 10_000 * UNIT);
    assert_eq!(bank.lock_for_membership(Origin::Signed(ALICE), 21 * UNIT), Ok(()));
    assert_eq!(
        bank.last_event(),
        Some(Event::LockedForMembership {
            user: ALICE,
            amount: 21 * UNIT,
            block: bank.block_number(),
        })
    );

    assert_eq!(bank.unlock_for_membership(Origin::Signed(ALICE)), Ok(()));
    assert_eq!(
        bank.last_event(),
        Some(Event::UnlockedForMembership { user: ALICE, block: bank.block_number() })
    );
    assert_eq!(bank.free_balance(ALICE), 10_000 * UNIT); // no change
    assert_eq!(bank.transfer(ALICE, BOB, 10_000 * UNIT), Ok(()));
}
