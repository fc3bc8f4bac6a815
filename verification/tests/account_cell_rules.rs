use did_contracts::account_cell::{
    account_fee_and_storage, auction_basic_price, enable_sub_account_status, find_price, get_approval_action,
    recycle_refund, sub_account_refund_split, sum_income_of, verify_account_is_locked_for_cross_chain,
    verify_account_is_unlocked_for_cross_chain, verify_account_relinked, verify_action_throttle,
    verify_auction_bid_times, verify_enable_sub_account_switch, verify_force_recover, verify_force_recover_refund,
    verify_new_sub_account_cell, verify_owner_is_manager, verify_recyclable, verify_renew_duration,
    verify_renew_payment, AccountAction, AccountApprovalAction, AccountFeeConfig, ExpirationStage, IncomeRecord,
    PriceItem, RecycleRefund, ThrottleConfig, ThrottleTimes, WalletCell,
};
use did_contracts::error::{AccountCellErrorCode, DasError, ErrorCode, SubAccountCellErrorCode};
use did_contracts::types::{AccountStatus, DAY_SEC, ONE_CKB, YEAR_SEC};

fn throttle_config() -> ThrottleConfig {
    ThrottleConfig { transfer_account_throttle: 86400, edit_manager_throttle: 3600, edit_records_throttle: 600 }
}

fn times(transfer: u64, manager: u64, records: u64) -> ThrottleTimes {
    ThrottleTimes { last_transfer_account_at: transfer, last_edit_manager_at: manager, last_edit_records_at: records }
}

#[test]
fn throttle_allows_an_action_after_its_throttle() {
    let r = verify_action_throttle(
        AccountAction::EditRecords,
        &throttle_config(),
        3,
        &times(0, 0, 1000),
        &times(0, 0, 1600),
        1600,
    );
    assert_eq!(r, Ok(()));
}

#[test]
fn throttle_allows_the_first_action_at_any_time() {
    let r = verify_action_throttle(
        AccountAction::TransferAccount,
        &throttle_config(),
        2,
        &times(0, 0, 0),
        &times(5, 0, 0),
        5,
    );
    assert_eq!(r, Ok(()));
}

#[test]
fn throttle_refuses_an_action_too_soon() {
    let r = verify_action_throttle(
        AccountAction::EditManager,
        &throttle_config(),
        3,
        &times(0, 10_000, 0),
        &times(0, 13_599, 0),
        13_599,
    );
    assert_eq!(r, Err(DasError::AccountCell(AccountCellErrorCode::AccountCellThrottle)));
}

#[test]
fn throttle_requires_the_time_of_the_time_cell() {
    let r = verify_action_throttle(
        AccountAction::EditRecords,
        &throttle_config(),
        3,
        &times(0, 0, 1000),
        &times(0, 0, 2000),
        2001,
    );
    assert_eq!(r, Err(DasError::AccountCell(AccountCellErrorCode::AccountCellThrottle)));
}

#[test]
fn throttle_refuses_old_witnesses_and_other_actions() {
    let r = verify_action_throttle(AccountAction::EditRecords, &throttle_config(), 1, &times(0, 0, 0), &times(0, 0, 5), 5);
    assert_eq!(r, Err(DasError::Common(ErrorCode::InvalidTransactionStructure)));
    let r = verify_action_throttle(AccountAction::Other, &throttle_config(), 3, &times(0, 0, 0), &times(0, 0, 5), 5);
    assert_eq!(r, Err(DasError::Common(ErrorCode::ActionNotSupported)));
}

fn fee_config() -> AccountFeeConfig {
    AccountFeeConfig {
        basic_capacity: 20_600_000_000,
        transfer_account_fee: 10_000,
        edit_manager_fee: 20_000,
        edit_records_fee: 30_000,
        common_fee: 40_000,
    }
}

#[test]
fn fee_and_storage_follow_the_action_and_the_owner() {
    assert_eq!(account_fee_and_storage(AccountAction::TransferAccount, &fee_config(), 3, 5), (10_000, 20_600_000_000 + 5 * ONE_CKB));
    assert_eq!(account_fee_and_storage(AccountAction::EditManager, &fee_config(), 3, 5).0, 20_000);
    assert_eq!(account_fee_and_storage(AccountAction::EditRecords, &fee_config(), 3, 5).0, 30_000);
    assert_eq!(account_fee_and_storage(AccountAction::Other, &fee_config(), 3, 5).0, 40_000);
    assert_eq!(account_fee_and_storage(AccountAction::Other, &fee_config(), 6, 5).1, 23_000_000_000 + 5 * ONE_CKB);
}

#[test]
fn cross_chain_lock_needs_thirty_days_left() {
    let now = 1_000_000;
    assert_eq!(
        verify_account_is_locked_for_cross_chain(now, now + 30 * DAY_SEC, 3, AccountStatus::LockedForCrossChain),
        Ok(())
    );
    assert_eq!(
        verify_account_is_locked_for_cross_chain(now, now + 30 * DAY_SEC - 1, 3, AccountStatus::LockedForCrossChain),
        Err(DasError::Common(ErrorCode::CrossChainLockError))
    );
    assert_eq!(
        verify_account_is_locked_for_cross_chain(now, now + 31 * DAY_SEC, 1, AccountStatus::LockedForCrossChain),
        Err(DasError::Common(ErrorCode::InvalidTransactionStructure))
    );
    assert_eq!(
        verify_account_is_locked_for_cross_chain(now, now + 31 * DAY_SEC, 3, AccountStatus::Normal),
        Err(DasError::Common(ErrorCode::CrossChainLockError))
    );
}

#[test]
fn cross_chain_unlock_returns_to_normal() {
    assert_eq!(verify_account_is_unlocked_for_cross_chain(3, AccountStatus::Normal), Ok(()));
    assert_eq!(
        verify_account_is_unlocked_for_cross_chain(3, AccountStatus::LockedForCrossChain),
        Err(DasError::Common(ErrorCode::CrossChainUnlockError))
    );
    assert_eq!(
        verify_account_is_unlocked_for_cross_chain(0, AccountStatus::Normal),
        Err(DasError::Common(ErrorCode::InvalidTransactionStructure))
    );
}

#[test]
fn income_is_summed_per_lock() {
    let records = vec![
        IncomeRecord { belong_to: vec![1, 2], capacity: 100 },
        IncomeRecord { belong_to: vec![3], capacity: 7 },
        IncomeRecord { belong_to: vec![1, 2], capacity: 50 },
    ];
    assert_eq!(sum_income_of(&records, &[1, 2]), Some(150));
    assert_eq!(sum_income_of(&records, &[3]), Some(7));
    assert_eq!(sum_income_of(&records, &[9]), Some(0));
    let big = vec![
        IncomeRecord { belong_to: vec![1], capacity: u64::MAX },
        IncomeRecord { belong_to: vec![1], capacity: 1 },
    ];
    assert_eq!(sum_income_of(&big, &[1]), None);
}

#[test]
fn renew_payment_gives_the_paid_amount_and_the_duration() {
    let r = verify_renew_payment(AccountStatus::Normal, ExpirationStage::Active, 100, 1100, 1000, 1000 + YEAR_SEC);
    assert_eq!(r, Ok((1000, YEAR_SEC)));
    let r = verify_renew_payment(AccountStatus::LockedForCrossChain, ExpirationStage::Active, 100, 1100, 0, YEAR_SEC);
    assert_eq!(r, Err(DasError::AccountCell(AccountCellErrorCode::AccountCellStatusLocked)));
    let r = verify_renew_payment(AccountStatus::Normal, ExpirationStage::AuctionPeriod, 100, 1100, 0, YEAR_SEC);
    assert_eq!(r, Err(DasError::AccountCell(AccountCellErrorCode::AccountCellHasExpired)));
    let r = verify_renew_payment(AccountStatus::Normal, ExpirationStage::GracePeriod, 100, 100, 0, YEAR_SEC);
    assert_eq!(r, Err(DasError::Common(ErrorCode::IncomeCellConsolidateConditionNotSatisfied)));
    let r = verify_renew_payment(AccountStatus::Normal, ExpirationStage::GracePeriod, 100, 200, 0, YEAR_SEC - 1);
    assert_eq!(r, Err(DasError::AccountCell(AccountCellErrorCode::AccountCellRenewDurationMustLongerThanYear)));
}

#[test]
fn price_is_found_by_length() {
    let prices = vec![
        PriceItem { length: 1, new: 10, renew: 9 },
        PriceItem { length: 4, new: 4, renew: 3 },
        PriceItem { length: 4, new: 5, renew: 5 },
    ];
    assert_eq!(find_price(&prices, 4), Ok(1));
    assert_eq!(find_price(&prices, 1), Ok(0));
    assert_eq!(find_price(&prices, 8), Err(DasError::Common(ErrorCode::ItemMissing)));
}

#[test]
fn renew_duration_matches_what_was_paid() {
    let expected = YEAR_SEC;
    assert_eq!(verify_renew_duration(1000, YEAR_SEC, 1000, expected, 1500), Ok(Some(500)));
    assert_eq!(verify_renew_duration(1000, YEAR_SEC + DAY_SEC, 1000, expected, 1000), Ok(None));
    assert_eq!(
        verify_renew_duration(999, YEAR_SEC, 1000, expected, 1500),
        Err(DasError::AccountCell(AccountCellErrorCode::AccountCellRenewDurationMustLongerThanYear))
    );
    assert_eq!(
        verify_renew_duration(1000, YEAR_SEC + DAY_SEC + 1, 1000, expected, 1500),
        Err(DasError::AccountCell(AccountCellErrorCode::AccountCellRenewDurationBiggerThanPayed))
    );
}

#[test]
fn only_expired_accounts_are_recycled() {
    assert_eq!(verify_recyclable(ExpirationStage::Expired, AccountStatus::Normal), Ok(()));
    assert_eq!(verify_recyclable(ExpirationStage::Expired, AccountStatus::LockedForCrossChain), Ok(()));
    assert_eq!(
        verify_recyclable(ExpirationStage::GracePeriod, AccountStatus::Normal),
        Err(DasError::AccountCell(AccountCellErrorCode::AccountCellStillCanNotRecycle))
    );
    assert_eq!(
        verify_recyclable(ExpirationStage::Expired, AccountStatus::Selling),
        Err(DasError::AccountCell(AccountCellErrorCode::AccountCellStatusLocked))
    );
}

#[test]
fn sub_account_switch_is_read_from_recent_witnesses() {
    assert_eq!(enable_sub_account_status(3, 1), 1);
    assert_eq!(enable_sub_account_status(4, 1), 1);
    assert_eq!(enable_sub_account_status(2, 1), 0);
    assert_eq!(verify_enable_sub_account_switch(0, 4, 1), Ok(()));
    assert_eq!(
        verify_enable_sub_account_switch(1, 4, 1),
        Err(DasError::AccountCell(AccountCellErrorCode::AccountCellPermissionDenied))
    );
    assert_eq!(verify_enable_sub_account_switch(0, 3, 1), Err(DasError::Common(ErrorCode::InvalidTransactionStructure)));
    assert_eq!(
        verify_enable_sub_account_switch(0, 4, 0),
        Err(DasError::AccountCell(AccountCellErrorCode::AccountCellPermissionDenied))
    );
}

#[test]
fn recycled_account_is_relinked() {
    assert_eq!(verify_account_relinked(&[1], &[1], &[2], &[2]), Ok(()));
    assert_eq!(
        verify_account_relinked(&[1], &[3], &[2], &[2]),
        Err(DasError::AccountCell(AccountCellErrorCode::AccountCellMissingPrevAccount))
    );
    assert_eq!(
        verify_account_relinked(&[1], &[1], &[2], &[4]),
        Err(DasError::AccountCell(AccountCellErrorCode::AccountCellNextUpdateError))
    );
}

#[test]
fn recycle_refund_goes_to_the_owner() {
    let r = recycle_refund(30_000_000_000, 1_000, 7_000_000_000, 10_000, false, &vec![]);
    assert_eq!(
        r,
        Ok(RecycleRefund::ToOwner { owner_change: 30_000_000_000 + 1_000 - 10_000, das_change: Some(7_000_000_000) })
    );
    let r = recycle_refund(30_000_000_000, 0, 1_000, 10_000, false, &vec![]);
    assert_eq!(r, Ok(RecycleRefund::ToOwner { owner_change: 29_999_990_000, das_change: None }));
}

#[test]
fn recycle_refund_of_a_black_hole_owner_goes_to_the_das_wallet() {
    let cells = vec![
        WalletCell { capacity: 29_999_990_000, has_type: false },
        WalletCell { capacity: 7_000_000_000, has_type: false },
    ];
    assert_eq!(recycle_refund(30_000_000_000, 0, 7_000_000_000, 10_000, true, &cells), Ok(RecycleRefund::ToDasWallet));
    let one = vec![WalletCell { capacity: 29_999_990_000, has_type: false }];
    assert_eq!(
        recycle_refund(30_000_000_000, 0, 7_000_000_000, 10_000, true, &one),
        Err(DasError::Common(ErrorCode::InvalidTransactionStructure))
    );
    let typed = vec![WalletCell { capacity: 29_999_990_000, has_type: true }];
    assert_eq!(
        recycle_refund(30_000_000_000, 0, 1, 10_000, true, &typed),
        Err(DasError::Common(ErrorCode::InvalidTransactionStructure))
    );
    let short = vec![WalletCell { capacity: 29_999_980_000, has_type: false }];
    assert_eq!(recycle_refund(30_000_000_000, 0, 1, 10_000, true, &short), Err(DasError::Common(ErrorCode::ChangeError)));
}

#[test]
fn force_recover_needs_a_locked_account_past_its_grace() {
    assert_eq!(
        verify_force_recover(AccountStatus::Selling, AccountStatus::Normal, ExpirationStage::AuctionPeriod),
        Ok(())
    );
    assert_eq!(
        verify_force_recover(AccountStatus::Normal, AccountStatus::Normal, ExpirationStage::Expired),
        Err(DasError::Common(ErrorCode::InvalidTransactionStructure))
    );
    assert_eq!(
        verify_force_recover(AccountStatus::Selling, AccountStatus::Selling, ExpirationStage::Expired),
        Err(DasError::AccountCell(AccountCellErrorCode::AccountCellStatusLocked))
    );
    assert_eq!(
        verify_force_recover(AccountStatus::Selling, AccountStatus::Normal, ExpirationStage::GracePeriod),
        Err(DasError::AccountCell(AccountCellErrorCode::AccountCellIsNotExpired))
    );
}

#[test]
fn force_recover_refund_allows_the_fee() {
    assert_eq!(verify_force_recover_refund(&[1], &[1], 100_000, 80_000), Ok(()));
    assert_eq!(
        verify_force_recover_refund(&[1], &[1], 100_000, 79_999),
        Err(DasError::Common(ErrorCode::AccountSaleCellRefundError))
    );
    assert_eq!(
        verify_force_recover_refund(&[1], &[2], 100_000, 100_000),
        Err(DasError::Common(ErrorCode::AccountSaleCellRefundError))
    );
}

#[test]
fn sub_account_refund_is_split_between_das_and_owner() {
    assert_eq!(sub_account_refund_split(1000, 300), (300, 700));
}

#[test]
fn new_sub_account_cell_has_the_right_capacity_and_id() {
    assert_eq!(verify_new_sub_account_cell(150, 100, 50, &[7], &[7], 1000, 10), Ok(Some(840)));
    assert_eq!(verify_new_sub_account_cell(150, 100, 50, &[7], &[7], 150, 10), Ok(None));
    assert_eq!(
        verify_new_sub_account_cell(151, 100, 50, &[7], &[7], 1000, 10),
        Err(DasError::SubAccountCell(SubAccountCellErrorCode::SubAccountCellCapacityError))
    );
    assert_eq!(
        verify_new_sub_account_cell(150, 100, 50, &[7], &[8], 1000, 10),
        Err(DasError::SubAccountCell(SubAccountCellErrorCode::SubAccountCellAccountIdError))
    );
}

#[test]
fn auction_bid_resets_the_account() {
    let now = 5_000_000;
    assert_eq!(verify_auction_bid_times(now, now, &times(0, 0, 0), now + YEAR_SEC), Ok(()));
    assert_eq!(
        verify_auction_bid_times(now, now - 1, &times(0, 0, 0), now + YEAR_SEC),
        Err(DasError::Common(ErrorCode::InvalidTransactionStructure))
    );
    assert_eq!(
        verify_auction_bid_times(now, now, &times(1, 0, 0), now + YEAR_SEC),
        Err(DasError::Common(ErrorCode::InvalidTransactionStructure))
    );
    assert_eq!(
        verify_auction_bid_times(now, now, &times(0, 0, 0), now + YEAR_SEC + 1),
        Err(DasError::Common(ErrorCode::InvalidTransactionStructure))
    );
}

#[test]
fn auction_basic_price_converts_storage_to_usd() {
    // 200 CKB at a quote of 0.01 USD/CKB (10_000 in millionths) is 2 USD (2_000_000).
    assert_eq!(auction_basic_price(200 * ONE_CKB, 10_000, 5_000_000), 2_000_000 + 5_000_000);
}

#[test]
fn owner_must_be_manager() {
    assert_eq!(verify_owner_is_manager(&[5, 6], &[5, 6]), Ok(()));
    assert_eq!(
        verify_owner_is_manager(&[5, 6], &[5, 7]),
        Err(DasError::AccountCell(AccountCellErrorCode::AccountCellPermissionDenied))
    );
}

#[test]
fn approval_action_is_transfer() {
    assert_eq!(get_approval_action(4, b"transfer"), Ok(AccountApprovalAction::Transfer));
    assert_eq!(get_approval_action(3, b"transfer"), Err(DasError::Common(ErrorCode::InvalidTransactionStructure)));
    assert_eq!(
        get_approval_action(4, b"sell"),
        Err(DasError::AccountCell(AccountCellErrorCode::ApprovalActionUndefined))
    );
}
