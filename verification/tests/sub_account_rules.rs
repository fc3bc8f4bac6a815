use did_contracts::approval::{AccountApproval, TransferApproval};
use did_contracts::error::{DasError, ErrorCode, SubAccountCellErrorCode};
use did_contracts::sub_account::{
    collect_sub_account_channel_profit, collect_sub_account_profit, create_step, expiration_years,
    fulfill_needs_signature, gen_smt_key_by_account_id, generate_new_sub_account_by_edit_value, renew_step,
    transfer_approval_create, transfer_approval_delay, transfer_approval_revoke,
    verify_custom_script_changed, verify_profit_to_das_with_custom_rule, verify_profit_to_das_with_custom_script,
    verify_profit_to_das_with_manual, verify_recyclable, verify_sender_cost, verify_sub_account_capacity_is_enough,
    verify_sub_account_transaction_fee, CollectedProfit, CreateFacts, ProfitTally, RenewFacts, RenewKey, RuleMatch,
    SubAccount, SubAccountAction, SubAccountCellBalance, SubAccountConfigFlag, SubAccountEditValue,
    SubAccountExpiration,
};
use did_contracts::types::{AccountStatus, Script, DAY_SEC, YEAR_SEC};

fn das_lock() -> Script {
    Script { code_hash: vec![0xda; 32], hash_type: 1, args: vec![] }
}

fn sub_account() -> SubAccount {
    SubAccount {
        lock: Script { code_hash: vec![0xda; 32], hash_type: 1, args: vec![3, 1, 3, 1] },
        id: vec![9; 20],
        account: b"alice".to_vec(),
        suffix: b".xyz.bit".to_vec(),
        registered_at: 100,
        expired_at: 1_000_000_000,
        status: AccountStatus::Normal,
        records: vec![vec![1, 2]],
        nonce: 7,
        enable_sub_account: 0,
        renew_sub_account_price: 0,
        approval: AccountApproval::Empty,
    }
}

fn approval(protected_until: u64, sealed_until: u64, delay: u8) -> TransferApproval {
    TransferApproval {
        platform_lock: Script { code_hash: vec![0xda; 32], hash_type: 1, args: vec![3, 7] },
        protected_until,
        sealed_until,
        delay_count_remain: delay,
        to_lock: Script { code_hash: vec![0xda; 32], hash_type: 1, args: vec![5, 5] },
    }
}

#[test]
fn owner_edit_replaces_the_lock_and_clears_records() {
    let s = sub_account();
    let n = generate_new_sub_account_by_edit_value(2, SubAccountAction::Edit, &s, &SubAccountEditValue::Owner(vec![4, 4]), &das_lock(), Ok(()))
        .unwrap();
    assert_eq!(n.lock.args, vec![4, 4]);
    assert_eq!(n.lock.code_hash, vec![0xda; 32]);
    assert!(n.records.is_empty());
    assert_eq!(n.nonce, 8);
    assert_eq!(n.id, s.id);
    assert_eq!(n.account, s.account);
}

#[test]
fn manager_and_records_edits_keep_the_rest() {
    let s = sub_account();
    let n = generate_new_sub_account_by_edit_value(2, SubAccountAction::Edit, &s, &SubAccountEditValue::Manager(vec![6]), &das_lock(), Ok(()))
        .unwrap();
    assert_eq!(n.lock.args, vec![6]);
    assert_eq!(n.records, vec![vec![1u8, 2]]);
    let n = generate_new_sub_account_by_edit_value(
        2,
        SubAccountAction::Edit,
        &s,
        &SubAccountEditValue::Records(vec![vec![7], vec![8]]),
        &das_lock(),
        Ok(()),
    )
    .unwrap();
    assert_eq!(n.records, vec![vec![7u8], vec![8u8]]);
    assert_eq!(n.lock.args, vec![3, 1, 3, 1]);
}

#[test]
fn renewal_moves_the_expiry() {
    let n = generate_new_sub_account_by_edit_value(
        2,
        SubAccountAction::Renew,
        &sub_account(),
        &SubAccountEditValue::ExpiredAt(2_000_000_000),
        &das_lock(),
        Ok(()),
    )
    .unwrap();
    assert_eq!(n.expired_at, 2_000_000_000);
    assert_eq!(n.nonce, 8);
}

#[test]
fn approvals_change_status_and_fulfilment_moves_the_lock() {
    let s = sub_account();
    let approved = generate_new_sub_account_by_edit_value(
        2,
        SubAccountAction::CreateApproval,
        &s,
        &SubAccountEditValue::Approval(AccountApproval::Transfer(approval(10, 20, 1))),
        &das_lock(),
        Ok(()),
    )
    .unwrap();
    assert_eq!(approved.status, AccountStatus::ApprovedTransfer);
    let revoked =
        generate_new_sub_account_by_edit_value(2, SubAccountAction::RevokeApproval, &approved, &SubAccountEditValue::Nothing, &das_lock(), Ok(()))
            .unwrap();
    assert_eq!(revoked.status, AccountStatus::Normal);
    assert!(matches!(revoked.approval, AccountApproval::Empty));
    assert_eq!(revoked.nonce, 9);
    let fulfilled =
        generate_new_sub_account_by_edit_value(2, SubAccountAction::FulfillApproval, &approved, &SubAccountEditValue::Nothing, &das_lock(), Ok(()))
            .unwrap();
    assert_eq!(fulfilled.lock.args, vec![5, 5]);
    assert!(fulfilled.records.is_empty());
    assert_eq!(fulfilled.status, AccountStatus::Normal);
    assert_eq!(
        generate_new_sub_account_by_edit_value(2, SubAccountAction::FulfillApproval, &s, &SubAccountEditValue::Nothing, &das_lock(), Ok(()))
            .err(),
        Some(DasError::SubAccountCell(SubAccountCellErrorCode::ApprovalActionUndefined))
    );
}

#[test]
fn bad_edits_are_refused() {
    let s = sub_account();
    assert_eq!(
        generate_new_sub_account_by_edit_value(1, SubAccountAction::Edit, &s, &SubAccountEditValue::Owner(vec![1]), &das_lock(), Ok(())).err(),
        Some(DasError::SubAccountCell(SubAccountCellErrorCode::WitnessUpgradeNeeded))
    );
    assert_eq!(
        generate_new_sub_account_by_edit_value(2, SubAccountAction::Edit, &s, &SubAccountEditValue::ExpiredAt(1), &das_lock(), Ok(())).err(),
        Some(DasError::SubAccountCell(SubAccountCellErrorCode::WitnessEditKeyInvalid))
    );
    assert_eq!(
        generate_new_sub_account_by_edit_value(2, SubAccountAction::Recycle, &s, &SubAccountEditValue::Nothing, &das_lock(), Ok(())).err(),
        Some(DasError::SubAccountCell(SubAccountCellErrorCode::WitnessEditKeyInvalid))
    );
}

#[test]
fn new_lock_arguments_must_read_as_owner_and_manager() {
    let s = sub_account();
    let unreadable = Err(DasError::Common(ErrorCode::InvalidTransactionStructure));
    assert_eq!(
        generate_new_sub_account_by_edit_value(2, SubAccountAction::Edit, &s, &SubAccountEditValue::Owner(vec![4]), &das_lock(), unreadable).err(),
        Some(DasError::Common(ErrorCode::InvalidTransactionStructure))
    );
    assert_eq!(
        generate_new_sub_account_by_edit_value(2, SubAccountAction::Edit, &s, &SubAccountEditValue::Manager(vec![4]), &das_lock(), unreadable).err(),
        Some(DasError::Common(ErrorCode::InvalidTransactionStructure))
    );
    // Only a new lock is read.
    let n = generate_new_sub_account_by_edit_value(2, SubAccountAction::Edit, &s, &SubAccountEditValue::Records(vec![]), &das_lock(), unreadable)
        .unwrap();
    assert!(n.records.is_empty());
    // The version is checked first.
    assert_eq!(
        generate_new_sub_account_by_edit_value(1, SubAccountAction::Edit, &s, &SubAccountEditValue::Owner(vec![4]), &das_lock(), unreadable).err(),
        Some(DasError::SubAccountCell(SubAccountCellErrorCode::WitnessUpgradeNeeded))
    );
}

const NOW: u64 = 1_700_000_000;

#[test]
fn sub_account_approval_life() {
    let mut s = sub_account();
    s.expired_at = NOW + 31 * DAY_SEC;
    let a = AccountApproval::Transfer(approval(NOW + DAY_SEC, NOW + 2 * DAY_SEC, 1));
    assert_eq!(transfer_approval_create(NOW, &das_lock(), &s, &a), Ok(()));
    s.expired_at = NOW + 30 * DAY_SEC;
    assert_eq!(
        transfer_approval_create(NOW, &das_lock(), &s, &a),
        Err(SubAccountCellErrorCode::AccountHasNearGracePeriod)
    );
    let b = AccountApproval::Transfer(approval(NOW + DAY_SEC, NOW + 40 * DAY_SEC, 0));
    assert_eq!(transfer_approval_delay(&a, &b), Ok(()));
    let c = AccountApproval::Transfer(approval(NOW + DAY_SEC, NOW + 41 * DAY_SEC, 0));
    assert_eq!(
        transfer_approval_delay(&b, &c),
        Err(SubAccountCellErrorCode::ApprovalParamsDelayCountNotEnough)
    );
    let mut revoked = sub_account();
    assert_eq!(transfer_approval_revoke(NOW + DAY_SEC + 1, &a, &revoked), Ok(()));
    assert_eq!(
        transfer_approval_revoke(NOW + DAY_SEC, &a, &revoked),
        Err(SubAccountCellErrorCode::ApprovalInProtectionPeriod)
    );
    revoked.status = AccountStatus::ApprovedTransfer;
    assert_eq!(
        transfer_approval_revoke(NOW + DAY_SEC + 1, &a, &revoked),
        Err(SubAccountCellErrorCode::AccountStatusError)
    );
    assert!(fulfill_needs_signature(5, 5));
    assert!(!fulfill_needs_signature(6, 5));
}

fn balance(capacity: u64, das_profit: u64, owner_profit: u64) -> SubAccountCellBalance {
    SubAccountCellBalance { capacity, das_profit, owner_profit }
}

#[test]
fn sub_account_cell_holds_its_profits_and_fees() {
    assert_eq!(verify_sub_account_capacity_is_enough(100, balance(160, 30, 30), balance(200, 50, 50)), Ok(()));
    assert_eq!(
        verify_sub_account_capacity_is_enough(100, balance(159, 30, 30), balance(200, 50, 50)),
        Err(SubAccountCellErrorCode::SubAccountCellCapacityError)
    );
    assert_eq!(verify_sub_account_transaction_fee(10, 100, balance(200, 0, 0), balance(195, 0, 0)), Ok(true));
    assert_eq!(verify_sub_account_transaction_fee(10, 100, balance(200, 0, 0), balance(200, 0, 0)), Ok(false));
    assert_eq!(
        verify_sub_account_transaction_fee(10, 100, balance(200, 0, 0), balance(189, 0, 0)),
        Err(ErrorCode::TxFeeSpentError)
    );
}

#[test]
fn das_profit_follows_the_mode() {
    assert_eq!(verify_profit_to_das_with_manual(100, 150, 50), Ok(()));
    assert_eq!(verify_profit_to_das_with_manual(100, 151, 50), Err(SubAccountCellErrorCode::SubAccountProfitError));
    // Custom script: 20% of a total profit of 1000 is 200, above the minimum of 100.
    assert_eq!(
        verify_profit_to_das_with_custom_script(2000, 100, balance(0, 0, 0), balance(0, 200, 800)),
        Ok(())
    );
    assert_eq!(
        verify_profit_to_das_with_custom_script(2000, 100, balance(0, 0, 0), balance(0, 199, 801)),
        Err(SubAccountCellErrorCode::SubAccountProfitError)
    );
    // Below the minimum the minimum is owed.
    assert_eq!(verify_profit_to_das_with_custom_script(100, 50, balance(0, 0, 0), balance(0, 50, 950)), Ok(()));
    assert_eq!(verify_profit_to_das_with_custom_rule(10, 60, 50), Ok(()));
    assert_eq!(verify_profit_to_das_with_custom_rule(10, 61, 50), Err(SubAccountCellErrorCode::SubAccountProfitError));
}

#[test]
fn profits_are_collected_from_the_cell() {
    assert_eq!(
        collect_sub_account_profit(10, 500, balance(1000, 100, 200), balance(690, 0, 0)),
        Ok(CollectedProfit { das: true, owner: true })
    );
    // Both SubAccountCells must hold their profits and the basic capacity.
    assert_eq!(
        collect_sub_account_profit(10, 701, balance(1000, 100, 200), balance(690, 0, 0)),
        Err(DasError::SubAccountCell(SubAccountCellErrorCode::SubAccountCellCapacityError))
    );
    assert_eq!(
        collect_sub_account_profit(10, 691, balance(1000, 100, 200), balance(690, 0, 0)),
        Err(DasError::SubAccountCell(SubAccountCellErrorCode::SubAccountCellCapacityError))
    );
    assert_eq!(
        collect_sub_account_profit(10, 500, balance(1000, 100, 200), balance(890, 0, 200)),
        Ok(CollectedProfit { das: true, owner: false })
    );
    assert_eq!(
        collect_sub_account_profit(10, 500, balance(1000, 100, 200), balance(689, 0, 0)),
        Err(DasError::SubAccountCell(SubAccountCellErrorCode::SubAccountCollectProfitError))
    );
    assert_eq!(
        collect_sub_account_profit(10, 500, balance(1000, 0, 0), balance(1000, 0, 0)),
        Err(DasError::Common(ErrorCode::InvalidTransactionStructure))
    );
    assert_eq!(
        collect_sub_account_profit(10, 500, balance(1000, 100, 0), balance(1000, 100, 0)),
        Err(DasError::Common(ErrorCode::InvalidTransactionStructure))
    );
    assert_eq!(collect_sub_account_channel_profit(true, 500, balance(1000, 100, 0), balance(950, 50, 0)), Ok(()));
    assert_eq!(
        collect_sub_account_channel_profit(false, 500, balance(1000, 100, 0), balance(950, 50, 0)),
        Err(SubAccountCellErrorCode::ProfitManagerLockIsRequired)
    );
    assert_eq!(
        collect_sub_account_channel_profit(true, 500, balance(1000, 0, 0), balance(1000, 0, 0)),
        Err(SubAccountCellErrorCode::ProfitIsEmpty)
    );
    assert_eq!(
        collect_sub_account_channel_profit(true, 500, balance(1000, 100, 0), balance(1000, 100, 0)),
        Err(SubAccountCellErrorCode::ProfitMustBeCollected)
    );
    assert_eq!(
        collect_sub_account_channel_profit(true, 901, balance(1000, 100, 0), balance(950, 50, 0)),
        Err(SubAccountCellErrorCode::SubAccountCellCapacityError)
    );
}

#[test]
fn registrations_and_renewals_pay_for_whole_years() {
    let mut short = create(true, RuleMatch::NoMatch);
    short.expired_at = NOW + YEAR_SEC - 1;
    assert_eq!(create_step(empty_tally(), short), Err(DasError::SubAccountCell(SubAccountCellErrorCode::ExpirationYearsTooShort)));
    let mut ragged = create(true, RuleMatch::NoMatch);
    ragged.expired_at = NOW + 2 * YEAR_SEC + DAY_SEC + 1;
    assert_eq!(create_step(empty_tally(), ragged), Err(DasError::SubAccountCell(SubAccountCellErrorCode::ExpirationToleranceReached)));
    let mut within_a_day = create(true, RuleMatch::NoMatch);
    within_a_day.expired_at = NOW + 3 * YEAR_SEC + DAY_SEC;
    assert_eq!(create_step(empty_tally(), within_a_day).unwrap().profit_total, 300);
    let mut short = renew(RenewKey::Manual, RuleMatch::NoMatch);
    short.new_expired_at = NOW + DAY_SEC;
    assert_eq!(renew_step(empty_tally(), short), Err(SubAccountCellErrorCode::ExpirationYearsTooShort));
    let mut ragged = renew(RenewKey::Manual, RuleMatch::NoMatch);
    ragged.new_expired_at = NOW + YEAR_SEC + 2 * DAY_SEC;
    assert_eq!(renew_step(empty_tally(), ragged), Err(SubAccountCellErrorCode::ExpirationToleranceReached));
    let mut two = renew(RenewKey::Manual, RuleMatch::NoMatch);
    two.new_expired_at = NOW + 2 * YEAR_SEC;
    assert_eq!(renew_step(empty_tally(), two).unwrap().profit_total, 200);
}

#[test]
fn expiration_is_counted_in_whole_years() {
    assert_eq!(expiration_years(0, 2 * YEAR_SEC), Ok(2));
    assert_eq!(expiration_years(0, YEAR_SEC + DAY_SEC), Ok(1));
    assert_eq!(expiration_years(0, YEAR_SEC + DAY_SEC + 1), Err(SubAccountCellErrorCode::ExpirationToleranceReached));
    assert_eq!(expiration_years(0, YEAR_SEC - 1), Err(SubAccountCellErrorCode::ExpirationYearsTooShort));
}

#[test]
fn smt_key_is_the_id_padded_with_zeros() {
    let key = gen_smt_key_by_account_id(&[7u8; 20]);
    assert_eq!(&key[..20], &[7u8; 20]);
    assert_eq!(&key[20..], &[0u8; 12]);
}

#[test]
fn only_expired_sub_accounts_are_recycled() {
    assert_eq!(verify_recyclable(SubAccountExpiration::Expired), Ok(()));
    assert_eq!(
        verify_recyclable(SubAccountExpiration::InGracePeriod),
        Err(DasError::SubAccountCell(SubAccountCellErrorCode::AccountStillCanNotBeRecycled))
    );
    assert_eq!(verify_recyclable(SubAccountExpiration::OtherError), Err(DasError::Common(ErrorCode::HardCodedError)));
}

#[test]
fn custom_script_must_change() {
    assert_eq!(verify_custom_script_changed(&Some(vec![1]), &Some(vec![2]), &None, &None), Ok(()));
    assert_eq!(verify_custom_script_changed(&Some(vec![1]), &Some(vec![1]), &None, &Some(vec![3])), Ok(()));
    assert_eq!(
        verify_custom_script_changed(&Some(vec![1]), &Some(vec![1]), &None, &None),
        Err(SubAccountCellErrorCode::SubAccountCustomScriptError)
    );
}

#[test]
fn sender_pays_at_most_the_manual_fees() {
    assert_eq!(verify_sender_cost(1000, 900, 60, 30, false, 10), Ok(()));
    assert_eq!(verify_sender_cost(1000, 899, 60, 30, false, 10), Err(SubAccountCellErrorCode::SenderCapacityOverCost));
    assert_eq!(verify_sender_cost(1000, 900, 60, 30, true, 10), Err(SubAccountCellErrorCode::SenderCapacityOverCost));
    assert_eq!(verify_sender_cost(100, 200, 0, 0, true, 10), Ok(()));
}

fn empty_tally() -> ProfitTally {
    ProfitTally {
        minimal_required_das_profit: 0,
        profit_total: 0,
        profit_from_manual_mint: 0,
        profit_from_manual_renew: 0,
        profit_from_manual_renew_by_other: 0,
    }
}

fn create(manual: bool, price: RuleMatch) -> CreateFacts {
    CreateFacts {
        old_sub_account_version: 2,
        new_sub_account_version: 2,
        account_chars_check: Ok(()),
        min_length_check: Ok(()),
        max_length_check: Ok(()),
        initial_properties_check: Ok(()),
        registered_at: NOW,
        expired_at: NOW + 2 * YEAR_SEC,
        manual_requested: manual,
        edit_value_is_proof: false,
        has_mint_list: true,
        in_mint_list: manual,
        flag: SubAccountConfigFlag::CustomRule,
        custom_rule_on: true,
        preserved: RuleMatch::NoMatch,
        price,
        new_sub_account_price: 1_000_000,
        basic_yearly_capacity: 100,
        rule_yearly_capacity: 300,
    }
}

#[test]
fn registrations_add_up_the_profits() {
    let t = create_step(empty_tally(), create(true, RuleMatch::NoMatch)).unwrap();
    assert_eq!(t.minimal_required_das_profit, 200);
    assert_eq!(t.profit_total, 200);
    assert_eq!(t.profit_from_manual_mint, 200);
    let t = create_step(t, create(false, RuleMatch::Matched(3_000_000))).unwrap();
    assert_eq!(t.profit_total, 800);
    assert_eq!(t.minimal_required_das_profit, 200);
    assert_eq!(
        create_step(empty_tally(), create(false, RuleMatch::Matched(999_999))),
        Err(DasError::SubAccountCell(SubAccountCellErrorCode::MinimalProfitToDASNotReached))
    );
    assert_eq!(create_step(empty_tally(), create(false, RuleMatch::NoMatch)), Err(DasError::SubAccountCell(SubAccountCellErrorCode::AccountHasNoPrice)));
    let mut preserved = create(false, RuleMatch::Matched(3_000_000));
    preserved.preserved = RuleMatch::Matched(0);
    assert_eq!(create_step(empty_tally(), preserved), Err(DasError::SubAccountCell(SubAccountCellErrorCode::AccountIsPreserved)));
    let mut off = create(false, RuleMatch::Matched(3_000_000));
    off.custom_rule_on = false;
    assert_eq!(create_step(empty_tally(), off), Err(DasError::SubAccountCell(SubAccountCellErrorCode::CustomRuleIsOff)));
    let mut manual_flag = create(false, RuleMatch::Matched(3_000_000));
    manual_flag.flag = SubAccountConfigFlag::Manual;
    assert_eq!(create_step(empty_tally(), manual_flag), Err(DasError::SubAccountCell(SubAccountCellErrorCode::CanNotMint)));
    let mut no_list = create(true, RuleMatch::NoMatch);
    no_list.has_mint_list = false;
    assert_eq!(create_step(empty_tally(), no_list), Err(DasError::SubAccountCell(SubAccountCellErrorCode::WitnessSignMintIsRequired)));
    let mut proof_not_listed = create(true, RuleMatch::NoMatch);
    proof_not_listed.in_mint_list = false;
    proof_not_listed.edit_value_is_proof = true;
    assert_eq!(create_step(empty_tally(), proof_not_listed), Err(DasError::SubAccountCell(SubAccountCellErrorCode::ProofInManualSignRenewListMissing)));
    let mut not_listed = create(true, RuleMatch::Matched(3_000_000));
    not_listed.in_mint_list = false;
    assert_eq!(create_step(empty_tally(), not_listed).unwrap().profit_total, 600);
    let mut old = create(true, RuleMatch::NoMatch);
    old.new_sub_account_version = 1;
    assert_eq!(create_step(empty_tally(), old), Err(DasError::SubAccountCell(SubAccountCellErrorCode::WitnessVersionMismatched)));
    // The name and the initial properties are checked, in this order, before the years.
    let bad = Err(DasError::Common(ErrorCode::InvalidTransactionStructure));
    let other = Err(DasError::Common(ErrorCode::HardCodedError));
    let mut named = create(true, RuleMatch::NoMatch);
    named.expired_at = NOW;
    named.account_chars_check = bad;
    named.max_length_check = other;
    assert_eq!(create_step(empty_tally(), named).err(), bad.err());
    named.account_chars_check = Ok(());
    assert_eq!(create_step(empty_tally(), named).err(), other.err());
    named.max_length_check = Ok(());
    named.min_length_check = bad;
    assert_eq!(create_step(empty_tally(), named).err(), bad.err());
    named.min_length_check = Ok(());
    named.initial_properties_check = other;
    assert_eq!(create_step(empty_tally(), named).err(), other.err());
    named.initial_properties_check = Ok(());
    assert_eq!(create_step(empty_tally(), named), Err(DasError::SubAccountCell(SubAccountCellErrorCode::ExpirationYearsTooShort)));
}

fn renew(key: RenewKey, price: RuleMatch) -> RenewFacts {
    RenewFacts {
        expired_at: NOW,
        new_expired_at: NOW + YEAR_SEC + DAY_SEC,
        key,
        flag: SubAccountConfigFlag::CustomRule,
        custom_rule_on: true,
        price,
        custom_price_rules_set: true,
        has_renew_list: true,
        has_proof: true,
        in_renew_list: true,
        renew_sub_account_price: 1_000_000,
        basic_yearly_capacity: 100,
        rule_yearly_capacity: 300,
    }
}

#[test]
fn renewals_add_up_the_profits() {
    let t = renew_step(empty_tally(), renew(RenewKey::CustomRule, RuleMatch::Matched(2_000_000))).unwrap();
    assert_eq!(t.profit_total, 300);
    assert_eq!(t.minimal_required_das_profit, 0);
    let t = renew_step(t, renew(RenewKey::Manual, RuleMatch::NoMatch)).unwrap();
    assert_eq!(t.profit_total, 400);
    assert_eq!(t.profit_from_manual_renew, 100);
    let mut by_other = renew(RenewKey::Manual, RuleMatch::NoMatch);
    by_other.has_proof = false;
    let t = renew_step(t, by_other).unwrap();
    assert_eq!(t.profit_from_manual_renew_by_other, 100);
    assert_eq!(t.minimal_required_das_profit, 200);
    let t2 = renew_step(empty_tally(), renew(RenewKey::CustomRule, RuleMatch::NoMatch)).unwrap();
    assert_eq!(t2.profit_from_manual_renew_by_other, 100);
    assert_eq!(
        renew_step(empty_tally(), renew(RenewKey::CustomRule, RuleMatch::Matched(1))),
        Err(SubAccountCellErrorCode::MinimalProfitToDASNotReached)
    );
    assert_eq!(
        renew_step(empty_tally(), renew(RenewKey::CustomRule, RuleMatch::NoRules)),
        Err(SubAccountCellErrorCode::AccountHasNoPrice)
    );
    assert_eq!(
        renew_step(empty_tally(), renew(RenewKey::CustomRule, RuleMatch::SyntaxError)),
        Err(SubAccountCellErrorCode::ConfigRulesHasSyntaxError)
    );
    let mut not_listed = renew(RenewKey::Manual, RuleMatch::NoMatch);
    not_listed.in_renew_list = false;
    assert_eq!(renew_step(empty_tally(), not_listed), Err(SubAccountCellErrorCode::ManualRenewProofIsInvalid));
    assert_eq!(renew_step(empty_tally(), renew(RenewKey::Other, RuleMatch::NoMatch)), Err(SubAccountCellErrorCode::AccountHasNoPrice));
}
