use did_contracts::approval::{AccountApproval, TransferApproval};
use did_contracts::error::{DasError, ErrorCode, SubAccountCellErrorCode};
use did_contracts::sub_account::{
    CreateFacts, ProfitTally, RenewFacts, RenewKey, RuleMatch, SubAccount, SubAccountAction, SubAccountCellBalance,
    SubAccountConfigFlag, SubAccountExpiration,
};
use did_contracts::sub_account_update::{EditKind, LockParties};
use did_contracts::sub_action::{
    run_sub_actions, settle_sub_account_profits, smt_values, SettleFacts, SmtProofRoots, SmtValue, SubAction,
    SubAccountWitness, SubActionWitness,
};
use did_contracts::types::{AccountStatus, Script, DAY_SEC, YEAR_SEC};

const NOW: u64 = 1_700_000_000;

fn das_lock() -> Script {
    Script { code_hash: vec![0xda; 32], hash_type: 1, args: vec![] }
}

fn root(n: u8) -> Vec<u8> {
    vec![n; 32]
}

/// A witness whose proof moves the tree from `root(from)` to `root(to)`.
fn step(action: SubActionWitness, from: u8, to: u8) -> SubAccountWitness {
    SubAccountWitness {
        suffix_check: Ok(()),
        action,
        proof: SmtProofRoots { with_value_before: Some(root(from)), with_value_after: Some(root(to)) },
        new_root: root(to),
    }
}

fn create(manual: bool) -> CreateFacts {
    CreateFacts {
        old_sub_account_version: 2,
        new_sub_account_version: 2,
        account_chars_check: Ok(()),
        min_length_check: Ok(()),
        max_length_check: Ok(()),
        initial_properties_check: Ok(()),
        registered_at: NOW,
        expired_at: NOW + YEAR_SEC,
        manual_requested: manual,
        edit_value_is_proof: false,
        has_mint_list: true,
        in_mint_list: manual,
        flag: SubAccountConfigFlag::CustomRule,
        custom_rule_on: true,
        preserved: RuleMatch::NoMatch,
        price: RuleMatch::Matched(5_000_000),
        new_sub_account_price: 1_000_000,
        basic_yearly_capacity: 100,
        rule_yearly_capacity: 500,
    }
}

fn renew_by_other() -> RenewFacts {
    RenewFacts {
        expired_at: NOW,
        new_expired_at: NOW + 2 * YEAR_SEC,
        key: RenewKey::Manual,
        flag: SubAccountConfigFlag::CustomRule,
        custom_rule_on: true,
        price: RuleMatch::NoMatch,
        custom_price_rules_set: false,
        has_renew_list: false,
        has_proof: false,
        in_renew_list: false,
        renew_sub_account_price: 1_000_000,
        basic_yearly_capacity: 100,
        rule_yearly_capacity: 500,
    }
}

fn parties(owner: u8, manager: u8) -> LockParties {
    LockParties { owner_type: 3, owner_args: vec![owner], manager_type: 3, manager_args: vec![manager] }
}

fn records_edit() -> SubActionWitness {
    SubActionWitness::Edit {
        kind: EditKind::Records,
        status: AccountStatus::Normal,
        current: Ok(parties(1, 1)),
        new: Ok(parties(1, 1)),
        records_keys: Ok(()),
        unlock_role_check: Ok(()),
        sign_check: Ok(()),
        expiration_check: Ok(()),
    }
}

fn expired_recycle() -> SubActionWitness {
    SubActionWitness::Recycle { status: AccountStatus::Normal, expiration: SubAccountExpiration::Expired }
}

#[test]
fn witnesses_are_counted_in_order() {
    let steps = vec![
        step(SubActionWitness::Create(create(true)), 0, 1),
        step(records_edit(), 1, 2),
        step(SubActionWitness::Create(create(false)), 2, 3),
        step(expired_recycle(), 3, 4),
        step(SubActionWitness::Renew(renew_by_other()), 4, 5),
    ];
    let t = run_sub_actions(NOW, &das_lock(), &Some(root(0)), &Some(root(5)), &steps).unwrap();
    assert_eq!(
        t,
        ProfitTally {
            minimal_required_das_profit: 300,
            profit_total: 800,
            profit_from_manual_mint: 100,
            profit_from_manual_renew: 0,
            profit_from_manual_renew_by_other: 200,
        }
    );
    assert_eq!(run_sub_actions(NOW, &das_lock(), &Some(root(0)), &Some(root(7)), &vec![]).unwrap().profit_total, 0);
}

#[test]
fn the_first_refused_witness_stops_the_count() {
    let mut preserved = create(false);
    preserved.preserved = RuleMatch::Matched(0);
    let mut unpriced = create(false);
    unpriced.price = RuleMatch::NoMatch;
    let steps = vec![
        step(SubActionWitness::Create(create(true)), 0, 1),
        step(SubActionWitness::Create(preserved), 1, 2),
        step(SubActionWitness::Create(unpriced), 2, 3),
    ];
    assert_eq!(
        run_sub_actions(NOW, &das_lock(), &Some(root(0)), &Some(root(3)), &steps),
        Err(DasError::SubAccountCell(SubAccountCellErrorCode::AccountIsPreserved))
    );
    let steps = vec![
        step(SubActionWitness::Recycle { status: AccountStatus::Normal, expiration: SubAccountExpiration::InGracePeriod }, 0, 1),
        step(SubActionWitness::Create(create(true)), 1, 2),
    ];
    assert_eq!(
        run_sub_actions(NOW, &das_lock(), &Some(root(0)), &Some(root(2)), &steps),
        Err(DasError::SubAccountCell(SubAccountCellErrorCode::AccountStillCanNotBeRecycled))
    );
    let mut short = create(true);
    short.expired_at = NOW + YEAR_SEC - DAY_SEC;
    assert_eq!(
        run_sub_actions(NOW, &das_lock(), &Some(root(0)), &Some(root(1)), &vec![step(SubActionWitness::Create(short), 0, 1)]),
        Err(DasError::SubAccountCell(SubAccountCellErrorCode::ExpirationYearsTooShort))
    );
}

#[test]
fn each_witness_is_proved_from_the_root_the_one_before_left() {
    let proof_failed = Err(DasError::Common(ErrorCode::SMTProofVerifyFailed));
    // The first witness starts from the root in the inputs.
    let steps = vec![step(SubActionWitness::Create(create(true)), 9, 1)];
    assert_eq!(run_sub_actions(NOW, &das_lock(), &Some(root(0)), &Some(root(1)), &steps), proof_failed);
    // The second starts from the root the first left, not from the one in the inputs.
    let steps = vec![step(records_edit(), 0, 1), step(records_edit(), 0, 2)];
    assert_eq!(run_sub_actions(NOW, &das_lock(), &Some(root(0)), &Some(root(2)), &steps), proof_failed);
    // A proof must lead to the root the witness claims to leave.
    let mut off = step(records_edit(), 0, 1);
    off.new_root = root(8);
    assert_eq!(run_sub_actions(NOW, &das_lock(), &Some(root(0)), &Some(root(8)), &vec![off]), proof_failed);
    // A proof that computes no root proves nothing.
    let mut broken = step(expired_recycle(), 0, 1);
    broken.proof.with_value_after = None;
    assert_eq!(run_sub_actions(NOW, &das_lock(), &Some(root(0)), &Some(root(1)), &vec![broken]), proof_failed);
    // The last witness must leave the root in the outputs.
    let steps = vec![step(records_edit(), 0, 1), step(records_edit(), 1, 2)];
    assert_eq!(
        run_sub_actions(NOW, &das_lock(), &Some(root(0)), &Some(root(1)), &steps),
        Err(DasError::SubAccountCell(SubAccountCellErrorCode::SubAccountWitnessMismatched))
    );
    // Both SubAccountCells must hold a root.
    assert_eq!(
        run_sub_actions(NOW, &das_lock(), &None, &Some(root(2)), &steps),
        Err(DasError::Common(ErrorCode::InvalidCellData))
    );
    assert_eq!(
        run_sub_actions(NOW, &das_lock(), &Some(root(0)), &None, &steps),
        Err(DasError::Common(ErrorCode::InvalidCellData))
    );
    // A recycling checks status and expiry before its proof.
    let steps = vec![step(SubActionWitness::Recycle { status: AccountStatus::Normal, expiration: SubAccountExpiration::NotExpired }, 5, 1)];
    assert_eq!(
        run_sub_actions(NOW, &das_lock(), &Some(root(0)), &Some(root(1)), &steps),
        Err(DasError::SubAccountCell(SubAccountCellErrorCode::AccountStillCanNotBeRecycled))
    );
}

#[test]
fn proofs_are_checked_with_the_values_of_the_action() {
    assert_eq!(smt_values(SubAccountAction::Create), (SmtValue::Zero, SmtValue::WitnessSubAccount));
    assert_eq!(smt_values(SubAccountAction::Recycle), (SmtValue::WitnessSubAccount, SmtValue::Zero));
    assert_eq!(smt_values(SubAccountAction::Renew), (SmtValue::WitnessSubAccount, SmtValue::NewSubAccount));
    assert_eq!(smt_values(SubAccountAction::Edit), (SmtValue::WitnessSubAccount, SmtValue::NewSubAccount));
}

fn approval(protected_until: u64, sealed_until: u64, delay: u8) -> TransferApproval {
    TransferApproval {
        platform_lock: Script { code_hash: vec![0xda; 32], hash_type: 1, args: vec![3, 7] },
        protected_until,
        sealed_until,
        delay_count_remain: delay,
        to_lock: Script { code_hash: vec![0xda; 32], hash_type: 1, args: vec![5, 5] },
    }
}

fn sub_account(expired_at: u64, approval: AccountApproval, status: AccountStatus) -> SubAccount {
    SubAccount {
        lock: Script { code_hash: vec![0xda; 32], hash_type: 1, args: vec![3, 1, 3, 1] },
        id: vec![9; 20],
        account: b"alice".to_vec(),
        suffix: b".xyz.bit".to_vec(),
        registered_at: 100,
        expired_at,
        status,
        records: vec![],
        nonce: 1,
        enable_sub_account: 0,
        renew_sub_account_price: 0,
        approval,
    }
}

#[test]
fn each_witness_is_checked_by_its_action() {
    let r = root(0);
    let mut action = SubAction::new(NOW, das_lock());
    let create = SubActionWitness::CreateApproval {
        is_transfer: true,
        sub_account: sub_account(NOW + 100 * DAY_SEC, AccountApproval::Empty, AccountStatus::Normal),
        new_approval: AccountApproval::Transfer(approval(NOW + DAY_SEC, NOW + 2 * DAY_SEC, 1)),
        unlock_role_check: Ok(()),
        sign_check: Ok(()),
    };
    assert_eq!(action.dispatch(&step(create, 0, 0), &r), Ok(()));
    let not_transfer = SubActionWitness::DelayApproval {
        is_transfer: false,
        prev: AccountApproval::Empty,
        delayed: AccountApproval::Empty,
        unlock_role_check: Ok(()),
        sign_check: Ok(()),
    };
    assert_eq!(
        action.dispatch(&step(not_transfer, 0, 0), &r),
        Err(DasError::SubAccountCell(SubAccountCellErrorCode::ApprovalActionUndefined))
    );
    let delay = SubActionWitness::DelayApproval {
        is_transfer: true,
        prev: AccountApproval::Transfer(approval(NOW + DAY_SEC, NOW + 2 * DAY_SEC, 1)),
        delayed: AccountApproval::Transfer(approval(NOW + DAY_SEC, NOW + 3 * DAY_SEC, 0)),
        unlock_role_check: Ok(()),
        sign_check: Ok(()),
    };
    assert_eq!(action.dispatch(&step(delay, 0, 0), &r), Ok(()));
    let early_revoke = SubActionWitness::RevokeApproval {
        is_transfer: true,
        prev: AccountApproval::Transfer(approval(NOW + DAY_SEC, NOW + 3 * DAY_SEC, 0)),
        new_sub_account: sub_account(NOW + 100 * DAY_SEC, AccountApproval::Empty, AccountStatus::Normal),
        sign_check: Ok(()),
    };
    assert_eq!(
        action.dispatch(&step(early_revoke, 0, 0), &r),
        Err(DasError::SubAccountCell(SubAccountCellErrorCode::ApprovalInProtectionPeriod))
    );
    assert_eq!(
        action.dispatch(&step(SubActionWitness::FulfillApproval { is_transfer: true, params_decode: true, sealed_until: 0, sign_check: Ok(()) }, 0, 0), &r),
        Ok(())
    );
    assert_eq!(
        action.dispatch(&step(SubActionWitness::FulfillApproval { is_transfer: true, params_decode: false, sealed_until: 0, sign_check: Ok(()) }, 0, 0), &r),
        Err(DasError::SubAccountCell(SubAccountCellErrorCode::WitnessParsingError))
    );
    let locked_edit = SubActionWitness::Edit {
        kind: EditKind::Owner,
        status: AccountStatus::ApprovedTransfer,
        current: Ok(parties(1, 1)),
        new: Ok(parties(2, 2)),
        records_keys: Ok(()),
        unlock_role_check: Ok(()),
        sign_check: Ok(()),
        expiration_check: Ok(()),
    };
    assert_eq!(
        action.dispatch(&step(locked_edit, 0, 0), &r),
        Err(DasError::SubAccountCell(SubAccountCellErrorCode::AccountStatusError))
    );
    let owner_edit = SubActionWitness::Edit {
        kind: EditKind::Owner,
        status: AccountStatus::Normal,
        current: Ok(parties(1, 1)),
        new: Ok(parties(2, 2)),
        records_keys: Ok(()),
        unlock_role_check: Ok(()),
        sign_check: Ok(()),
        expiration_check: Ok(()),
    };
    assert_eq!(action.dispatch(&step(owner_edit, 0, 0), &r), Ok(()));
    // New lock arguments that do not read are refused before the proof is looked at.
    let unreadable = SubActionWitness::Edit {
        kind: EditKind::Manager,
        status: AccountStatus::Normal,
        current: Ok(parties(1, 1)),
        new: Err(DasError::Common(ErrorCode::InvalidTransactionStructure)),
        records_keys: Ok(()),
        unlock_role_check: Ok(()),
        sign_check: Ok(()),
        expiration_check: Ok(()),
    };
    assert_eq!(action.dispatch(&step(unreadable, 9, 0), &r), Err(DasError::Common(ErrorCode::InvalidTransactionStructure)));
    let bad_keys = SubActionWitness::Edit {
        kind: EditKind::Records,
        status: AccountStatus::ApprovedTransfer,
        current: Ok(parties(1, 1)),
        new: Ok(parties(1, 1)),
        records_keys: Err(DasError::Common(ErrorCode::InvalidTransactionStructure)),
        unlock_role_check: Ok(()),
        sign_check: Ok(()),
        expiration_check: Ok(()),
    };
    assert_eq!(action.dispatch(&step(bad_keys, 0, 0), &r), Err(DasError::Common(ErrorCode::InvalidTransactionStructure)));
    let locked_recycle = SubActionWitness::Recycle { status: AccountStatus::LockedForCrossChain, expiration: SubAccountExpiration::Expired };
    assert_eq!(
        action.dispatch(&step(locked_recycle, 0, 0), &r),
        Err(DasError::SubAccountCell(SubAccountCellErrorCode::AccountStatusError))
    );
    let odd = SubActionWitness::Recycle { status: AccountStatus::Normal, expiration: SubAccountExpiration::OtherError };
    assert_eq!(action.dispatch(&step(odd, 0, 0), &r), Err(DasError::Common(ErrorCode::HardCodedError)));
    assert_eq!(action.tally.profit_total, 0);
    assert_eq!(
        action.dispatch(&step(SubActionWitness::Create(create_facts_manual()), 1, 0), &r),
        Err(DasError::Common(ErrorCode::SMTProofVerifyFailed))
    );
    assert_eq!(action.tally.profit_total, 0);
    assert_eq!(action.dispatch(&step(SubActionWitness::Create(create_facts_manual()), 0, 0), &r), Ok(()));
    assert_eq!(action.tally.profit_from_manual_mint, 100);
}

#[test]
fn every_witness_passes_the_checks_the_contract_takes_in() {
    let r = root(0);
    let refused = Err(DasError::Common(ErrorCode::InvalidTransactionStructure));
    let mut action = SubAction::new(NOW, das_lock());
    // The suffix of the sub-account is checked first, before the proof.
    let mut wrong_suffix = step(records_edit(), 7, 0);
    wrong_suffix.suffix_check = refused;
    assert_eq!(action.dispatch(&wrong_suffix, &r), refused);
    // An edit needs the right role, a fresh signature and a sub-account that has not expired.
    let edit = |unlock: Result<(), DasError>, sign: Result<(), DasError>, expiration: Result<(), SubAccountCellErrorCode>| {
        SubActionWitness::Edit {
            kind: EditKind::Owner,
            status: AccountStatus::Normal,
            current: Ok(parties(1, 1)),
            new: Ok(parties(2, 2)),
            records_keys: Ok(()),
            unlock_role_check: unlock,
            sign_check: sign,
            expiration_check: expiration,
        }
    };
    assert_eq!(action.dispatch(&step(edit(refused, Ok(()), Ok(())), 0, 0), &r), refused);
    assert_eq!(action.dispatch(&step(edit(Ok(()), refused, Ok(())), 0, 0), &r), refused);
    assert_eq!(
        action.dispatch(&step(edit(Ok(()), Ok(()), Err(SubAccountCellErrorCode::AccountHasExpired)), 0, 0), &r),
        Err(DasError::SubAccountCell(SubAccountCellErrorCode::AccountHasExpired))
    );
    assert_eq!(
        action.dispatch(&step(edit(Ok(()), Ok(()), Err(SubAccountCellErrorCode::AccountHasInGracePeriod)), 0, 0), &r),
        Err(DasError::SubAccountCell(SubAccountCellErrorCode::AccountHasInGracePeriod))
    );
    assert_eq!(action.dispatch(&step(edit(Ok(()), Ok(()), Ok(())), 0, 0), &r), Ok(()));
    // Approvals need their signature checks too.
    let create = SubActionWitness::CreateApproval {
        is_transfer: true,
        sub_account: sub_account(NOW + 100 * DAY_SEC, AccountApproval::Empty, AccountStatus::Normal),
        new_approval: AccountApproval::Transfer(approval(NOW + DAY_SEC, NOW + 2 * DAY_SEC, 1)),
        unlock_role_check: refused,
        sign_check: Ok(()),
    };
    assert_eq!(action.dispatch(&step(create, 0, 0), &r), refused);
    let revoke = SubActionWitness::RevokeApproval {
        is_transfer: true,
        prev: AccountApproval::Transfer(approval(NOW - 2 * DAY_SEC, NOW - DAY_SEC, 0)),
        new_sub_account: sub_account(NOW + 100 * DAY_SEC, AccountApproval::Empty, AccountStatus::Normal),
        sign_check: refused,
    };
    assert_eq!(action.dispatch(&step(revoke, 0, 0), &r), refused);
    // A sealed approval needs the owner's signature to be fulfilled; a released one does not.
    let sealed = SubActionWitness::FulfillApproval { is_transfer: true, params_decode: true, sealed_until: NOW, sign_check: refused };
    assert_eq!(action.dispatch(&step(sealed, 0, 0), &r), refused);
    let released = SubActionWitness::FulfillApproval { is_transfer: true, params_decode: true, sealed_until: NOW - 1, sign_check: refused };
    assert_eq!(action.dispatch(&step(released, 0, 0), &r), Ok(()));
}

fn create_facts_manual() -> CreateFacts {
    create(true)
}

fn balance(capacity: u64, das_profit: u64, owner_profit: u64) -> SubAccountCellBalance {
    SubAccountCellBalance { capacity, das_profit, owner_profit }
}

fn tally(minimal: u64, total: u64, mint: u64, by_other: u64) -> ProfitTally {
    ProfitTally {
        minimal_required_das_profit: minimal,
        profit_total: total,
        profit_from_manual_mint: mint,
        profit_from_manual_renew: 0,
        profit_from_manual_renew_by_other: by_other,
    }
}

fn facts(flag: SubAccountConfigFlag, input: SubAccountCellBalance, output: SubAccountCellBalance) -> SettleFacts {
    SettleFacts {
        flag,
        other_inputs_check: Ok(()),
        sender_input_capacity: 0,
        sender_output_capacity: 0,
        fee_paid_by_sub_account_cell: true,
        common_fee: 10,
        profit_rate: 2000,
        input,
        output,
        input_lock_hashes: vec![vec![0xaa], vec![1]],
        input_sub_account_cell: 0,
        output_lock_hashes: vec![vec![0xaa], vec![1]],
        output_sub_account_cell: 0,
    }
}

#[test]
fn das_profit_is_settled_by_mode() {
    let t = tally(100, 800, 100, 0);
    assert_eq!(settle_sub_account_profits(t, &facts(SubAccountConfigFlag::Manual, balance(0, 50, 0), balance(0, 850, 0))), Ok(()));
    assert_eq!(
        settle_sub_account_profits(t, &facts(SubAccountConfigFlag::Manual, balance(0, 50, 0), balance(0, 849, 0))),
        Err(DasError::SubAccountCell(SubAccountCellErrorCode::SubAccountProfitError))
    );
    assert_eq!(
        settle_sub_account_profits(t, &facts(SubAccountConfigFlag::CustomRule, balance(0, 50, 0), balance(0, 850, 0))),
        Ok(())
    );
    assert_eq!(
        settle_sub_account_profits(t, &facts(SubAccountConfigFlag::CustomRule, balance(0, 50, 0), balance(0, 851, 0))),
        Err(DasError::SubAccountCell(SubAccountCellErrorCode::SubAccountProfitError))
    );
    // Custom script: DAS gets 20% of the 1000 gained, which is above its minimum of 100.
    assert_eq!(
        settle_sub_account_profits(t, &facts(SubAccountConfigFlag::CustomScript, balance(0, 0, 0), balance(0, 200, 800))),
        Ok(())
    );
    assert_eq!(
        settle_sub_account_profits(t, &facts(SubAccountConfigFlag::CustomScript, balance(0, 0, 0), balance(0, 150, 850))),
        Err(DasError::SubAccountCell(SubAccountCellErrorCode::SubAccountProfitError))
    );
    let mut two_locks = facts(SubAccountConfigFlag::CustomScript, balance(0, 0, 0), balance(0, 200, 800));
    two_locks.output_lock_hashes = vec![vec![0xaa], vec![2]];
    assert_eq!(
        settle_sub_account_profits(t, &two_locks),
        Err(DasError::SubAccountCell(SubAccountCellErrorCode::SubAccountNormalCellLockLimit))
    );
}

#[test]
fn the_sender_pays_no_more_than_the_manual_fees() {
    let t = tally(100, 800, 100, 0);
    let mut f = facts(SubAccountConfigFlag::Manual, balance(0, 0, 0), balance(0, 800, 0));
    f.sender_input_capacity = 1000;
    f.sender_output_capacity = 900;
    assert_eq!(settle_sub_account_profits(t, &f), Ok(()));
    f.sender_output_capacity = 899;
    assert_eq!(
        settle_sub_account_profits(t, &f),
        Err(DasError::SubAccountCell(SubAccountCellErrorCode::SenderCapacityOverCost))
    );
    f.fee_paid_by_sub_account_cell = false;
    assert_eq!(settle_sub_account_profits(t, &f), Ok(()));
}

#[test]
fn renewals_paid_by_others_only_spend_expected_cells() {
    let t = tally(200, 200, 0, 200);
    let mut f = facts(SubAccountConfigFlag::Manual, balance(0, 0, 0), balance(0, 200, 0));
    assert_eq!(settle_sub_account_profits(t, &f), Ok(()));
    f.other_inputs_check = Err(DasError::Common(ErrorCode::InvalidTransactionStructure));
    assert_eq!(settle_sub_account_profits(t, &f), Err(DasError::Common(ErrorCode::InvalidTransactionStructure)));
    let t2 = tally(0, 0, 0, 0);
    let f2 = facts(SubAccountConfigFlag::Manual, balance(0, 0, 0), balance(0, 0, 0));
    let mut f3 = f2;
    f3.other_inputs_check = Err(DasError::Common(ErrorCode::InvalidTransactionStructure));
    assert_eq!(settle_sub_account_profits(t2, &f3), Ok(()));
}
