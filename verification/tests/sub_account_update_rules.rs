use did_contracts::error::{DasError, ErrorCode, SubAccountCellErrorCode};
use did_contracts::sub_account::SubAccountConfigFlag;
use did_contracts::sub_account_update::{
    collect_changeable_fields, config_changeable_fields, config_custom_script, update_changeable_fields, ChangeableFields, ConfigChangeableFields, decide_signs, verify_das_lock_inputs, verify_latest_sub_account_root, verify_recycle_status,
    verify_sub_account_config, verify_sub_account_edit, verify_there_is_only_one_lock_for_normal_cells, EditKind,
    LockParties, LockRole, SignDecision,
};
use did_contracts::types::AccountStatus;

#[test]
fn signatures_decide_the_sender_role() {
    assert_eq!(
        decide_signs(true, false, Some(Some(LockRole::Manager)), None),
        Ok(SignDecision { sign_verified: true, sender_role: Some(LockRole::Manager) })
    );
    assert_eq!(
        decide_signs(true, true, Some(None), Some(Some(LockRole::Owner))),
        Ok(SignDecision { sign_verified: true, sender_role: Some(LockRole::Owner) })
    );
    assert_eq!(
        decide_signs(true, false, None, None),
        Ok(SignDecision { sign_verified: false, sender_role: None })
    );
    assert_eq!(
        decide_signs(true, false, None, Some(Some(LockRole::Owner))),
        Err(SubAccountCellErrorCode::SubAccountRenewSignIsNotAllowed)
    );
    assert_eq!(
        decide_signs(true, true, Some(Some(LockRole::Owner)), Some(Some(LockRole::Manager))),
        Err(SubAccountCellErrorCode::MultipleSignRolesIsNotAllowed)
    );
}

#[test]
fn das_lock_inputs_must_be_the_senders() {
    assert_eq!(verify_das_lock_inputs(true, &vec![1, 2], &vec![1, 2]), Ok(()));
    assert_eq!(
        verify_das_lock_inputs(true, &vec![1, 2], &vec![1]),
        Err(SubAccountCellErrorCode::SomeCellWithDasLockMayBeAbused)
    );
    assert_eq!(verify_das_lock_inputs(false, &vec![], &vec![1]), Ok(()));
    assert_eq!(
        verify_das_lock_inputs(false, &vec![3], &vec![3]),
        Err(SubAccountCellErrorCode::SomeCellWithDasLockMayBeAbused)
    );
}

#[test]
fn latest_root_is_the_last_new_root() {
    assert_eq!(verify_latest_sub_account_root(&vec![vec![1], vec![2]], &[2]), Ok(()));
    assert_eq!(verify_latest_sub_account_root(&vec![], &[9]), Ok(()));
    assert_eq!(
        verify_latest_sub_account_root(&vec![vec![1], vec![2]], &[1]),
        Err(SubAccountCellErrorCode::SubAccountWitnessMismatched)
    );
}

#[test]
fn sub_account_config_needs_readable_rules() {
    let empty = Some(vec![0u8; 10]);
    let some = Some(vec![1u8; 10]);
    assert_eq!(verify_sub_account_config(Ok(()), Some(SubAccountConfigFlag::Manual), Ok(()), &None, None, &None, None), Ok(()));
    assert_eq!(verify_sub_account_config(Ok(()), Some(SubAccountConfigFlag::CustomRule), Ok(()), &empty, None, &empty, None), Ok(()));
    assert_eq!(verify_sub_account_config(Ok(()), Some(SubAccountConfigFlag::CustomRule), Ok(()), &some, Some(true), &empty, None), Ok(()));
    assert_eq!(
        verify_sub_account_config(Ok(()), Some(SubAccountConfigFlag::CustomRule), Ok(()), &some, None, &empty, None),
        Err(DasError::SubAccountCell(SubAccountCellErrorCode::ConfigRulesHashMismatch))
    );
    assert_eq!(
        verify_sub_account_config(Ok(()), Some(SubAccountConfigFlag::CustomRule), Ok(()), &empty, None, &some, Some(false)),
        Err(DasError::SubAccountCell(SubAccountCellErrorCode::ConfigRulesHasSyntaxError))
    );
    assert_eq!(
        verify_sub_account_config(Ok(()), Some(SubAccountConfigFlag::CustomScript), Ok(()), &None, None, &None, None),
        Err(DasError::SubAccountCell(SubAccountCellErrorCode::ConfigFlagInvalid))
    );
    assert_eq!(verify_sub_account_config(Ok(()), None, Ok(()), &None, None, &None, None), Err(DasError::Common(ErrorCode::HardCodedError)));
    // The data must pass the check of its mode, and the rest of the cell must stay.
    let failed = Err(DasError::Common(ErrorCode::InvalidTransactionStructure));
    assert_eq!(verify_sub_account_config(Ok(()), Some(SubAccountConfigFlag::Manual), failed, &None, None, &None, None), failed);
    assert_eq!(
        verify_sub_account_config(Ok(()), Some(SubAccountConfigFlag::CustomRule), failed, &some, Some(false), &empty, None),
        failed
    );
    assert_eq!(verify_sub_account_config(failed, None, Ok(()), &None, None, &None, None), failed);
}

#[test]
fn custom_script_changes_keep_the_rest_of_the_cell() {
    let failed = Err(DasError::Common(ErrorCode::InvalidTransactionStructure));
    assert_eq!(config_custom_script(&Some(vec![1]), &Some(vec![2]), &None, &None, Ok(())), Ok(()));
    assert_eq!(config_custom_script(&Some(vec![1]), &Some(vec![2]), &None, &None, failed), failed);
    assert_eq!(
        config_custom_script(&Some(vec![1]), &Some(vec![1]), &None, &None, Ok(())),
        Err(DasError::SubAccountCell(SubAccountCellErrorCode::SubAccountCustomScriptError))
    );
    assert_eq!(
        config_changeable_fields(true),
        ConfigChangeableFields {
            flag: true,
            custom_rule_status_flag: false,
            price_rules: false,
            preserved_rules: false,
            custom_script: true,
            custom_script_args: true,
        }
    );
    assert_eq!(
        config_changeable_fields(false),
        ConfigChangeableFields {
            flag: true,
            custom_rule_status_flag: true,
            price_rules: true,
            preserved_rules: true,
            custom_script: false,
            custom_script_args: false,
        }
    );
}

fn parties(owner: u8, manager: u8) -> LockParties {
    LockParties { owner_type: 3, owner_args: vec![owner], manager_type: 3, manager_args: vec![manager] }
}

#[test]
fn edits_must_change_the_right_party() {
    assert_eq!(verify_sub_account_edit(EditKind::Owner, AccountStatus::Normal, &parties(1, 1), &parties(2, 2), Ok(())), Ok(()));
    assert_eq!(
        verify_sub_account_edit(EditKind::Owner, AccountStatus::Normal, &parties(1, 1), &parties(1, 2), Ok(())),
        Err(DasError::SubAccountCell(SubAccountCellErrorCode::SubAccountEditLockError))
    );
    assert_eq!(
        verify_sub_account_edit(EditKind::Owner, AccountStatus::ApprovedTransfer, &parties(1, 1), &parties(2, 2), Ok(())),
        Err(DasError::SubAccountCell(SubAccountCellErrorCode::AccountStatusError))
    );
    assert_eq!(verify_sub_account_edit(EditKind::Manager, AccountStatus::Normal, &parties(1, 1), &parties(1, 2), Ok(())), Ok(()));
    assert_eq!(
        verify_sub_account_edit(EditKind::Manager, AccountStatus::Normal, &parties(1, 1), &parties(2, 2), Ok(())),
        Err(DasError::SubAccountCell(SubAccountCellErrorCode::SubAccountEditLockError))
    );
    assert_eq!(
        verify_sub_account_edit(EditKind::Manager, AccountStatus::Normal, &parties(1, 1), &parties(1, 1), Ok(())),
        Err(DasError::SubAccountCell(SubAccountCellErrorCode::SubAccountEditLockError))
    );
    assert_eq!(
        verify_sub_account_edit(EditKind::Records, AccountStatus::ApprovedTransfer, &parties(1, 1), &parties(1, 1), Ok(())),
        Ok(())
    );
    assert_eq!(
        verify_sub_account_edit(EditKind::Records, AccountStatus::Selling, &parties(1, 1), &parties(1, 1), Ok(())),
        Err(DasError::SubAccountCell(SubAccountCellErrorCode::AccountStatusError))
    );
    assert_eq!(
        verify_sub_account_edit(EditKind::Other, AccountStatus::Normal, &parties(1, 1), &parties(1, 1), Ok(())),
        Err(DasError::SubAccountCell(SubAccountCellErrorCode::SubAccountFieldNotEditable))
    );
    // The keys of new records must pass their check; the lock edits do not read it.
    let bad_keys = Err(DasError::Common(ErrorCode::InvalidTransactionStructure));
    assert_eq!(
        verify_sub_account_edit(EditKind::Records, AccountStatus::Normal, &parties(1, 1), &parties(1, 1), bad_keys),
        bad_keys
    );
    assert_eq!(verify_sub_account_edit(EditKind::Owner, AccountStatus::Normal, &parties(1, 1), &parties(2, 2), bad_keys), Ok(()));
}

#[test]
fn recycled_sub_accounts_must_not_be_locked() {
    assert_eq!(verify_recycle_status(AccountStatus::Normal), Ok(()));
    assert_eq!(verify_recycle_status(AccountStatus::LockedForCrossChain), Err(SubAccountCellErrorCode::AccountStatusError));
}

#[test]
fn normal_cells_share_one_lock() {
    let inputs = vec![vec![1u8], vec![9u8], vec![1u8]];
    let outputs = vec![vec![9u8], vec![1u8]];
    assert_eq!(verify_there_is_only_one_lock_for_normal_cells(&inputs, 1, &outputs, 0), Ok(()));
    assert_eq!(
        verify_there_is_only_one_lock_for_normal_cells(&inputs, 0, &outputs, 0),
        Err(SubAccountCellErrorCode::SubAccountNormalCellLockLimit)
    );
    assert_eq!(verify_there_is_only_one_lock_for_normal_cells(&vec![vec![9u8]], 0, &vec![vec![9u8]], 0), Ok(()));
}

#[test]
fn transactions_change_only_their_fields_of_the_sub_account_cell() {
    let all = ChangeableFields { smt_root: true, das_profit: true, owner_profit: true };
    let paid = ChangeableFields { smt_root: true, das_profit: true, owner_profit: false };
    let root_only = ChangeableFields { smt_root: true, das_profit: false, owner_profit: false };
    let nothing = ChangeableFields { smt_root: false, das_profit: false, owner_profit: false };
    assert_eq!(update_changeable_fields(true, false, true, false, SubAccountConfigFlag::CustomScript), all);
    assert_eq!(update_changeable_fields(false, true, false, false, SubAccountConfigFlag::CustomRule), paid);
    assert_eq!(update_changeable_fields(true, false, false, false, SubAccountConfigFlag::Manual), paid);
    assert_eq!(update_changeable_fields(false, false, true, false, SubAccountConfigFlag::CustomScript), root_only);
    assert_eq!(update_changeable_fields(false, false, false, true, SubAccountConfigFlag::Manual), root_only);
    assert_eq!(update_changeable_fields(false, false, false, false, SubAccountConfigFlag::Manual), nothing);
    assert_eq!(collect_changeable_fields(false), ChangeableFields { smt_root: false, das_profit: true, owner_profit: true });
    assert_eq!(collect_changeable_fields(true), ChangeableFields { smt_root: false, das_profit: true, owner_profit: false });
}
