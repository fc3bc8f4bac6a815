use did_contracts::cell_rules::{
    plan_balance_cell, required_type_script, BalanceCellPlan, CellSide, RequiredTypeScript, get_config_id, verify_apply_register_data, verify_cancel_on_sale, verify_config_cells, verify_create_wallet,
    verify_if_only_capacity_increased, verify_on_sale_args, verify_refund_apply, verify_start_on_sale,
    verify_withdraw, ApplyRefund, ConfigCellPair,
};
use did_contracts::error::ErrorCode;
use did_contracts::types::ONE_CKB;

#[test]
fn wallet_creation_needs_the_maker_and_always_success_locks() {
    let ok = vec![vec![7u8; 32], vec![7u8; 32]];
    assert_eq!(verify_create_wallet(true, 0, &ok, &[7u8; 32]), Ok(()));
    assert_eq!(verify_create_wallet(false, 0, &ok, &[7u8; 32]), Err(ErrorCode::WalletRequireWalletMakerLock));
    assert_eq!(verify_create_wallet(true, 1, &ok, &[7u8; 32]), Err(ErrorCode::WalletFoundInvalidTransaction));
    assert_eq!(verify_create_wallet(true, 0, &vec![], &[7u8; 32]), Err(ErrorCode::WalletFoundInvalidTransaction));
    let bad = vec![vec![7u8; 32], vec![8u8; 32]];
    assert_eq!(verify_create_wallet(true, 0, &bad, &[7u8; 32]), Err(ErrorCode::WalletRequireAlwaysSuccess));
}

#[test]
fn withdrawal_needs_the_owner_of_the_account() {
    assert_eq!(verify_withdraw(1, 1, &[1], &[1], &[1], &[9], &[9]), Ok(()));
    assert_eq!(verify_withdraw(2, 1, &[1], &[1], &[1], &[9], &[9]), Err(ErrorCode::WalletFoundInvalidTransaction));
    assert_eq!(verify_withdraw(1, 1, &[1], &[2], &[1], &[9], &[9]), Err(ErrorCode::WalletPermissionInvalid));
    assert_eq!(verify_withdraw(1, 1, &[1], &[1], &[2], &[9], &[9]), Err(ErrorCode::WalletPermissionInvalid));
    assert_eq!(verify_withdraw(1, 1, &[1], &[1], &[1], &[9], &[8]), Err(ErrorCode::WalletPermissionInvalid));
}

#[test]
fn growing_cells_come_in_pairs_and_stop_at_the_first_failure() {
    assert_eq!(verify_if_only_capacity_increased(2, 2, &vec![Ok(()), Ok(())]), Ok(()));
    assert_eq!(verify_if_only_capacity_increased(2, 3, &vec![]), Err(ErrorCode::CellsMustHaveSameOrderAndNumber));
    assert_eq!(
        verify_if_only_capacity_increased(3, 3, &vec![Ok(()), Err(ErrorCode::ChangeError), Err(ErrorCode::InvalidCellData)]),
        Err(ErrorCode::ChangeError)
    );
}

#[test]
fn apply_register_data_is_a_hash() {
    assert_eq!(verify_apply_register_data(&[0u8; 32]), Ok(()));
    assert_eq!(verify_apply_register_data(&[0u8; 31]), Err(ErrorCode::InvalidCellData));
}

fn apply(lock: u8, since: u64, capacity: u64) -> ApplyRefund {
    ApplyRefund { lock: vec![lock], since, capacity }
}

#[test]
fn apply_refund_returns_all_but_one_ckb() {
    let since = 0x8000_0000_0000_0000u64 + 5760;
    let cells = vec![apply(1, since, 200 * ONE_CKB), apply(1, since, 100 * ONE_CKB)];
    assert_eq!(verify_refund_apply(&cells, 0, 5760, &vec![299 * ONE_CKB]), Ok(()));
    assert_eq!(
        verify_refund_apply(&cells, 0, 5760, &vec![299 * ONE_CKB - 1]),
        Err(ErrorCode::ApplyRegisterRefundCapacityError)
    );
    assert_eq!(verify_refund_apply(&cells, 1, 5760, &vec![]), Err(ErrorCode::InvalidTransactionStructure));
    let two_locks = vec![apply(1, since, 200 * ONE_CKB), apply(2, since, 100 * ONE_CKB)];
    assert_eq!(verify_refund_apply(&two_locks, 0, 5760, &vec![]), Err(ErrorCode::ApplyLockMustBeUnique));
    let early = vec![apply(1, since, 200 * ONE_CKB), apply(1, since - 1, 100 * ONE_CKB)];
    assert_eq!(verify_refund_apply(&early, 0, 5760, &vec![]), Err(ErrorCode::ApplyRegisterSinceMismatch));
}

#[test]
fn on_sale_cell_names_its_account() {
    assert_eq!(verify_on_sale_args(&vec![vec![4, 4]], &[4, 4]), Ok(()));
    assert_eq!(verify_on_sale_args(&vec![vec![4, 4]], &[4, 5]), Err(ErrorCode::OnSaleCellArgsInvalid));
    assert_eq!(verify_on_sale_args(&vec![], &[4, 4]), Err(ErrorCode::OnSaleCellAccountCellMustOne));
}

#[test]
fn start_and_cancel_on_sale() {
    let ids = vec![vec![4u8, 4]];
    assert_eq!(verify_start_on_sale(0, 1, &ids, &[4, 4], 100, 10_000_000_000, 100), Ok(()));
    assert_eq!(verify_start_on_sale(1, 1, &ids, &[4, 4], 100, 10_000_000_000, 100), Err(ErrorCode::OnSaleCellNumberInvalid));
    assert_eq!(
        verify_start_on_sale(0, 1, &ids, &[4, 4], 99, 10_000_000_000, 100),
        Err(ErrorCode::OnSaleCellStartedAtInvalid)
    );
    assert_eq!(verify_start_on_sale(0, 1, &ids, &[4, 4], 100, 9_999_999_999, 100), Err(ErrorCode::OnSaleCellPriceTooSmall));
    assert_eq!(verify_cancel_on_sale(1, 0, &ids, &[4, 4]), Ok(()));
    assert_eq!(verify_cancel_on_sale(1, 1, &ids, &[4, 4]), Err(ErrorCode::OnSaleCellNumberInvalid));
}

#[test]
fn config_id_is_read_little_endian() {
    let defined = vec![100u32, 0x0102_0304];
    assert_eq!(get_config_id(&[4, 3, 2, 1], &defined), Ok(0x0102_0304));
    assert_eq!(get_config_id(&[100, 0, 0, 0], &defined), Ok(100));
    assert_eq!(get_config_id(&[101, 0, 0, 0], &defined), Err(ErrorCode::ConfigIDIsUndefined));
    assert_eq!(get_config_id(&[100, 0, 0], &defined), Err(ErrorCode::Encoding));
}

#[test]
fn config_cells_need_the_super_lock_and_known_ids() {
    let defined = vec![100u32, 101];
    let super_lock = vec![9u8; 32];
    let new_cell = ConfigCellPair { lock_hash: super_lock.clone(), output_args: vec![100, 0, 0, 0], input_args: None };
    assert_eq!(verify_config_cells(true, 0, &vec![new_cell], &super_lock, &defined), Ok(()));
    assert_eq!(verify_config_cells(false, 0, &vec![], &super_lock, &defined), Err(ErrorCode::SuperLockIsRequired));
    assert_eq!(verify_config_cells(true, 0, &vec![], &super_lock, &defined), Err(ErrorCode::InvalidTransactionStructure));
    let updated = ConfigCellPair {
        lock_hash: super_lock.clone(),
        output_args: vec![100, 0, 0, 0],
        input_args: Some(vec![101, 0, 0, 0]),
    };
    assert_eq!(verify_config_cells(true, 1, &vec![updated], &super_lock, &defined), Err(ErrorCode::InvalidTransactionStructure));
    let other_lock = ConfigCellPair { lock_hash: vec![1u8; 32], output_args: vec![100, 0, 0, 0], input_args: None };
    assert_eq!(verify_config_cells(true, 0, &vec![other_lock], &super_lock, &defined), Err(ErrorCode::CellMustUseSuperLock));
    let unknown = ConfigCellPair { lock_hash: super_lock.clone(), output_args: vec![7, 0, 0, 0], input_args: None };
    assert_eq!(verify_config_cells(true, 0, &vec![unknown], &super_lock, &defined), Err(ErrorCode::ConfigIDIsUndefined));
    let same = ConfigCellPair {
        lock_hash: super_lock.clone(),
        output_args: vec![101, 0, 0, 0],
        input_args: Some(vec![101, 0, 0, 0]),
    };
    let new_cell2 = ConfigCellPair { lock_hash: super_lock.clone(), output_args: vec![100, 0, 0, 0], input_args: None };
    assert_eq!(verify_config_cells(true, 2, &vec![same, new_cell2], &super_lock, &defined), Ok(()));
}

#[test]
fn balance_cells_need_the_type_script_of_their_action() {
    assert_eq!(required_type_script(b"edit_records"), Some((RequiredTypeScript::AccountCellType, CellSide::Inputs)));
    assert_eq!(required_type_script(b"start_account_sale"), Some((RequiredTypeScript::AccountSaleCellType, CellSide::Outputs)));
    assert_eq!(required_type_script(b"buy_account"), Some((RequiredTypeScript::AccountSaleCellType, CellSide::Inputs)));
    assert_eq!(required_type_script(b"retract_reverse_record"), Some((RequiredTypeScript::ReverseRecordCellType, CellSide::Inputs)));
    assert_eq!(required_type_script(b"make_offer"), Some((RequiredTypeScript::OfferCellType, CellSide::Outputs)));
    assert_eq!(required_type_script(b"accept_offer"), Some((RequiredTypeScript::OfferCellType, CellSide::Inputs)));
    assert_eq!(required_type_script(b"update_sub_account"), Some((RequiredTypeScript::SubAccountCellType, CellSide::Outputs)));
    assert_eq!(required_type_script(b"transfer"), None);
}

#[test]
fn balance_cell_plan_follows_inputs_and_outputs() {
    assert_eq!(
        plan_balance_cell(2, 1, b"transfer_account"),
        BalanceCellPlan {
            require: Some((RequiredTypeScript::AccountCellType, CellSide::Inputs)),
            check_outputs_have_type: true,
            run_eip712_lib: false,
        }
    );
    assert_eq!(
        plan_balance_cell(1, 0, b"transfer"),
        BalanceCellPlan { require: None, check_outputs_have_type: false, run_eip712_lib: true }
    );
    assert_eq!(
        plan_balance_cell(0, 3, b"transfer"),
        BalanceCellPlan { require: None, check_outputs_have_type: true, run_eip712_lib: false }
    );
}
