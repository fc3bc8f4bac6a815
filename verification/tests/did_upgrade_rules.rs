use did_contracts::did_upgrade::{
    get_group_by_meta, group_cells_by_account_name, is_expire_consistent, is_upgrade, verify_did_cell_related_logic,
    verify_entry, CellKind, DidAction, EntryFacts, NamedCell,
};
use did_contracts::error::{AccountCellErrorCode, DasError};
use did_contracts::types::AccountStatus;

fn cell(kind: CellKind, name: &[u8], index: usize) -> NamedCell {
    NamedCell { kind, name: name.to_vec(), index }
}

#[test]
fn cells_are_grouped_by_name_in_sorted_order() {
    let inputs = vec![cell(CellKind::AccountCell, b"bob.bit", 0), cell(CellKind::AccountCell, b"alice.bit", 1)];
    let outputs = vec![
        cell(CellKind::AccountCell, b"alice.bit", 0),
        cell(CellKind::DidCell, b"alice.bit", 1),
        cell(CellKind::DidCell, b"carol.bit", 2),
    ];
    let groups = group_cells_by_account_name(&inputs, &outputs);
    assert_eq!(groups.len(), 3);
    assert_eq!(groups[0].name, b"alice.bit".to_vec());
    assert_eq!(groups[0].input_account_cell, Some(1));
    assert_eq!(groups[0].output_account_cell, Some(0));
    assert_eq!(groups[0].output_did_cell, Some(1));
    assert_eq!(groups[0].input_did_cell, None);
    assert_eq!(groups[1].name, b"bob.bit".to_vec());
    assert_eq!(groups[1].input_account_cell, Some(0));
    assert_eq!(groups[1].output_account_cell, None);
    assert_eq!(groups[2].name, b"carol.bit".to_vec());
    assert_eq!(groups[2].output_did_cell, Some(2));
    for i in 1..groups.len() {
        assert!(groups[i - 1].name < groups[i].name);
    }
}

#[test]
fn a_repeated_cell_stops_its_side() {
    let inputs = vec![
        cell(CellKind::AccountCell, b"a.bit", 0),
        cell(CellKind::AccountCell, b"a.bit", 1),
        cell(CellKind::AccountCell, b"b.bit", 2),
    ];
    let groups = group_cells_by_account_name(&inputs, &vec![cell(CellKind::DidCell, b"c.bit", 0)]);
    assert_eq!(groups.len(), 2);
    assert_eq!(groups[0].name, b"a.bit".to_vec());
    assert_eq!(groups[0].input_account_cell, Some(0));
    assert_eq!(groups[1].name, b"c.bit".to_vec());
}

#[test]
fn group_is_found_by_cell_index() {
    let inputs = vec![cell(CellKind::AccountCell, b"bob.bit", 3), cell(CellKind::DidCell, b"alice.bit", 5)];
    let groups = group_cells_by_account_name(&inputs, &vec![cell(CellKind::AccountCell, b"bob.bit", 3)]);
    assert_eq!(get_group_by_meta(&groups, 5, false), Some(0));
    assert_eq!(get_group_by_meta(&groups, 3, false), Some(1));
    assert_eq!(get_group_by_meta(&groups, 3, true), Some(1));
    assert_eq!(get_group_by_meta(&groups, 5, true), None);
}

#[test]
fn expiry_is_consistent_only_when_both_agree() {
    assert!(is_expire_consistent(Some(10), Some(10)));
    assert!(!is_expire_consistent(Some(10), Some(11)));
    assert!(!is_expire_consistent(None, Some(10)));
}

fn facts(
    input: Option<AccountStatus>,
    output: Option<AccountStatus>,
    has_input_did: bool,
    has_output_did: bool,
    expiry: (Option<u64>, Option<u64>),
) -> EntryFacts {
    EntryFacts {
        input_account_status: input,
        output_account_status: output,
        has_input_did,
        has_output_did,
        output_account_expired_at: expiry.0,
        output_did_expire_at: expiry.1,
    }
}

#[test]
fn an_upgrade_creates_a_did_cell_with_the_same_expiry() {
    let up = facts(Some(AccountStatus::Normal), Some(AccountStatus::Upgraded), false, true, (Some(9), Some(9)));
    assert!(is_upgrade(&up));
    assert_eq!(verify_entry(&up, DidAction::UpgradeDid), Ok(()));
    assert_eq!(verify_entry(&up, DidAction::TransferAccount), Ok(()));
    let structure = Err(DasError::AccountCell(AccountCellErrorCode::InvalidUpgradeTxStructure));
    assert_eq!(
        verify_entry(&facts(Some(AccountStatus::Normal), Some(AccountStatus::Upgraded), true, true, (Some(9), Some(9))), DidAction::UpgradeDid),
        structure
    );
    assert_eq!(
        verify_entry(&facts(Some(AccountStatus::Normal), Some(AccountStatus::Upgraded), false, false, (Some(9), None)), DidAction::UpgradeDid),
        structure
    );
    assert_eq!(
        verify_entry(&facts(Some(AccountStatus::Normal), Some(AccountStatus::Upgraded), false, true, (Some(9), Some(8))), DidAction::UpgradeDid),
        structure
    );
    assert_eq!(
        verify_entry(&up, DidAction::ConfirmProposal),
        Err(DasError::AccountCell(AccountCellErrorCode::InvalidUpgradeAction))
    );
}

#[test]
fn an_upgraded_account_is_only_renewed_with_its_did_cell() {
    let renew = facts(Some(AccountStatus::Upgraded), Some(AccountStatus::Upgraded), true, true, (Some(20), Some(20)));
    assert!(!is_upgrade(&renew));
    assert_eq!(verify_entry(&renew, DidAction::RenewAccount), Ok(()));
    assert_eq!(verify_entry(&renew, DidAction::RecycleExpiredAccount), Ok(()));
    assert_eq!(
        verify_entry(&renew, DidAction::EditRecords),
        Err(DasError::AccountCell(AccountCellErrorCode::InvalidUpgradeAction))
    );
    let no_did = facts(Some(AccountStatus::Upgraded), Some(AccountStatus::Upgraded), false, true, (Some(20), Some(20)));
    assert_eq!(
        verify_entry(&no_did, DidAction::RenewAccount),
        Err(DasError::AccountCell(AccountCellErrorCode::InvalidUpgradeTxStructure))
    );
    let other = facts(Some(AccountStatus::Normal), Some(AccountStatus::Normal), false, false, (None, None));
    assert_eq!(verify_entry(&other, DidAction::Other), Ok(()));
}

#[test]
fn entries_are_checked_in_order() {
    let ok = facts(Some(AccountStatus::Normal), Some(AccountStatus::Normal), false, false, (None, None));
    let bad_action = facts(Some(AccountStatus::Upgraded), Some(AccountStatus::Upgraded), true, true, (Some(1), Some(1)));
    let bad_structure = facts(Some(AccountStatus::Normal), Some(AccountStatus::Upgraded), true, true, (Some(1), Some(1)));
    assert_eq!(verify_did_cell_related_logic(&vec![ok], DidAction::EditRecords), Ok(()));
    let ok2 = facts(Some(AccountStatus::Normal), Some(AccountStatus::Normal), false, false, (None, None));
    assert_eq!(
        verify_did_cell_related_logic(&vec![ok2, bad_action, bad_structure], DidAction::EditRecords),
        Err(DasError::AccountCell(AccountCellErrorCode::InvalidUpgradeAction))
    );
    assert_eq!(verify_did_cell_related_logic(&vec![], DidAction::EditRecords), Ok(()));
}
