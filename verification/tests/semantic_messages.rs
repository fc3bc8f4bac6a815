use did_contracts::error::{AccountCellErrorCode, DasError, ErrorCode};
use did_contracts::proposal_confirm::Owed;
use did_contracts::semantic::{
    accept_offer_to_semantic, buy_account_to_semantic, cancel_account_sale_to_semantic, cancel_offer_to_semantic,
    create_approval_to_semantic, delay_approval_to_semantic, edit_account_sale_to_semantic, edit_manager_to_semantic,
    edit_offer_to_semantic, edit_records_to_semantic, join_capacities, lock_account_for_cross_chain_to_semantic,
    make_offer_to_semantic, retract_reverse_record_to_semantic, semantic_action, start_account_sale_to_semantic, sum_cells,
    to_dec_str, transfer_account_to_semantic, transfer_to_semantic, verify_offer_cells_found, AddressCapacity,
    ApprovalInfo, SemanticAction,
};

fn s(v: Vec<u8>) -> String {
    String::from_utf8(v).unwrap()
}

#[test]
fn account_actions_read_as_sentences() {
    assert_eq!(s(transfer_account_to_semantic(b"alice.bit", b"0xabc")), "TRANSFER THE ACCOUNT alice.bit TO 0xabc");
    assert_eq!(s(edit_manager_to_semantic(b"alice.bit")), "EDIT MANAGER OF ACCOUNT alice.bit");
    assert_eq!(s(edit_records_to_semantic(b"alice.bit")), "EDIT RECORDS OF ACCOUNT alice.bit");
    assert_eq!(s(lock_account_for_cross_chain_to_semantic(b"alice.bit")), "LOCK alice.bit FOR CROSS CHAIN");
    assert_eq!(s(retract_reverse_record_to_semantic(b"0xabc")), "RETRACT REVERSE RECORDS ON 0xabc");
}

#[test]
fn market_actions_read_as_sentences() {
    assert_eq!(s(start_account_sale_to_semantic(b"alice.bit", b"200 CKB")), "SELL alice.bit FOR 200 CKB");
    assert_eq!(s(edit_account_sale_to_semantic(b"300 CKB")), "EDIT SALE INFO, CURRENT PRICE IS 300 CKB");
    assert_eq!(s(cancel_account_sale_to_semantic(b"alice.bit")), "CANCEL SALE OF alice.bit");
    assert_eq!(s(buy_account_to_semantic(b"alice.bit", b"200 CKB")), "BUY alice.bit WITH 200 CKB");
    assert_eq!(s(make_offer_to_semantic(b"alice.bit", b"10 CKB")), "MAKE AN OFFER ON alice.bit WITH 10 CKB");
    assert_eq!(
        s(edit_offer_to_semantic(b"alice.bit", b"10 CKB", b"20 CKB")),
        "CHANGE THE OFFER ON alice.bit FROM 10 CKB TO 20 CKB"
    );
    assert_eq!(s(accept_offer_to_semantic(b"alice.bit", b"20 CKB")), "ACCEPT THE OFFER ON alice.bit WITH 20 CKB");
    assert_eq!(s(cancel_offer_to_semantic(3)), "CANCEL 3 OFFER(S)");
    assert_eq!(verify_offer_cells_found(1), Ok(()));
    assert_eq!(verify_offer_cells_found(0), Err(ErrorCode::InvalidTransactionStructure));
}

#[test]
fn numbers_are_written_in_decimal() {
    assert_eq!(s(to_dec_str(0)), "0");
    assert_eq!(s(to_dec_str(1_700_000_000)), "1700000000");
    assert_eq!(s(to_dec_str(u64::MAX)), u64::MAX.to_string());
}

fn info(is_latest: bool, action: &[u8], params_decode: bool) -> ApprovalInfo {
    ApprovalInfo { is_latest, action: action.to_vec(), params_decode, to_address: b"0xdef".to_vec(), sealed_until: 1234 }
}

#[test]
fn approvals_read_as_sentences() {
    assert_eq!(
        s(create_approval_to_semantic(b"alice.bit", &info(true, b"transfer", true)).unwrap()),
        "APPROVE TRANSFER alice.bit TO 0xdef AFTER 1234"
    );
    assert_eq!(
        s(delay_approval_to_semantic(b"alice.bit", &info(true, b"transfer", true)).unwrap()),
        "DELAY THE TRANSFER APPROVAL OF alice.bit TO 1234"
    );
    assert_eq!(
        create_approval_to_semantic(b"alice.bit", &info(false, b"transfer", true)),
        Err(DasError::AccountCell(AccountCellErrorCode::WitnessParsingError))
    );
    assert_eq!(
        create_approval_to_semantic(b"alice.bit", &info(true, b"sell", true)),
        Err(DasError::AccountCell(AccountCellErrorCode::ApprovalActionUndefined))
    );
    assert_eq!(
        delay_approval_to_semantic(b"alice.bit", &info(true, b"transfer", false)),
        Err(DasError::AccountCell(AccountCellErrorCode::WitnessParsingError))
    );
}

#[test]
fn plain_transfers_list_addresses_and_capacities() {
    let inputs = vec![
        AddressCapacity { address: b"ckb1a".to_vec(), capacity: b"100 CKB".to_vec() },
        AddressCapacity { address: b"ckb1b".to_vec(), capacity: b"5 CKB".to_vec() },
    ];
    let joined = join_capacities(&inputs);
    assert_eq!(s(joined.clone()), "ckb1a(100 CKB), ckb1b(5 CKB)");
    assert_eq!(join_capacities(&vec![]), Vec::<u8>::new());
    let outputs = join_capacities(&vec![AddressCapacity { address: b"ckb1c".to_vec(), capacity: b"104 CKB".to_vec() }]);
    assert_eq!(s(transfer_to_semantic(&joined, &outputs)), "TRANSFER FROM ckb1a(100 CKB), ckb1b(5 CKB) TO ckb1c(104 CKB)");
}

#[test]
fn actions_are_recognised_by_name() {
    assert_eq!(semantic_action(b"transfer_account"), SemanticAction::TransferAccount);
    assert_eq!(semantic_action(b"edit_records"), SemanticAction::EditRecords);
    assert_eq!(semantic_action(b"buy_account"), SemanticAction::BuyAccount);
    assert_eq!(semantic_action(b"cancel_offer"), SemanticAction::CancelOffer);
    assert_eq!(semantic_action(b"delay_approval"), SemanticAction::DelayApproval);
    assert_eq!(semantic_action(b"anything_else"), SemanticAction::Transfer);
}

#[test]
fn transfer_capacities_are_summed_by_address_in_first_seen_order() {
    let cells = vec![
        Owed { lock: b"ckb1b".to_vec(), amount: 5 },
        Owed { lock: b"ckb1a".to_vec(), amount: 100 },
        Owed { lock: b"ckb1b".to_vec(), amount: 7 },
    ];
    let m = sum_cells(&cells);
    assert_eq!(m.len(), 2);
    assert_eq!(m.key_at(0), &b"ckb1b".to_vec());
    assert_eq!(m.amount_at(0), 12);
    assert_eq!(m.key_at(1), &b"ckb1a".to_vec());
    assert_eq!(m.amount_at(1), 100);
}
