use did_contracts::error::{DasError, ErrorCode, ReverseRecordRootCellErrorCode};
use did_contracts::offer::{
    cancel_offers, offer_change, offer_seller_change, verify_accept_offer, verify_message_length, verify_offer_edit,
    verify_offer_lock, verify_offer_price, OfferConfig, OfferWitness,
};
use did_contracts::reverse_record::{
    next_nonce, nonce_and_account, retract_reverse_records, roots_to_prove, verify_has_some_lock_in_white_list,
    verify_latest_root, verify_new_root_cell, verify_sign, SignOutcome, SignType,
};
use did_contracts::types::Script;

fn config() -> OfferConfig {
    OfferConfig {
        offer_cell_basic_capacity: 20_000_000_000,
        offer_cell_prepared_fee_capacity: 10_000_000,
        offer_message_bytes_limit: 4,
        common_fee: 10_000,
    }
}

#[test]
fn offer_holds_its_price_and_fee() {
    assert_eq!(verify_offer_price(&config(), None, 20_000_000_000, 20_010_000_000), Ok(()));
    assert_eq!(verify_offer_price(&config(), Some(5_000), 30_000_000_000, 30_000_005_000), Ok(()));
    assert_eq!(
        verify_offer_price(&config(), None, 19_999_999_999, 20_009_999_999),
        Err(ErrorCode::OfferCellCapacityError)
    );
    assert_eq!(
        verify_offer_price(&config(), None, 20_000_000_000, 20_010_000_001),
        Err(ErrorCode::OfferCellCapacityError)
    );
}

#[test]
fn offer_message_is_limited() {
    assert_eq!(verify_message_length(&config(), 4), Ok(()));
    assert_eq!(verify_message_length(&config(), 5), Err(ErrorCode::OfferCellMessageTooLong));
}

#[test]
fn offer_change_is_what_is_left() {
    assert_eq!(offer_change(100, 60, 10), Some(30));
    assert_eq!(offer_change(70, 60, 10), None);
}

#[test]
fn offer_lock_is_the_buyers_das_lock() {
    let das = Script { code_hash: vec![0xda; 32], hash_type: 1, args: vec![] };
    let buyer = Script { code_hash: vec![0xda; 32], hash_type: 1, args: vec![3, 1] };
    let other = Script { code_hash: vec![0xda; 32], hash_type: 1, args: vec![3, 2] };
    let plain = Script { code_hash: vec![0x01; 32], hash_type: 1, args: vec![3, 1] };
    assert_eq!(verify_offer_lock(&das, &buyer, &buyer), Ok(()));
    assert_eq!(verify_offer_lock(&das, &buyer, &other), Err(ErrorCode::OfferCellLockError));
    assert_eq!(verify_offer_lock(&das, &plain, &plain), Err(ErrorCode::OfferCellLockError));
}

fn offer(price: u64, message: &[u8]) -> OfferWitness {
    OfferWitness {
        account: b"abc.bit".to_vec(),
        price,
        message: message.to_vec(),
        inviter_lock: vec![1],
        channel_lock: vec![2],
    }
}

#[test]
fn offer_edit_changes_price_or_message() {
    let input = offer(20_000_000_000, b"hi");
    let input_capacity = 20_010_000_000;
    assert_eq!(verify_offer_edit(&config(), &input, &offer(25_000_000_000, b"hi"), input_capacity, 25_009_990_000), Ok(()));
    assert_eq!(
        verify_offer_edit(&config(), &input, &offer(20_000_000_000, b"hi"), input_capacity, 20_009_990_000),
        Err(ErrorCode::InvalidTransactionStructure)
    );
    assert_eq!(
        verify_offer_edit(&config(), &input, &offer(20_000_000_000, b"hello"), input_capacity, 20_009_990_000),
        Err(ErrorCode::OfferCellMessageTooLong)
    );
    assert_eq!(
        verify_offer_edit(&config(), &input, &offer(25_000_000_000, b"hi"), input_capacity, 25_009_980_000),
        Err(ErrorCode::OfferCellCapacityError)
    );
    let mut moved = offer(25_000_000_000, b"hi");
    moved.account = b"xyz.bit".to_vec();
    assert_eq!(
        verify_offer_edit(&config(), &input, &moved, input_capacity, 25_009_990_000),
        Err(ErrorCode::OfferCellFieldCanNotModified)
    );
}

#[test]
fn cancelled_offers_return_to_one_owner() {
    assert_eq!(cancel_offers(&vec![vec![1], vec![1]], 1_000, 10), Ok(990));
    assert_eq!(cancel_offers(&vec![vec![1], vec![2]], 1_000, 10), Err(ErrorCode::InvalidTransactionStructure));
    assert_eq!(cancel_offers(&vec![], 1_000, 10), Err(ErrorCode::InvalidTransactionStructure));
}

#[test]
fn accepted_offer_goes_to_the_buyer() {
    assert_eq!(verify_accept_offer(&[1], &[1], b"a.bit", b"a.bit"), Ok(()));
    assert_eq!(verify_accept_offer(&[1], &[2], b"a.bit", b"a.bit"), Err(ErrorCode::OfferCellNewOwnerError));
    assert_eq!(verify_accept_offer(&[1], &[1], b"a.bit", b"b.bit"), Err(ErrorCode::OfferCellAccountMismatch));
}

#[test]
fn seller_change_takes_the_fee_unless_the_offer_carried_it() {
    assert_eq!(offer_seller_change(900, 1_100, 1_000, 10), 900);
    assert_eq!(offer_seller_change(900, 1_010, 1_000, 10), 890);
}

#[test]
fn retracted_records_return_to_one_owner() {
    assert_eq!(retract_reverse_records(&vec![vec![4], vec![4]], 500, 20), Ok(480));
    assert_eq!(retract_reverse_records(&vec![vec![4], vec![5]], 500, 20), Err(ErrorCode::InvalidTransactionStructure));
}

#[test]
fn new_root_cell_is_empty() {
    assert_eq!(verify_new_root_cell(100, 100, &[0u8; 32]), Ok(()));
    assert_eq!(
        verify_new_root_cell(101, 100, &[0u8; 32]),
        Err(DasError::ReverseRecordRootCell(ReverseRecordRootCellErrorCode::InitialCapacityError))
    );
    let mut data = [0u8; 32];
    data[31] = 1;
    assert_eq!(
        verify_new_root_cell(100, 100, &data),
        Err(DasError::ReverseRecordRootCell(ReverseRecordRootCellErrorCode::InitialOutputsDataError))
    );
    assert_eq!(
        verify_new_root_cell(100, 100, &[0u8; 31]),
        Err(DasError::ReverseRecordRootCell(ReverseRecordRootCellErrorCode::InitialOutputsDataError))
    );
}

#[test]
fn some_input_lock_must_be_white_listed() {
    let list = vec![vec![9u8], vec![8u8]];
    assert_eq!(verify_has_some_lock_in_white_list(&vec![vec![1], vec![8]], &list), Ok(()));
    assert_eq!(
        verify_has_some_lock_in_white_list(&vec![vec![1]], &list),
        Err(ErrorCode::SMTWhiteListTheLockIsNotFound)
    );
}

#[test]
fn record_nonce_counts_up_from_one() {
    assert_eq!(next_nonce(None), 1);
    assert_eq!(next_nonce(Some(1)), 2);
    assert_eq!(next_nonce(Some(41)), 42);
}

#[test]
fn signed_message_is_nonce_then_account() {
    assert_eq!(nonce_and_account(0x0102_0304, b"ab"), vec![4, 3, 2, 1, b'a', b'b']);
}

#[test]
fn signature_outcomes_map_to_errors() {
    assert_eq!(verify_sign(SignType::Eth, SignOutcome::Valid), Ok(()));
    assert_eq!(
        verify_sign(SignType::Tron, SignOutcome::Invalid),
        Err(DasError::ReverseRecordRootCell(ReverseRecordRootCellErrorCode::SignatureVerifyError))
    );
    assert_eq!(
        verify_sign(SignType::Doge, SignOutcome::DigestFailed),
        Err(DasError::ReverseRecordRootCell(ReverseRecordRootCellErrorCode::SignatureVerifyError))
    );
    assert_eq!(verify_sign(SignType::WebAuthn, SignOutcome::UndefinedLockType), Err(DasError::Common(ErrorCode::HardCodedError)));
    assert_eq!(verify_sign(SignType::Other, SignOutcome::Valid), Err(DasError::Common(ErrorCode::InvalidTransactionStructure)));
}

#[test]
fn roots_chain_from_the_cell_to_the_latest() {
    let initial = vec![0u8; 2];
    let next = vec![vec![1u8, 1], vec![2u8, 2]];
    assert_eq!(roots_to_prove(&initial, &next), vec![vec![0, 0], vec![1, 1]]);
    assert_eq!(verify_latest_root(&initial, &next, &[2, 2]), Ok(()));
    assert_eq!(verify_latest_root(&initial, &next, &[1, 1]), Err(ErrorCode::SMTNewRootMismatch));
    assert_eq!(verify_latest_root(&initial, &vec![], &[0, 0]), Ok(()));
}
