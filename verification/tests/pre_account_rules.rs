use did_contracts::account_cell::PriceItem;
use did_contracts::error::{DasError, ErrorCode, PreAccountCellErrorCode};
use did_contracts::pre_account::{
    account_with_suffix, apply_hash_preimage, forgive_with_super_lock, verify_account_id,
    verify_account_length_and_years, verify_account_not_exist, verify_account_release_status, verify_apply_hash,
    verify_apply_height, verify_created_at, verify_invited_discount, verify_owner_lock_args,
    verify_price_and_capacity, verify_quote, CharSetType,
};

#[test]
fn application_must_wait_but_not_too_long() {
    assert_eq!(verify_apply_height(110, 100, 4, 5760), Ok(()));
    assert_eq!(verify_apply_height(103, 100, 4, 5760), Err(ErrorCode::ApplyRegisterNeedWaitLonger));
    assert_eq!(verify_apply_height(90, 100, 4, 5760), Err(ErrorCode::ApplyRegisterNeedWaitLonger));
    assert_eq!(verify_apply_height(5861, 100, 4, 5760), Err(ErrorCode::ApplyRegisterHasTimeout));
    assert_eq!(verify_apply_height(5860, 100, 4, 5760), Ok(()));
}

#[test]
fn account_names_carry_the_bit_suffix() {
    assert_eq!(account_with_suffix(b"alice"), b"alice.bit".to_vec());
    assert_eq!(apply_hash_preimage(&[1, 2], b"bob"), vec![1, 2, b'b', b'o', b'b', b'.', b'b', b'i', b't']);
}

#[test]
fn pre_account_fields_must_match() {
    assert_eq!(verify_account_id(&[1], &[1]), Ok(()));
    assert_eq!(verify_account_id(&[1], &[2]), Err(DasError::PreAccountCell(PreAccountCellErrorCode::AccountIdIsInvalid)));
    assert_eq!(verify_apply_hash(&[3], &[4]), Err(DasError::PreAccountCell(PreAccountCellErrorCode::ApplyHashMismatch)));
    assert_eq!(verify_created_at(10, 10), Ok(()));
    assert_eq!(verify_created_at(10, 11), Err(DasError::PreAccountCell(PreAccountCellErrorCode::CreateAtIsInvalid)));
    assert_eq!(verify_quote(5, 6), Err(DasError::PreAccountCell(PreAccountCellErrorCode::QuoteIsInvalid)));
    assert_eq!(verify_owner_lock_args(&[0u8; 42]), Ok(()));
    assert_eq!(
        verify_owner_lock_args(&[0u8; 41]),
        Err(DasError::PreAccountCell(PreAccountCellErrorCode::OwnerLockArgsIsInvalid))
    );
}

#[test]
fn inviter_gives_the_configured_discount() {
    let default = vec![0u8; 4];
    assert_eq!(verify_invited_discount(&None, &default, &[], 0, 500), Ok(()));
    assert_eq!(verify_invited_discount(&Some(default.clone()), &default, &[], 0, 500), Ok(()));
    assert_eq!(
        verify_invited_discount(&None, &default, &[1], 0, 500),
        Err(DasError::PreAccountCell(PreAccountCellErrorCode::InviterIdShouldBeEmpty))
    );
    assert_eq!(
        verify_invited_discount(&None, &default, &[], 500, 500),
        Err(DasError::PreAccountCell(PreAccountCellErrorCode::InviteeDiscountShouldBeEmpty))
    );
    let inviter = Some(vec![7u8; 4]);
    assert_eq!(verify_invited_discount(&inviter, &default, &[9u8; 20], 500, 500), Ok(()));
    assert_eq!(
        verify_invited_discount(&inviter, &default, &[9u8; 19], 500, 500),
        Err(DasError::PreAccountCell(PreAccountCellErrorCode::InviterIdIsInvalid))
    );
    assert_eq!(
        verify_invited_discount(&inviter, &default, &[9u8; 20], 400, 500),
        Err(DasError::PreAccountCell(PreAccountCellErrorCode::InviteeDiscountIsInvalid))
    );
}

#[test]
fn price_and_capacity_cover_registration_and_storage() {
    let price = PriceItem { length: 5, new: 5_000_000, renew: 5_000_000 };
    let same = Some(PriceItem { length: 5, new: 5_000_000, renew: 5_000_000 });
    assert_eq!(verify_price_and_capacity(&same, &price, 300, 100, 200), Ok(()));
    assert_eq!(
        verify_price_and_capacity(&same, &price, 299, 100, 200),
        Err(DasError::PreAccountCell(PreAccountCellErrorCode::CKBIsInsufficient))
    );
    let other = Some(PriceItem { length: 5, new: 6_000_000, renew: 5_000_000 });
    assert_eq!(
        verify_price_and_capacity(&other, &price, 300, 100, 200),
        Err(DasError::PreAccountCell(PreAccountCellErrorCode::PriceIsInvalid))
    );
    assert_eq!(verify_price_and_capacity(&None, &price, 300, 100, 200), Err(DasError::Common(ErrorCode::ItemMissing)));
}

#[test]
fn short_accounts_are_not_registered_yet() {
    assert_eq!(verify_account_length_and_years(4), Ok(()));
    assert_eq!(verify_account_length_and_years(3), Err(DasError::Common(ErrorCode::AccountStillCanNotBeRegister)));
}

const AFTER_RELEASE: u64 = 1_666_094_400;

#[test]
fn release_status_follows_length_charset_and_luck() {
    let en = |n: usize| vec![Some(CharSetType::En); n];
    let high_hash = [0xff, 0xff, 0xff, 0xff];
    let low_hash = [0x00, 0x00, 0x00, 0x10];
    assert_eq!(verify_account_release_status(0, &en(10), &high_hash, 0), Ok(()));
    assert_eq!(
        verify_account_release_status(AFTER_RELEASE, &en(5), &high_hash, 100),
        Err(DasError::Common(ErrorCode::AccountStillCanNotBeRegister))
    );
    assert_eq!(verify_account_release_status(AFTER_RELEASE, &en(5), &low_hash, 0x10), Ok(()));
    let digits = vec![Some(CharSetType::Digit); 5];
    assert_eq!(verify_account_release_status(AFTER_RELEASE, &digits, &high_hash, 0), Ok(()));
    assert_eq!(
        verify_account_release_status(AFTER_RELEASE - 1, &digits, &high_hash, 0),
        Err(DasError::Common(ErrorCode::AccountStillCanNotBeRegister))
    );
    let mixed = vec![Some(CharSetType::Digit), Some(CharSetType::En), Some(CharSetType::Digit), Some(CharSetType::Digit)];
    assert_eq!(
        verify_account_release_status(AFTER_RELEASE, &mixed, &high_hash, 0),
        Err(DasError::Common(ErrorCode::AccountStillCanNotBeRegister))
    );
    let unknown = vec![Some(CharSetType::Digit), None, Some(CharSetType::Digit), Some(CharSetType::Digit)];
    assert_eq!(
        verify_account_release_status(AFTER_RELEASE, &unknown, &high_hash, 0),
        Err(DasError::Common(ErrorCode::CharSetIsUndefined))
    );
}

#[test]
fn super_lock_forgives_release_and_preservation() {
    let not_yet = Err(DasError::Common(ErrorCode::AccountStillCanNotBeRegister));
    assert_eq!(forgive_with_super_lock(not_yet, true), Ok(()));
    assert_eq!(forgive_with_super_lock(not_yet, false), not_yet);
    assert_eq!(forgive_with_super_lock(Err(DasError::Common(ErrorCode::AccountIsPreserved)), true), Ok(()));
    let other = Err(DasError::Common(ErrorCode::ItemMissing));
    assert_eq!(forgive_with_super_lock(other, true), other);
}

#[test]
fn new_account_sits_between_a_cell_and_its_next() {
    assert_eq!(verify_account_not_exist(&[0x10], &[0x20], &[0x30]), Ok(()));
    let exists = Err(DasError::PreAccountCell(PreAccountCellErrorCode::AccountAlreadyExistOrProofInvalid));
    assert_eq!(verify_account_not_exist(&[0x20], &[0x20], &[0x30]), exists);
    assert_eq!(verify_account_not_exist(&[0x10], &[0x30], &[0x30]), exists);
    assert_eq!(verify_account_not_exist(&[0x10], &[0x40], &[0x30]), exists);
}
