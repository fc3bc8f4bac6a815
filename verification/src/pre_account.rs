use vstd::prelude::*;

use crate::bytes::{bytes_eq, bytes_le, lex_le};
use crate::error::{DasError, ErrorCode, PreAccountCellErrorCode};
use crate::types::ACCOUNT_ID_LENGTH;

verus! {

/// What checking the age of an ApplyRegisterCell gives: the blocks passed since it
/// was applied (none where the height is not past it) are at least the least wait
/// and at most the longest.
pub open spec fn spec_verify_apply_height(
    current_height: u64,
    apply_height: u64,
    min_waiting: u32,
    max_waiting: u32,
) -> Result<(), ErrorCode> {
    let passed: int = if current_height > apply_height {
        current_height - apply_height
    } else {
        0
    };
    if passed < min_waiting {
        Err(ErrorCode::ApplyRegisterNeedWaitLonger)
    } else if passed > max_waiting {
        Err(ErrorCode::ApplyRegisterHasTimeout)
    } else {
        Ok(())
    }
}

/// Checks that an ApplyRegisterCell has waited long enough and not too long.
pub fn verify_apply_height(current_height: u64, apply_height: u64, min_waiting: u32, max_waiting: u32) -> (r:
    Result<(), ErrorCode>)
    ensures
        r == spec_verify_apply_height(current_height, apply_height, min_waiting, max_waiting),
{
    let passed: u64 = if current_height > apply_height {
        current_height - apply_height
    } else {
        0
    };
    if passed < min_waiting as u64 {
        return Err(ErrorCode::ApplyRegisterNeedWaitLonger);
    }
    if passed > max_waiting as u64 {
        return Err(ErrorCode::ApplyRegisterHasTimeout);
    }
    Ok(())
}

/// The suffix of every account name.
pub open spec fn account_suffix() -> Seq<u8> {
    seq![46u8, 98u8, 105u8, 116u8]
}

/// An account name with its suffix.
pub fn account_with_suffix(readable: &[u8]) -> (r: Vec<u8>)
    ensures
        r@ == readable@ + account_suffix(),
{
    let mut r: Vec<u8> = Vec::new();
    let mut i: usize = 0;
    while i < readable.len()
        invariant
            i <= readable@.len(),
            r@ == readable@.take(i as int),
        decreases readable@.len() - i,
    {
        r.push(readable[i]);
        i = i + 1;
        assert(r@ =~= readable@.take(i as int));
    }
    r.push(46);
    r.push(98);
    r.push(105);
    r.push(116);
    assert(r@ =~= readable@ + account_suffix());
    r
}

/// What is hashed to bind an application to an account: the lock arguments of the
/// ApplyRegisterCell, the account and its suffix.
pub fn apply_hash_preimage(lock_args: &[u8], readable: &[u8]) -> (r: Vec<u8>)
    ensures
        r@ == lock_args@ + readable@ + account_suffix(),
{
    let mut r: Vec<u8> = Vec::new();
    let mut i: usize = 0;
    while i < lock_args.len()
        invariant
            i <= lock_args@.len(),
            r@ == lock_args@.take(i as int),
        decreases lock_args@.len() - i,
    {
        r.push(lock_args[i]);
        i = i + 1;
        assert(r@ =~= lock_args@.take(i as int));
    }
    assert(lock_args@.take(lock_args@.len() as int) =~= lock_args@);
    let tail = account_with_suffix(readable);
    let mut j: usize = 0;
    while j < tail.len()
        invariant
            j <= tail@.len(),
            r@ == lock_args@ + tail@.take(j as int),
        decreases tail@.len() - j,
    {
        r.push(tail[j]);
        j = j + 1;
        assert(r@ =~= lock_args@ + tail@.take(j as int));
    }
    assert(tail@.take(tail@.len() as int) =~= tail@);
    assert(r@ =~= lock_args@ + readable@ + account_suffix());
    r
}

/// What comparing a value that a PreAccountCell carries with the expected one gives.
pub open spec fn spec_verify_equal_bytes(expected: Seq<u8>, current: Seq<u8>, code: PreAccountCellErrorCode) -> Result<
    (),
    DasError,
> {
    if expected != current {
        Err(DasError::PreAccountCell(code))
    } else {
        Ok(())
    }
}

/// Checks that the account ID of a PreAccountCell is the one its account gives.
pub fn verify_account_id(expected_account_id: &[u8], account_id: &[u8]) -> (r: Result<(), DasError>)
    ensures
        r == spec_verify_equal_bytes(expected_account_id@, account_id@, PreAccountCellErrorCode::AccountIdIsInvalid),
{
    if !bytes_eq(expected_account_id, account_id) {
        return Err(DasError::PreAccountCell(PreAccountCellErrorCode::AccountIdIsInvalid));
    }
    Ok(())
}

/// Checks that the hash in the ApplyRegisterCell is the one the application gives.
pub fn verify_apply_hash(expected_hash: &[u8], current_hash: &[u8]) -> (r: Result<(), DasError>)
    ensures
        r == spec_verify_equal_bytes(expected_hash@, current_hash@, PreAccountCellErrorCode::ApplyHashMismatch),
{
    if !bytes_eq(current_hash, expected_hash) {
        return Err(DasError::PreAccountCell(PreAccountCellErrorCode::ApplyHashMismatch));
    }
    Ok(())
}

/// What checking a field of a PreAccountCell against an oracle gives.
pub open spec fn spec_verify_equal_u64(expected: u64, current: u64, code: PreAccountCellErrorCode) -> Result<
    (),
    DasError,
> {
    if expected != current {
        Err(DasError::PreAccountCell(code))
    } else {
        Ok(())
    }
}

/// Checks that a PreAccountCell was created at the time of the TimeCell.
pub fn verify_created_at(timestamp: u64, created_at: u64) -> (r: Result<(), DasError>)
    ensures
        r == spec_verify_equal_u64(timestamp, created_at, PreAccountCellErrorCode::CreateAtIsInvalid),
{
    if created_at != timestamp {
        return Err(DasError::PreAccountCell(PreAccountCellErrorCode::CreateAtIsInvalid));
    }
    Ok(())
}

/// Checks that a PreAccountCell carries the quote of the QuoteCell.
pub fn verify_quote(expected_quote: u64, quote: u64) -> (r: Result<(), DasError>)
    ensures
        r == spec_verify_equal_u64(expected_quote, quote, PreAccountCellErrorCode::QuoteIsInvalid),
{
    if expected_quote != quote {
        return Err(DasError::PreAccountCell(PreAccountCellErrorCode::QuoteIsInvalid));
    }
    Ok(())
}

/// The least length of the owner lock arguments of a PreAccountCell.
pub const OWNER_LOCK_ARGS_MIN_LENGTH: usize = 42;

/// Checks that the owner lock arguments of a PreAccountCell are long enough.
pub fn verify_owner_lock_args(owner_lock_args: &[u8]) -> (r: Result<(), DasError>)
    ensures
        r is Ok <==> owner_lock_args@.len() >= OWNER_LOCK_ARGS_MIN_LENGTH,
        r matches Err(e) ==> e == DasError::PreAccountCell(PreAccountCellErrorCode::OwnerLockArgsIsInvalid),
{
    if owner_lock_args.len() < OWNER_LOCK_ARGS_MIN_LENGTH {
        return Err(DasError::PreAccountCell(PreAccountCellErrorCode::OwnerLockArgsIsInvalid));
    }
    Ok(())
}

/// What checking the invitation of a PreAccountCell gives: without an inviter (no
/// inviter lock, or the default lock) the inviter ID is empty and there is no
/// discount; with one, the inviter ID is an account ID and the discount is the
/// configured one.
pub open spec fn spec_verify_invited_discount(
    inviter_lock: Option<Seq<u8>>,
    default_lock: Seq<u8>,
    inviter_id: Seq<u8>,
    invited_discount: u32,
    config_discount: u32,
) -> Result<(), DasError> {
    let has_inviter = match inviter_lock {
        Some(l) => l != default_lock,
        None => false,
    };
    if !has_inviter {
        if inviter_id.len() != 0 {
            Err(DasError::PreAccountCell(PreAccountCellErrorCode::InviterIdShouldBeEmpty))
        } else if invited_discount != 0 {
            Err(DasError::PreAccountCell(PreAccountCellErrorCode::InviteeDiscountShouldBeEmpty))
        } else {
            Ok(())
        }
    } else if inviter_id.len() != ACCOUNT_ID_LENGTH {
        Err(DasError::PreAccountCell(PreAccountCellErrorCode::InviterIdIsInvalid))
    } else if invited_discount != config_discount {
        Err(DasError::PreAccountCell(PreAccountCellErrorCode::InviteeDiscountIsInvalid))
    } else {
        Ok(())
    }
}

/// Checks the inviter ID and the discount of a PreAccountCell.
pub fn verify_invited_discount(
    inviter_lock: &Option<Vec<u8>>,
    default_lock: &[u8],
    inviter_id: &[u8],
    invited_discount: u32,
    config_discount: u32,
) -> (r: Result<(), DasError>)
    ensures
        r == spec_verify_invited_discount(
            match inviter_lock {
                Some(l) => Some(l@),
                None => None,
            },
            default_lock@,
            inviter_id@,
            invited_discount,
            config_discount,
        ),
{
    let has_inviter = match inviter_lock {
        Some(l) => !bytes_eq(l.as_slice(), default_lock),
        None => false,
    };
    if !has_inviter {
        if inviter_id.len() != 0 {
            return Err(DasError::PreAccountCell(PreAccountCellErrorCode::InviterIdShouldBeEmpty));
        }
        if invited_discount != 0 {
            return Err(DasError::PreAccountCell(PreAccountCellErrorCode::InviteeDiscountShouldBeEmpty));
        }
        return Ok(());
    }
    if inviter_id.len() != ACCOUNT_ID_LENGTH {
        return Err(DasError::PreAccountCell(PreAccountCellErrorCode::InviterIdIsInvalid));
    }
    if invited_discount != config_discount {
        return Err(DasError::PreAccountCell(PreAccountCellErrorCode::InviteeDiscountIsInvalid));
    }
    Ok(())
}

/// What checking the price and the capacity of a PreAccountCell gives: the price it
/// carries is the configured price of its length (found by the caller, `None` where
/// none is configured), and it holds a year of registration and the storage of the
/// AccountCell to be.
pub open spec fn spec_verify_price_and_capacity(
    expected_price: Option<crate::account_cell::PriceItem>,
    price: crate::account_cell::PriceItem,
    capacity: u64,
    register_capacity: u64,
    storage_capacity: u64,
) -> Result<(), DasError> {
    match expected_price {
        None => Err(DasError::Common(ErrorCode::ItemMissing)),
        Some(p) => if p != price {
            Err(DasError::PreAccountCell(PreAccountCellErrorCode::PriceIsInvalid))
        } else if capacity < register_capacity + storage_capacity {
            Err(DasError::PreAccountCell(PreAccountCellErrorCode::CKBIsInsufficient))
        } else {
            Ok(())
        },
    }
}

/// Checks the price and the capacity of a PreAccountCell. `register_capacity` is what
/// a year costs at the price, quote and discount of the cell, `storage_capacity` what
/// its AccountCell must hold.
pub fn verify_price_and_capacity(
    expected_price: &Option<crate::account_cell::PriceItem>,
    price: &crate::account_cell::PriceItem,
    capacity: u64,
    register_capacity: u64,
    storage_capacity: u64,
) -> (r: Result<(), DasError>)
    ensures
        r == spec_verify_price_and_capacity(*expected_price, *price, capacity, register_capacity, storage_capacity),
{
    match expected_price {
        None => Err(DasError::Common(ErrorCode::ItemMissing)),
        Some(p) => {
            if !(p.length == price.length && p.new == price.new && p.renew == price.renew) {
                return Err(DasError::PreAccountCell(PreAccountCellErrorCode::PriceIsInvalid));
            }
            if (capacity as u128) < register_capacity as u128 + storage_capacity as u128 {
                return Err(DasError::PreAccountCell(PreAccountCellErrorCode::CKBIsInsufficient));
            }
            Ok(())
        },
    }
}

/// The shortest account that can be registered now.
pub const MIN_REGISTRABLE_ACCOUNT_LENGTH: usize = 4;

/// Checks that an account is long enough to be registered now.
pub fn verify_account_length_and_years(account_length: usize) -> (r: Result<(), DasError>)
    ensures
        r is Ok <==> account_length >= MIN_REGISTRABLE_ACCOUNT_LENGTH,
        r matches Err(e) ==> e == DasError::Common(ErrorCode::AccountStillCanNotBeRegister),
{
    if account_length < MIN_REGISTRABLE_ACCOUNT_LENGTH {
        return Err(DasError::Common(ErrorCode::AccountStillCanNotBeRegister));
    }
    Ok(())
}

/// The character sets that account names are made of.
#[derive(Debug, Clone, Copy, PartialEq, Eq, Structural)]
pub enum CharSetType {
    Emoji,
    Digit,
    En,
    ZhHans,
    ZhHant,
    Ja,
    Ko,
    Ru,
    Tr,
    Th,
    Vi,
}

/// Whether every account of one of these character sets and at least 4 characters is
/// released.
pub open spec fn fully_released(c: CharSetType) -> bool {
    c == CharSetType::Emoji || c == CharSetType::Digit || c == CharSetType::Ko || c == CharSetType::Th
}

/// The time from which accounts of a fully released character set can be
/// registered (2022-10-18 12:00:00 UTC).
pub const FULL_RELEASE_TIMESTAMP: u64 = 1666094400;

/// Accounts of this many characters or more are released.
pub const RELEASED_ACCOUNT_LENGTH: usize = 10;

/// The character set of an account read from the front: `Ok(Some(c))` where every
/// character is of set `c`, `Ok(None)` where two sets mix, `Err` where a character
/// before the first mix has no known set.
pub open spec fn common_char_set(chars: Seq<Option<CharSetType>>) -> Result<Option<CharSetType>, ErrorCode>
    decreases chars.len(),
{
    if chars.len() == 0 {
        Ok(None)
    } else if chars.len() == 1 {
        match chars[0] {
            None => Err(ErrorCode::CharSetIsUndefined),
            Some(c) => Ok(Some(c)),
        }
    } else {
        match common_char_set(chars.drop_last()) {
            Err(e) => Err(e),
            Ok(None) => Ok(None),
            Ok(Some(c)) => match chars.last() {
                None => Err(ErrorCode::CharSetIsUndefined),
                Some(d) => if d == c {
                    Ok(Some(c))
                } else {
                    Ok(None)
                },
            },
        }
    }
}

/// The number that the first 4 bytes of a hash make, most significant first.
pub open spec fn be_u32(b: Seq<u8>) -> int {
    b[0] * 0x1000000 + b[1] * 0x10000 + b[2] * 0x100 + b[3]
}

/// What checking that an account is released gives: accounts of 10 or more
/// characters are; after the full release, accounts of at least 4 characters all of
/// one fully released character set are; any other account is released where the
/// lucky number of its hash is at most the configured one.
pub open spec fn spec_verify_account_release_status(
    timestamp: u64,
    chars: Seq<Option<CharSetType>>,
    account_hash: Seq<u8>,
    lucky_number: u32,
) -> Result<(), DasError> {
    if chars.len() >= RELEASED_ACCOUNT_LENGTH {
        Ok(())
    } else if timestamp >= FULL_RELEASE_TIMESTAMP && common_char_set(chars) is Err {
        Err(DasError::Common(common_char_set(chars)->Err_0))
    } else if timestamp >= FULL_RELEASE_TIMESTAMP && chars.len() >= MIN_REGISTRABLE_ACCOUNT_LENGTH
        && (common_char_set(chars) matches Ok(Some(c)) && fully_released(c)) {
        Ok(())
    } else if be_u32(account_hash) > lucky_number {
        Err(DasError::Common(ErrorCode::AccountStillCanNotBeRegister))
    } else {
        Ok(())
    }
}

fn char_set_of(chars: &Vec<Option<CharSetType>>) -> (r: Result<Option<CharSetType>, ErrorCode>)
    ensures
        r == common_char_set(chars@),
{
    if chars.len() == 0 {
        return Ok(None);
    }
    let mut current = match chars[0] {
        None => {
            proof {
                assert(chars@.take(1) =~= seq![chars@[0]]);
                lemma_common_char_set_persists(chars@, 1);
            }
            return Err(ErrorCode::CharSetIsUndefined);
        },
        Some(c) => c,
    };
    assert(chars@.take(1) =~= seq![chars@[0]]);
    let mut i: usize = 1;
    while i < chars.len()
        invariant
            1 <= i <= chars@.len(),
            common_char_set(chars@.take(i as int)) == Ok::<Option<CharSetType>, ErrorCode>(Some(current)),
        decreases chars@.len() - i,
    {
        proof {
            assert(chars@.take(i as int + 1).drop_last() =~= chars@.take(i as int));
        }
        match chars[i] {
            None => {
                proof {
                    lemma_common_char_set_persists(chars@, i as int + 1);
                }
                return Err(ErrorCode::CharSetIsUndefined);
            },
            Some(d) => {
                if d != current {
                    proof {
                        lemma_common_char_set_persists(chars@, i as int + 1);
                    }
                    return Ok(None);
                }
            },
        }
        i = i + 1;
    }
    assert(chars@.take(chars@.len() as int) =~= chars@);
    Ok(Some(current))
}

proof fn lemma_common_char_set_persists(chars: Seq<Option<CharSetType>>, n: int)
    requires
        1 <= n <= chars.len(),
        !(common_char_set(chars.take(n)) matches Ok(Some(_))),
    ensures
        common_char_set(chars) == common_char_set(chars.take(n)),
    decreases chars.len() - n,
{
    if n < chars.len() {
        assert(chars.take(n + 1).drop_last() =~= chars.take(n));
        lemma_common_char_set_persists(chars, n + 1);
    } else {
        assert(chars.take(n) =~= chars);
    }
}

/// Checks that an account is released for registration. `account_hash` is the hash of
/// the account with its suffix.
pub fn verify_account_release_status(
    timestamp: u64,
    chars: &Vec<Option<CharSetType>>,
    account_hash: &[u8],
    lucky_number: u32,
) -> (r: Result<(), DasError>)
    requires
        account_hash@.len() >= 4,
    ensures
        r == spec_verify_account_release_status(timestamp, chars@, account_hash@, lucky_number),
{
    if chars.len() >= RELEASED_ACCOUNT_LENGTH {
        return Ok(());
    }
    if timestamp >= FULL_RELEASE_TIMESTAMP {
        let set = char_set_of(chars);
        match set {
            Err(e) => {
                return Err(DasError::Common(e));
            },
            Ok(Some(c)) => {
                if chars.len() >= MIN_REGISTRABLE_ACCOUNT_LENGTH && (c == CharSetType::Emoji || c
                    == CharSetType::Digit || c == CharSetType::Ko || c == CharSetType::Th) {
                    return Ok(());
                }
            },
            Ok(None) => {},
        }
    }
    let lucky: u64 = account_hash[0] as u64 * 0x1000000 + account_hash[1] as u64 * 0x10000 + account_hash[2] as u64
        * 0x100 + account_hash[3] as u64;
    if lucky > lucky_number as u64 {
        return Err(DasError::Common(ErrorCode::AccountStillCanNotBeRegister));
    }
    Ok(())
}

/// What a super lock in the inputs forgives: an account that is not released yet, or
/// preserved, can still be registered by it.
pub open spec fn spec_forgive_with_super_lock(r: Result<(), DasError>, has_super_lock: bool) -> Result<(), DasError> {
    match r {
        Err(DasError::Common(ErrorCode::AccountStillCanNotBeRegister)) if has_super_lock => Ok(()),
        Err(DasError::Common(ErrorCode::AccountIsPreserved)) if has_super_lock => Ok(()),
        _ => r,
    }
}

/// Forgives the errors that a super lock in the inputs lifts.
pub fn forgive_with_super_lock(r: Result<(), DasError>, has_super_lock: bool) -> (out: Result<(), DasError>)
    ensures
        out == spec_forgive_with_super_lock(r, has_super_lock),
{
    match r {
        Err(DasError::Common(ErrorCode::AccountStillCanNotBeRegister)) if has_super_lock => Ok(()),
        Err(DasError::Common(ErrorCode::AccountIsPreserved)) if has_super_lock => Ok(()),
        _ => r,
    }
}

/// Whether `a` comes strictly after `b` in lexicographic order.
pub open spec fn lex_gt(a: Seq<u8>, b: Seq<u8>) -> bool {
    !lex_le(a, b)
}

/// What checking that a new account does not exist yet gives. The AccountCells form a
/// chain sorted by account ID, each pointing at the next larger ID; the new ID must sit
/// strictly between the ID of the AccountCell in the cell deps and the ID it points at.
pub open spec fn spec_verify_account_not_exist(prev_id: Seq<u8>, account_id: Seq<u8>, prev_next: Seq<u8>) -> Result<
    (),
    DasError,
> {
    if lex_gt(account_id, prev_id) && lex_gt(prev_next, account_id) {
        Ok(())
    } else {
        Err(DasError::PreAccountCell(PreAccountCellErrorCode::AccountAlreadyExistOrProofInvalid))
    }
}

/// Checks the proof that a new account does not exist yet.
pub fn verify_account_not_exist(prev_id: &[u8], account_id: &[u8], prev_next: &[u8]) -> (r: Result<(), DasError>)
    ensures
        r == spec_verify_account_not_exist(prev_id@, account_id@, prev_next@),
{
    if !bytes_le(account_id, prev_id) && !bytes_le(prev_next, account_id) {
        Ok(())
    } else {
        Err(DasError::PreAccountCell(PreAccountCellErrorCode::AccountAlreadyExistOrProofInvalid))
    }
}

proof fn lemma_one_char_set(chars: Seq<Option<CharSetType>>, c: CharSetType)
    requires
        chars.len() >= 1,
        forall|i: int| 0 <= i < chars.len() ==> chars[i] == Some(c),
    ensures
        common_char_set(chars) == Ok::<Option<CharSetType>, ErrorCode>(Some(c)),
    decreases chars.len(),
{
    if chars.len() > 1 {
        let front = chars.drop_last();
        assert forall|i: int| 0 <= i < front.len() implies front[i] == Some(c) by {
            assert(front[i] == chars[i]);
        }
        lemma_one_char_set(front, c);
        assert(chars.last() == Some(c));
    } else {
        assert(chars[0] == Some(c));
    }
}

/// After the full release, an account of at least 4 characters that are all emoji,
/// all digits, all Korean or all Thai is released, whatever its hash and the lucky
/// number.
pub proof fn lemma_fully_released_accounts_are_released(
    timestamp: u64,
    chars: Seq<Option<CharSetType>>,
    c: CharSetType,
    account_hash: Seq<u8>,
    lucky_number: u32,
)
    requires
        timestamp >= FULL_RELEASE_TIMESTAMP,
        chars.len() >= 4,
        c == CharSetType::Emoji || c == CharSetType::Digit || c == CharSetType::Ko || c == CharSetType::Th,
        forall|i: int| 0 <= i < chars.len() ==> chars[i] == Some(c),
    ensures
        spec_verify_account_release_status(timestamp, chars, account_hash, lucky_number) == Ok::<(), DasError>(()),
{
    lemma_one_char_set(chars, c);
}

/// An account of 10 or more characters is always released.
pub proof fn lemma_long_accounts_are_released(
    timestamp: u64,
    chars: Seq<Option<CharSetType>>,
    account_hash: Seq<u8>,
    lucky_number: u32,
)
    requires
        chars.len() >= 10,
    ensures
        spec_verify_account_release_status(timestamp, chars, account_hash, lucky_number) == Ok::<(), DasError>(()),
{
}

/// Before the full release, an account of fewer than 10 characters is released exactly
/// when the number that the first 4 bytes of its hash make, most significant first, is
/// at most the lucky number; otherwise it cannot be registered yet.
pub proof fn lemma_short_accounts_wait_for_their_luck(
    timestamp: u64,
    chars: Seq<Option<CharSetType>>,
    account_hash: Seq<u8>,
    lucky_number: u32,
)
    requires
        timestamp < FULL_RELEASE_TIMESTAMP,
        chars.len() < 10,
        account_hash.len() >= 4,
    ensures
        spec_verify_account_release_status(timestamp, chars, account_hash, lucky_number) == if account_hash[0]
            * 0x1000000 + account_hash[1] * 0x10000 + account_hash[2] * 0x100 + account_hash[3] <= lucky_number {
            Ok::<(), DasError>(())
        } else {
            Err::<(), DasError>(DasError::Common(ErrorCode::AccountStillCanNotBeRegister))
        },
{
}

/// An application waits between the least and the longest wait: it is accepted
/// exactly when the blocks since it was applied (none where the current height is not
/// past it) are at least the least wait and at most the longest.
pub proof fn lemma_applications_wait_their_time(
    current_height: u64,
    apply_height: u64,
    min_waiting: u32,
    max_waiting: u32,
)
    ensures
        current_height > apply_height ==> (spec_verify_apply_height(
            current_height,
            apply_height,
            min_waiting,
            max_waiting,
        ) is Ok <==> apply_height + min_waiting <= current_height && current_height <= apply_height
            + max_waiting),
        current_height <= apply_height ==> (spec_verify_apply_height(
            current_height,
            apply_height,
            min_waiting,
            max_waiting,
        ) is Ok <==> min_waiting == 0),
{
}

/// Without an inviter (no inviter lock, or the default one) an application is accepted
/// exactly when it names no inviter and takes no discount; with one, exactly when it
/// names an account ID as the inviter and takes the configured discount.
pub proof fn lemma_invitation_gives_the_configured_discount(
    inviter_lock: Option<Seq<u8>>,
    default_lock: Seq<u8>,
    inviter_id: Seq<u8>,
    invited_discount: u32,
    config_discount: u32,
)
    ensures
        (inviter_lock is None || inviter_lock == Some(default_lock)) ==> (spec_verify_invited_discount(
            inviter_lock,
            default_lock,
            inviter_id,
            invited_discount,
            config_discount,
        ) is Ok <==> inviter_id.len() == 0 && invited_discount == 0),
        (inviter_lock is Some && inviter_lock != Some(default_lock)) ==> (spec_verify_invited_discount(
            inviter_lock,
            default_lock,
            inviter_id,
            invited_discount,
            config_discount,
        ) is Ok <==> inviter_id.len() == 20 && invited_discount == config_discount),
{
}

/// An application's price and capacity are accepted exactly when a price is configured
/// for its length, it carries that price, and it holds a year of registration and the
/// storage of its AccountCell.
pub proof fn lemma_application_pays_its_price(
    expected_price: Option<crate::account_cell::PriceItem>,
    price: crate::account_cell::PriceItem,
    capacity: u64,
    register_capacity: u64,
    storage_capacity: u64,
)
    ensures
        spec_verify_price_and_capacity(expected_price, price, capacity, register_capacity, storage_capacity) is Ok
            <==> expected_price == Some(price) && capacity >= register_capacity + storage_capacity,
{
}

} // verus!
