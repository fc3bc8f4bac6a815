use vstd::prelude::*;

use crate::approval::ACCOUNT_CELL_DATA_LATEST_VERSION;
use crate::bytes::bytes_eq;
use crate::error::{AccountCellErrorCode, DasError, ErrorCode, SubAccountCellErrorCode};
use crate::types::{AccountStatus, DAY_SEC, ONE_CKB, YEAR_SEC};

verus! {

/// The actions of the AccountCell that the owner or manager signs.
#[derive(Debug, Clone, Copy, PartialEq, Eq, Structural)]
pub enum AccountAction {
    TransferAccount,
    EditManager,
    EditRecords,
    LockAccountForCrossChain,
    Other,
}

/// The least time between two transactions of one kind on an AccountCell, in seconds.
pub struct ThrottleConfig {
    pub transfer_account_throttle: u32,
    pub edit_manager_throttle: u32,
    pub edit_records_throttle: u32,
}

/// When an AccountCell was last transferred, given a new manager, and given new records.
pub struct ThrottleTimes {
    pub last_transfer_account_at: u64,
    pub last_edit_manager_at: u64,
    pub last_edit_records_at: u64,
}

/// For an action that is throttled: its throttle and its time field before and after.
pub open spec fn throttle_fields(
    action: AccountAction,
    config: ThrottleConfig,
    input: ThrottleTimes,
    output: ThrottleTimes,
) -> (u32, u64, u64) {
    match action {
        AccountAction::TransferAccount => (
            config.transfer_account_throttle,
            input.last_transfer_account_at,
            output.last_transfer_account_at,
        ),
        AccountAction::EditManager => (
            config.edit_manager_throttle,
            input.last_edit_manager_at,
            output.last_edit_manager_at,
        ),
        _ => (config.edit_records_throttle, input.last_edit_records_at, output.last_edit_records_at),
    }
}

/// What checking the throttle of an action gives. Witnesses of version 1 or older are
/// no longer accepted; only transfers, manager edits and record edits are throttled.
/// Where the field was set before, the new time is at least the old time plus the
/// throttle; the new time is always the time of the TimeCell.
pub open spec fn spec_verify_action_throttle(
    action: AccountAction,
    config: ThrottleConfig,
    input_version: u32,
    input: ThrottleTimes,
    output: ThrottleTimes,
    timestamp: u64,
) -> Result<(), DasError> {
    let (throttle, prev, current) = throttle_fields(action, config, input, output);
    if input_version <= 1 {
        Err(DasError::Common(ErrorCode::InvalidTransactionStructure))
    } else if !(action == AccountAction::TransferAccount || action == AccountAction::EditManager || action
        == AccountAction::EditRecords) {
        Err(DasError::Common(ErrorCode::ActionNotSupported))
    } else if prev != 0 && current < prev + throttle {
        Err(DasError::AccountCell(AccountCellErrorCode::AccountCellThrottle))
    } else if timestamp != current {
        Err(DasError::AccountCell(AccountCellErrorCode::AccountCellThrottle))
    } else {
        Ok(())
    }
}

/// Checks that an AccountCell is not used more often than its throttle allows.
pub fn verify_action_throttle(
    action: AccountAction,
    config: &ThrottleConfig,
    input_version: u32,
    input: &ThrottleTimes,
    output: &ThrottleTimes,
    timestamp: u64,
) -> (r: Result<(), DasError>)
    ensures
        r == spec_verify_action_throttle(action, *config, input_version, *input, *output, timestamp),
{
    if input_version <= 1 {
        return Err(DasError::Common(ErrorCode::InvalidTransactionStructure));
    }
    let (throttle, prev, current) = match action {
        AccountAction::TransferAccount => (
            config.transfer_account_throttle,
            input.last_transfer_account_at,
            output.last_transfer_account_at,
        ),
        AccountAction::EditManager => (
            config.edit_manager_throttle,
            input.last_edit_manager_at,
            output.last_edit_manager_at,
        ),
        AccountAction::EditRecords => (
            config.edit_records_throttle,
            input.last_edit_records_at,
            output.last_edit_records_at,
        ),
        _ => {
            return Err(DasError::Common(ErrorCode::ActionNotSupported));
        },
    };
    if prev != 0 && (current as u128) < prev as u128 + throttle as u128 {
        return Err(DasError::AccountCell(AccountCellErrorCode::AccountCellThrottle));
    }
    if timestamp != current {
        return Err(DasError::AccountCell(AccountCellErrorCode::AccountCellThrottle));
    }
    Ok(())
}

/// Two accepted actions of one kind on an AccountCell, one after the other, are at
/// least its throttle apart: the second happens no sooner than the throttle after the
/// first, which the AccountCell recorded.
pub proof fn lemma_throttled_actions_are_spaced(
    action: AccountAction,
    config: ThrottleConfig,
    version: u32,
    before: ThrottleTimes,
    between: ThrottleTimes,
    after: ThrottleTimes,
    first_at: u64,
    second_at: u64,
)
    requires
        spec_verify_action_throttle(action, config, version, before, between, first_at) is Ok,
        spec_verify_action_throttle(action, config, version, between, after, second_at) is Ok,
        first_at > 0,
    ensures
        second_at >= first_at + throttle_fields(action, config, between, after).0,
{
}

/// The fees and basic capacity of AccountCells, in shannons.
pub struct AccountFeeConfig {
    pub basic_capacity: u64,
    pub transfer_account_fee: u64,
    pub edit_manager_fee: u64,
    pub edit_records_fee: u64,
    pub common_fee: u64,
}

/// The das-lock type of a MIXIN owner.
pub const DAS_LOCK_TYPE_MIXIN: u8 = 6;

/// The basic capacity of an AccountCell owned through MIXIN, in shannons.
pub const MIXIN_BASIC_CAPACITY: u64 = 23_000_000_000;

/// The fee that an action may take from the AccountCell.
pub open spec fn account_action_fee(action: AccountAction, config: AccountFeeConfig) -> u64 {
    match action {
        AccountAction::TransferAccount => config.transfer_account_fee,
        AccountAction::EditManager => config.edit_manager_fee,
        AccountAction::EditRecords => config.edit_records_fee,
        _ => config.common_fee,
    }
}

/// The capacity that an AccountCell must keep for storage: its basic capacity (a
/// fixed one for MIXIN owners) and one CKB for each byte of the account.
pub open spec fn account_storage_capacity(config: AccountFeeConfig, owner_type: u8, account_length: u64) -> int {
    let basic = if owner_type == DAS_LOCK_TYPE_MIXIN {
        MIXIN_BASIC_CAPACITY
    } else {
        config.basic_capacity
    };
    basic + account_length * ONE_CKB
}

/// The fee that an action may spend from the AccountCell and the capacity the cell must
/// keep, which the check of the spent fee takes.
pub fn account_fee_and_storage(
    action: AccountAction,
    config: &AccountFeeConfig,
    owner_type: u8,
    account_length: u64,
) -> (r: (u64, u64))
    requires
        account_storage_capacity(*config, owner_type, account_length) <= u64::MAX,
    ensures
        r.0 == account_action_fee(action, *config),
        r.1 == account_storage_capacity(*config, owner_type, account_length),
{
    let basic_capacity = if owner_type == DAS_LOCK_TYPE_MIXIN {
        MIXIN_BASIC_CAPACITY
    } else {
        config.basic_capacity
    };
    let fee = match action {
        AccountAction::TransferAccount => config.transfer_account_fee,
        AccountAction::EditManager => config.edit_manager_fee,
        AccountAction::EditRecords => config.edit_records_fee,
        _ => config.common_fee,
    };
    assert(account_length * ONE_CKB <= u64::MAX);
    (fee, basic_capacity + account_length * ONE_CKB)
}

/// How long before expiry an account can still be locked for cross chain, in seconds.
pub const CROSS_CHAIN_LOCK_MARGIN: u64 = 30 * DAY_SEC;

/// What checking an AccountCell locked for cross chain gives: it expires at least 30
/// days after now, its witness is newer than version 1, and its status is
/// LockedForCrossChain.
pub open spec fn spec_verify_locked_for_cross_chain(
    timestamp: u64,
    expired_at: u64,
    version: u32,
    status: AccountStatus,
) -> Result<(), DasError> {
    if !(timestamp + CROSS_CHAIN_LOCK_MARGIN <= expired_at) {
        Err(DasError::Common(ErrorCode::CrossChainLockError))
    } else if version <= 1 {
        Err(DasError::Common(ErrorCode::InvalidTransactionStructure))
    } else if status != AccountStatus::LockedForCrossChain {
        Err(DasError::Common(ErrorCode::CrossChainLockError))
    } else {
        Ok(())
    }
}

/// Checks that the AccountCell in the outputs is locked for cross chain correctly.
pub fn verify_account_is_locked_for_cross_chain(
    timestamp: u64,
    expired_at: u64,
    version: u32,
    status: AccountStatus,
) -> (r: Result<(), DasError>)
    ensures
        r == spec_verify_locked_for_cross_chain(timestamp, expired_at, version, status),
{
    if !((timestamp as u128) + (CROSS_CHAIN_LOCK_MARGIN as u128) <= expired_at as u128) {
        return Err(DasError::Common(ErrorCode::CrossChainLockError));
    }
    if version <= 1 {
        return Err(DasError::Common(ErrorCode::InvalidTransactionStructure));
    }
    if status != AccountStatus::LockedForCrossChain {
        return Err(DasError::Common(ErrorCode::CrossChainLockError));
    }
    Ok(())
}

/// What checking an AccountCell unlocked from cross chain gives: its witness is newer
/// than version 1 and its status is Normal again.
pub open spec fn spec_verify_unlocked_for_cross_chain(version: u32, status: AccountStatus) -> Result<(), DasError> {
    if version <= 1 {
        Err(DasError::Common(ErrorCode::InvalidTransactionStructure))
    } else if status != AccountStatus::Normal {
        Err(DasError::Common(ErrorCode::CrossChainUnlockError))
    } else {
        Ok(())
    }
}

/// Checks that the AccountCell in the outputs is unlocked from cross chain.
pub fn verify_account_is_unlocked_for_cross_chain(version: u32, status: AccountStatus) -> (r: Result<(), DasError>)
    ensures
        r == spec_verify_unlocked_for_cross_chain(version, status),
{
    if version <= 1 {
        return Err(DasError::Common(ErrorCode::InvalidTransactionStructure));
    }
    if status != AccountStatus::Normal {
        return Err(DasError::Common(ErrorCode::CrossChainUnlockError));
    }
    Ok(())
}

/// Where an account stands in its life, as the expiration check of an AccountCell
/// reports it.
#[derive(Debug, Clone, Copy, PartialEq, Eq, Structural)]
pub enum ExpirationStage {
    Active,
    GracePeriod,
    AuctionPeriod,
    AuctionConfirmationPeriod,
    Expired,
}

/// One record of an IncomeCell: whom the capacity belongs to, and how much.
pub struct IncomeRecord {
    pub belong_to: Vec<u8>,
    pub capacity: u64,
}

/// The sum of the capacity of the records that belong to `lock`.
pub open spec fn income_of(records: Seq<IncomeRecord>, lock: Seq<u8>) -> int
    decreases records.len(),
{
    if records.len() == 0 {
        0
    } else {
        income_of(records.drop_last(), lock) + if records.last().belong_to@ == lock {
            records.last().capacity as int
        } else {
            0
        }
    }
}

proof fn lemma_income_of_prefix(records: Seq<IncomeRecord>, lock: Seq<u8>, i: int)
    requires
        0 <= i <= records.len(),
    ensures
        0 <= income_of(records.take(i), lock) <= income_of(records, lock),
    decreases records.len() - i,
{
    if i < records.len() {
        lemma_income_of_prefix(records, lock, i + 1);
        assert(records.take(i + 1).drop_last() =~= records.take(i));
    } else {
        assert(records.take(i) =~= records);
    }
    lemma_income_of_nonneg(records.take(i), lock);
}

proof fn lemma_income_of_nonneg(records: Seq<IncomeRecord>, lock: Seq<u8>)
    ensures
        income_of(records, lock) >= 0,
    decreases records.len(),
{
    if records.len() > 0 {
        lemma_income_of_nonneg(records.drop_last(), lock);
    }
}

/// The capacity that the records of an IncomeCell hold for `lock`, or `None` where
/// the sum does not fit in a `u64` (the contract aborts there).
pub fn sum_income_of(records: &Vec<IncomeRecord>, lock: &[u8]) -> (r: Option<u64>)
    ensures
        r matches Some(v) ==> v == income_of(records@, lock@),
        r is None <==> income_of(records@, lock@) > u64::MAX,
{
    let mut sum: u64 = 0;
    let mut i: usize = 0;
    while i < records.len()
        invariant
            i <= records@.len(),
            sum == income_of(records@.take(i as int), lock@),
        decreases records@.len() - i,
    {
        proof {
            assert(records@.take(i as int + 1).drop_last() =~= records@.take(i as int));
        }
        if bytes_eq(records[i].belong_to.as_slice(), lock) {
            match sum.checked_add(records[i].capacity) {
                Some(v) => {
                    sum = v;
                },
                None => {
                    proof {
                        lemma_income_of_prefix(records@, lock@, i as int + 1);
                    }
                    return None;
                },
            }
        }
        i = i + 1;
    }
    assert(records@.take(records@.len() as int) =~= records@);
    Some(sum)
}

/// What the first part of checking a renewal gives: the account is not locked for
/// cross chain and has not expired beyond its grace period; the DAS wallet receives
/// more in the IncomeCell of the outputs than it held in that of the inputs; and
/// the new expiry is at least a year after the old. The result is what was paid
/// and how long the account was renewed for.
pub open spec fn spec_verify_renew_payment(
    input_status: AccountStatus,
    stage: ExpirationStage,
    exist_capacity: u64,
    paid_total: u64,
    input_expired_at: u64,
    output_expired_at: u64,
) -> Result<(u64, u64), DasError> {
    if input_status == AccountStatus::LockedForCrossChain {
        Err(DasError::AccountCell(AccountCellErrorCode::AccountCellStatusLocked))
    } else if stage != ExpirationStage::Active && stage != ExpirationStage::GracePeriod {
        Err(DasError::AccountCell(AccountCellErrorCode::AccountCellHasExpired))
    } else if !(paid_total > exist_capacity) {
        Err(DasError::Common(ErrorCode::IncomeCellConsolidateConditionNotSatisfied))
    } else if !(output_expired_at - input_expired_at >= YEAR_SEC) {
        Err(DasError::AccountCell(AccountCellErrorCode::AccountCellRenewDurationMustLongerThanYear))
    } else {
        Ok(((paid_total - exist_capacity) as u64, (output_expired_at - input_expired_at) as u64))
    }
}

/// Checks the payment and the duration of a renewal of an AccountCell. A new expiry
/// before the old one makes the contract abort, so it is left out.
pub fn verify_renew_payment(
    input_status: AccountStatus,
    stage: ExpirationStage,
    exist_capacity: u64,
    paid_total: u64,
    input_expired_at: u64,
    output_expired_at: u64,
) -> (r: Result<(u64, u64), DasError>)
    requires
        input_status != AccountStatus::LockedForCrossChain && (stage == ExpirationStage::Active || stage
            == ExpirationStage::GracePeriod) && paid_total > exist_capacity ==> input_expired_at
            <= output_expired_at,
    ensures
        r == spec_verify_renew_payment(
            input_status,
            stage,
            exist_capacity,
            paid_total,
            input_expired_at,
            output_expired_at,
        ),
{
    if input_status == AccountStatus::LockedForCrossChain {
        return Err(DasError::AccountCell(AccountCellErrorCode::AccountCellStatusLocked));
    }
    if stage != ExpirationStage::Active && stage != ExpirationStage::GracePeriod {
        return Err(DasError::AccountCell(AccountCellErrorCode::AccountCellHasExpired));
    }
    if !(paid_total > exist_capacity) {
        return Err(DasError::Common(ErrorCode::IncomeCellConsolidateConditionNotSatisfied));
    }
    let paid = paid_total - exist_capacity;
    let duration = output_expired_at - input_expired_at;
    if !(duration >= YEAR_SEC) {
        return Err(DasError::AccountCell(AccountCellErrorCode::AccountCellRenewDurationMustLongerThanYear));
    }
    Ok((paid, duration))
}

/// The prices of accounts of one length, in USD.
pub struct PriceItem {
    pub length: u8,
    pub new: u64,
    pub renew: u64,
}

/// Finds the price of accounts of the given length, the first one listed, or the
/// error `ItemMissing` where none is listed.
pub fn find_price(prices: &Vec<PriceItem>, length_in_price: u8) -> (r: Result<usize, DasError>)
    ensures
        r matches Ok(i) ==> i < prices@.len() && prices@[i as int].length == length_in_price && forall|j: int|
            0 <= j < i ==> prices@[j].length != length_in_price,
        r is Err <==> forall|i: int| 0 <= i < prices@.len() ==> prices@[i].length != length_in_price,
        r matches Err(e) ==> e == DasError::Common(ErrorCode::ItemMissing),
{
    let mut i: usize = 0;
    while i < prices.len()
        invariant
            i <= prices@.len(),
            forall|j: int| 0 <= j < i ==> prices@[j].length != length_in_price,
        decreases prices@.len() - i,
    {
        if prices[i].length == length_in_price {
            return Ok(i);
        }
        i = i + 1;
    }
    Err(DasError::Common(ErrorCode::ItemMissing))
}

/// What the second part of checking a renewal gives: at least a year was paid for,
/// and the renewal lasts as long as what was paid buys, give or take a day. Where the
/// balance cells gave more than was paid, the result is the change owed to the sender.
pub open spec fn spec_verify_renew_duration(
    paid: u64,
    duration: u64,
    yearly_capacity: u64,
    expected_duration: u64,
    total_input_capacity: u64,
) -> Result<Option<u64>, DasError> {
    if !(paid >= yearly_capacity) {
        Err(DasError::AccountCell(AccountCellErrorCode::AccountCellRenewDurationMustLongerThanYear))
    } else if !(expected_duration - DAY_SEC <= duration && duration <= expected_duration + DAY_SEC) {
        Err(DasError::AccountCell(AccountCellErrorCode::AccountCellRenewDurationBiggerThanPayed))
    } else if total_input_capacity > paid {
        Ok(Some((total_input_capacity - paid) as u64))
    } else {
        Ok(None)
    }
}

/// Checks that the renewal lasts as long as what was paid buys, and gives the change
/// owed to the sender. `yearly_capacity` and `expected_duration` are what the price of
/// the account and the quote make of a year and of the payment.
pub fn verify_renew_duration(
    paid: u64,
    duration: u64,
    yearly_capacity: u64,
    expected_duration: u64,
    total_input_capacity: u64,
) -> (r: Result<Option<u64>, DasError>)
    ensures
        r == spec_verify_renew_duration(paid, duration, yearly_capacity, expected_duration, total_input_capacity),
{
    if !(paid >= yearly_capacity) {
        return Err(DasError::AccountCell(AccountCellErrorCode::AccountCellRenewDurationMustLongerThanYear));
    }
    let lower_ok = (expected_duration as u128) <= (duration as u128) + (DAY_SEC as u128);
    let upper_ok = (duration as u128) <= (expected_duration as u128) + (DAY_SEC as u128);
    if !(lower_ok && upper_ok) {
        return Err(DasError::AccountCell(AccountCellErrorCode::AccountCellRenewDurationBiggerThanPayed));
    }
    if total_input_capacity > paid {
        Ok(Some(total_input_capacity - paid))
    } else {
        Ok(None)
    }
}

/// What checking that an expired account may be recycled gives: it has expired past
/// every period, and its status is Normal or LockedForCrossChain.
pub open spec fn spec_verify_recyclable(stage: ExpirationStage, status: AccountStatus) -> Result<(), DasError> {
    if stage != ExpirationStage::Expired {
        Err(DasError::AccountCell(AccountCellErrorCode::AccountCellStillCanNotRecycle))
    } else if !(status == AccountStatus::Normal || status == AccountStatus::LockedForCrossChain) {
        Err(DasError::AccountCell(AccountCellErrorCode::AccountCellStatusLocked))
    } else {
        Ok(())
    }
}

/// Checks that an expired AccountCell may be recycled.
pub fn verify_recyclable(stage: ExpirationStage, status: AccountStatus) -> (r: Result<(), DasError>)
    ensures
        r == spec_verify_recyclable(stage, status),
{
    if stage != ExpirationStage::Expired {
        return Err(DasError::AccountCell(AccountCellErrorCode::AccountCellStillCanNotRecycle));
    }
    if !(status == AccountStatus::Normal || status == AccountStatus::LockedForCrossChain) {
        return Err(DasError::AccountCell(AccountCellErrorCode::AccountCellStatusLocked));
    }
    Ok(())
}

/// The value of `enable_sub_account` that means the sub-account function is off.
pub const SUB_ACCOUNT_ENABLE_OFF: u8 = 0;

/// The value of `enable_sub_account` that means the sub-account function is on.
pub const SUB_ACCOUNT_ENABLE_ON: u8 = 1;

/// Whether the sub-account function of an account is on: witnesses of versions 3 and 4
/// carry the field, older ones have it off.
pub open spec fn spec_enable_sub_account(version: u32, field: u8) -> u8 {
    if version == 3 || version == 4 {
        field
    } else {
        SUB_ACCOUNT_ENABLE_OFF
    }
}

/// The `enable_sub_account` status of an AccountCell witness of the given version.
pub fn enable_sub_account_status(version: u32, field: u8) -> (r: u8)
    ensures
        r == spec_enable_sub_account(version, field),
{
    if version == 3 || version == 4 {
        field
    } else {
        SUB_ACCOUNT_ENABLE_OFF
    }
}

/// What checking the account chain after a recycle gives: the previous AccountCell
/// pointed at the expired account, and now points where the expired one pointed.
pub open spec fn spec_verify_account_relinked(
    prev_input_next: Seq<u8>,
    expired_id: Seq<u8>,
    prev_output_next: Seq<u8>,
    expired_next: Seq<u8>,
) -> Result<(), DasError> {
    if prev_input_next != expired_id {
        Err(DasError::AccountCell(AccountCellErrorCode::AccountCellMissingPrevAccount))
    } else if prev_output_next != expired_next {
        Err(DasError::AccountCell(AccountCellErrorCode::AccountCellNextUpdateError))
    } else {
        Ok(())
    }
}

/// Checks that recycling an AccountCell takes it out of the account chain.
pub fn verify_account_relinked(
    prev_input_next: &[u8],
    expired_id: &[u8],
    prev_output_next: &[u8],
    expired_next: &[u8],
) -> (r: Result<(), DasError>)
    ensures
        r == spec_verify_account_relinked(prev_input_next@, expired_id@, prev_output_next@, expired_next@),
{
    if !bytes_eq(prev_input_next, expired_id) {
        return Err(DasError::AccountCell(AccountCellErrorCode::AccountCellMissingPrevAccount));
    }
    if !bytes_eq(prev_output_next, expired_next) {
        return Err(DasError::AccountCell(AccountCellErrorCode::AccountCellNextUpdateError));
    }
    Ok(())
}

/// An output cell locked by the DAS wallet: its capacity and whether it has a type.
pub struct WalletCell {
    pub capacity: u64,
    pub has_type: bool,
}

/// Where the capacity of a recycled account goes.
#[derive(Debug, Clone, Copy, PartialEq, Eq, Structural)]
pub enum RecycleRefund {
    /// The owner gets `owner_change` back, and DAS gets `das_change` where that is
    /// worth a cell of its own.
    ToOwner { owner_change: u64, das_change: Option<u64> },
    /// The owner lock is the black hole of cross chain: the DAS wallet cells in the
    /// outputs have been checked to carry everything.
    ToDasWallet,
}

/// What checking the refund of a recycled account gives. The owner is owed the
/// capacity of the AccountCell and their share of the SubAccountCell, less the common
/// fee; DAS is owed its profit in the SubAccountCell, in a cell of its own where that
/// profit reaches the basic capacity of a cell. Where the owner lock is the black
/// hole of cross chain, everything goes to the DAS wallet: one wallet cell with what
/// the owner was owed, and a second with the profit where it is owed a cell of its
/// own, none of them with a type.
pub open spec fn spec_recycle_refund(
    expired_capacity: u64,
    to_owner: u64,
    to_das: u64,
    available_fee: u64,
    black_hole: bool,
    wallet_cells: Seq<WalletCell>,
) -> Result<RecycleRefund, DasError> {
    let owner_change = (expired_capacity + to_owner - available_fee) as u64;
    let das_cell = to_das >= crate::types::CELL_BASIC_CAPACITY;
    if !black_hole {
        Ok(RecycleRefund::ToOwner { owner_change, das_change: if das_cell { Some(to_das) } else { None } })
    } else if wallet_cells.len() != (if das_cell { 2int } else { 1int }) {
        Err(DasError::Common(ErrorCode::InvalidTransactionStructure))
    } else if exists|i: int| 0 <= i < wallet_cells.len() && wallet_cells[i].has_type {
        Err(DasError::Common(ErrorCode::InvalidTransactionStructure))
    } else if wallet_cells[0].capacity != owner_change {
        Err(DasError::Common(ErrorCode::ChangeError))
    } else if das_cell && wallet_cells[1].capacity != to_das {
        Err(DasError::Common(ErrorCode::ChangeError))
    } else {
        Ok(RecycleRefund::ToDasWallet)
    }
}

/// Decides and checks where the capacity of a recycled account goes. `to_owner` and
/// `to_das` are the shares of the SubAccountCell (both 0 without one), and
/// `wallet_cells` the outputs locked by the DAS wallet.
pub fn recycle_refund(
    expired_capacity: u64,
    to_owner: u64,
    to_das: u64,
    available_fee: u64,
    black_hole: bool,
    wallet_cells: &Vec<WalletCell>,
) -> (r: Result<RecycleRefund, DasError>)
    requires
        available_fee <= expired_capacity + to_owner <= u64::MAX,
    ensures
        r == spec_recycle_refund(expired_capacity, to_owner, to_das, available_fee, black_hole, wallet_cells@),
{
    let owner_change = expired_capacity + to_owner - available_fee;
    let das_cell = to_das >= crate::types::CELL_BASIC_CAPACITY;
    if !black_hole {
        let das_change = if das_cell {
            Some(to_das)
        } else {
            None
        };
        return Ok(RecycleRefund::ToOwner { owner_change, das_change });
    }
    let expected_count: usize = if das_cell {
        2
    } else {
        1
    };
    if wallet_cells.len() != expected_count {
        return Err(DasError::Common(ErrorCode::InvalidTransactionStructure));
    }
    let mut i: usize = 0;
    while i < wallet_cells.len()
        invariant
            i <= wallet_cells@.len(),
            black_hole,
            das_cell == (to_das >= crate::types::CELL_BASIC_CAPACITY),
            wallet_cells@.len() == (if das_cell { 2int } else { 1int }),
            forall|j: int| 0 <= j < i ==> !wallet_cells@[j].has_type,
        decreases wallet_cells@.len() - i,
    {
        if wallet_cells[i].has_type {
            assert(wallet_cells@[i as int].has_type);
            return Err(DasError::Common(ErrorCode::InvalidTransactionStructure));
        }
        i = i + 1;
    }
    if wallet_cells[0].capacity != owner_change {
        return Err(DasError::Common(ErrorCode::ChangeError));
    }
    if das_cell && wallet_cells[1].capacity != to_das {
        return Err(DasError::Common(ErrorCode::ChangeError));
    }
    Ok(RecycleRefund::ToDasWallet)
}

/// What checking the statuses of a forced recovery gives: the AccountCell was not
/// Normal, is Normal afterwards, and has expired into its auction, the confirmation
/// of the auction, or beyond.
pub open spec fn spec_verify_force_recover(
    input_status: AccountStatus,
    output_status: AccountStatus,
    stage: ExpirationStage,
) -> Result<(), DasError> {
    if input_status == AccountStatus::Normal {
        Err(DasError::Common(ErrorCode::InvalidTransactionStructure))
    } else if output_status != AccountStatus::Normal {
        Err(DasError::AccountCell(AccountCellErrorCode::AccountCellStatusLocked))
    } else if !(stage == ExpirationStage::AuctionPeriod || stage == ExpirationStage::AuctionConfirmationPeriod
        || stage == ExpirationStage::Expired) {
        Err(DasError::AccountCell(AccountCellErrorCode::AccountCellIsNotExpired))
    } else {
        Ok(())
    }
}

/// Checks the statuses of an AccountCell whose status is forced back to Normal.
pub fn verify_force_recover(
    input_status: AccountStatus,
    output_status: AccountStatus,
    stage: ExpirationStage,
) -> (r: Result<(), DasError>)
    ensures
        r == spec_verify_force_recover(input_status, output_status, stage),
{
    if input_status == AccountStatus::Normal {
        return Err(DasError::Common(ErrorCode::InvalidTransactionStructure));
    }
    if output_status != AccountStatus::Normal {
        return Err(DasError::AccountCell(AccountCellErrorCode::AccountCellStatusLocked));
    }
    if !(stage == ExpirationStage::AuctionPeriod || stage == ExpirationStage::AuctionConfirmationPeriod || stage
        == ExpirationStage::Expired) {
        return Err(DasError::AccountCell(AccountCellErrorCode::AccountCellIsNotExpired));
    }
    Ok(())
}

/// What a forced recovery may keep from the capacity it refunds, in shannons.
pub const FORCE_RECOVER_FEE: u64 = 20_000;

/// What checking the refund of a forced recovery gives: the BalanceCell goes to the
/// owner of the AccountCell and carries what was recycled, less at most 20000
/// shannons.
pub open spec fn spec_verify_force_recover_refund(
    expected_lock: Seq<u8>,
    current_lock: Seq<u8>,
    recycled: u64,
    refunded: u64,
) -> Result<(), DasError> {
    if expected_lock != current_lock {
        Err(DasError::Common(ErrorCode::AccountSaleCellRefundError))
    } else if !(refunded >= recycled - FORCE_RECOVER_FEE) {
        Err(DasError::Common(ErrorCode::AccountSaleCellRefundError))
    } else {
        Ok(())
    }
}

/// Checks the refund of a forced recovery. A recycled capacity under 20000 shannons
/// makes the contract abort, so it is left out.
pub fn verify_force_recover_refund(
    expected_lock: &[u8],
    current_lock: &[u8],
    recycled: u64,
    refunded: u64,
) -> (r: Result<(), DasError>)
    requires
        expected_lock@ == current_lock@ ==> recycled >= FORCE_RECOVER_FEE,
    ensures
        r == spec_verify_force_recover_refund(expected_lock@, current_lock@, recycled, refunded),
{
    if !bytes_eq(expected_lock, current_lock) {
        return Err(DasError::Common(ErrorCode::AccountSaleCellRefundError));
    }
    if !(refunded >= recycled - FORCE_RECOVER_FEE) {
        return Err(DasError::Common(ErrorCode::AccountSaleCellRefundError));
    }
    Ok(())
}

/// How the capacity of a SubAccountCell recycled with its parent account is shared:
/// DAS gets its profit, the owner the rest. The result is (to DAS, to the owner).
pub fn sub_account_refund_split(total_capacity: u64, das_profit: u64) -> (r: (u64, u64))
    requires
        das_profit <= total_capacity,
    ensures
        r.0 == das_profit,
        r.0 + r.1 == total_capacity,
{
    (das_profit, total_capacity - das_profit)
}

/// What checking the `enable_sub_account` switch gives: it was off in the inputs, the
/// AccountCell in the outputs has a witness of the latest version, and it is on there.
pub open spec fn spec_verify_enable_sub_account_switch(
    input_status: u8,
    output_version: u32,
    output_status: u8,
) -> Result<(), DasError> {
    if input_status != SUB_ACCOUNT_ENABLE_OFF {
        Err(DasError::AccountCell(AccountCellErrorCode::AccountCellPermissionDenied))
    } else if output_version != ACCOUNT_CELL_DATA_LATEST_VERSION {
        Err(DasError::Common(ErrorCode::InvalidTransactionStructure))
    } else if output_status != SUB_ACCOUNT_ENABLE_ON {
        Err(DasError::AccountCell(AccountCellErrorCode::AccountCellPermissionDenied))
    } else {
        Ok(())
    }
}

/// Checks that a transaction switches the sub-account function of an account on.
/// `input_status` is the switch as `enable_sub_account_status` reads it.
pub fn verify_enable_sub_account_switch(input_status: u8, output_version: u32, output_status: u8) -> (r: Result<
    (),
    DasError,
>)
    ensures
        r == spec_verify_enable_sub_account_switch(input_status, output_version, output_status),
{
    if input_status != SUB_ACCOUNT_ENABLE_OFF {
        return Err(DasError::AccountCell(AccountCellErrorCode::AccountCellPermissionDenied));
    }
    if output_version != ACCOUNT_CELL_DATA_LATEST_VERSION {
        return Err(DasError::Common(ErrorCode::InvalidTransactionStructure));
    }
    if output_status != SUB_ACCOUNT_ENABLE_ON {
        return Err(DasError::AccountCell(AccountCellErrorCode::AccountCellPermissionDenied));
    }
    Ok(())
}

/// What checking the new SubAccountCell gives: it holds exactly the basic capacity
/// and the prepared fee of sub-accounts, and its type arguments are the account ID of
/// its parent. Where the balance cells gave more than the SubAccountCell holds, the
/// result is the change owed to the sender, less the common fee.
pub open spec fn spec_verify_new_sub_account_cell(
    capacity: u64,
    basic_capacity: u64,
    prepared_fee_capacity: u64,
    type_args: Seq<u8>,
    account_id: Seq<u8>,
    total_input_capacity: u64,
    available_fee: u64,
) -> Result<Option<u64>, DasError> {
    if capacity != basic_capacity + prepared_fee_capacity {
        Err(DasError::SubAccountCell(SubAccountCellErrorCode::SubAccountCellCapacityError))
    } else if type_args != account_id {
        Err(DasError::SubAccountCell(SubAccountCellErrorCode::SubAccountCellAccountIdError))
    } else if total_input_capacity > capacity {
        Ok(Some((total_input_capacity - capacity - available_fee) as u64))
    } else {
        Ok(None)
    }
}

/// Checks the SubAccountCell that enabling sub-accounts creates, and gives the change
/// owed to the sender. Change smaller than the fee makes the contract abort, so it is
/// left out.
pub fn verify_new_sub_account_cell(
    capacity: u64,
    basic_capacity: u64,
    prepared_fee_capacity: u64,
    type_args: &[u8],
    account_id: &[u8],
    total_input_capacity: u64,
    available_fee: u64,
) -> (r: Result<Option<u64>, DasError>)
    requires
        total_input_capacity > capacity ==> total_input_capacity - capacity >= available_fee,
    ensures
        r == spec_verify_new_sub_account_cell(
            capacity,
            basic_capacity,
            prepared_fee_capacity,
            type_args@,
            account_id@,
            total_input_capacity,
            available_fee,
        ),
{
    if capacity as u128 != basic_capacity as u128 + prepared_fee_capacity as u128 {
        return Err(DasError::SubAccountCell(SubAccountCellErrorCode::SubAccountCellCapacityError));
    }
    if !bytes_eq(type_args, account_id) {
        return Err(DasError::SubAccountCell(SubAccountCellErrorCode::SubAccountCellAccountIdError));
    }
    if total_input_capacity > capacity {
        Ok(Some(total_input_capacity - capacity - available_fee))
    } else {
        Ok(None)
    }
}

/// What checking the times of an AccountCell won in a Dutch auction gives: it is
/// registered anew now, no throttled action has happened yet, and it expires exactly a
/// year from now.
pub open spec fn spec_verify_auction_bid_times(
    timestamp: u64,
    registered_at: u64,
    times: ThrottleTimes,
    expired_at: u64,
) -> Result<(), DasError> {
    if !(registered_at == timestamp && times.last_transfer_account_at == 0 && times.last_edit_manager_at == 0
        && times.last_edit_records_at == 0) {
        Err(DasError::Common(ErrorCode::InvalidTransactionStructure))
    } else if expired_at - timestamp != YEAR_SEC {
        Err(DasError::Common(ErrorCode::InvalidTransactionStructure))
    } else {
        Ok(())
    }
}

/// Checks the times that winning an expired account in a Dutch auction sets.
pub fn verify_auction_bid_times(
    timestamp: u64,
    registered_at: u64,
    times: &ThrottleTimes,
    expired_at: u64,
) -> (r: Result<(), DasError>)
    ensures
        r == spec_verify_auction_bid_times(timestamp, registered_at, *times, expired_at),
{
    if !(registered_at == timestamp && times.last_transfer_account_at == 0 && times.last_edit_manager_at == 0
        && times.last_edit_records_at == 0) {
        return Err(DasError::Common(ErrorCode::InvalidTransactionStructure));
    }
    if expired_at < timestamp || expired_at - timestamp != YEAR_SEC {
        return Err(DasError::Common(ErrorCode::InvalidTransactionStructure));
    }
    Ok(())
}

/// The price of an expired account in a Dutch auction, in USD: the price of its
/// storage at the quote (CKB in USD, scaled by one CKB in shannons) and the price of a
/// new account of its length.
pub open spec fn spec_auction_basic_price(storage_capacity: u64, quote: u64, new_price: u64) -> int {
    storage_capacity * quote / (ONE_CKB as int) + new_price
}

/// The basic price of an expired account in a Dutch auction.
pub fn auction_basic_price(storage_capacity: u64, quote: u64, new_price: u64) -> (r: u64)
    requires
        storage_capacity * quote <= u64::MAX,
        spec_auction_basic_price(storage_capacity, quote, new_price) <= u64::MAX,
    ensures
        r == spec_auction_basic_price(storage_capacity, quote, new_price),
{
    let storage_price = storage_capacity * quote / ONE_CKB;
    storage_price + new_price
}

/// What checking the owner of an account won in a Dutch auction gives: the winner is
/// both its owner and its manager.
pub open spec fn spec_verify_owner_is_manager(owner_args: Seq<u8>, manager_args: Seq<u8>) -> Result<(), DasError> {
    if owner_args != manager_args {
        Err(DasError::AccountCell(AccountCellErrorCode::AccountCellPermissionDenied))
    } else {
        Ok(())
    }
}

/// Checks that the owner and the manager of an account won in a Dutch auction are the
/// same.
pub fn verify_owner_is_manager(owner_args: &[u8], manager_args: &[u8]) -> (r: Result<(), DasError>)
    ensures
        r == spec_verify_owner_is_manager(owner_args@, manager_args@),
{
    if !bytes_eq(owner_args, manager_args) {
        return Err(DasError::AccountCell(AccountCellErrorCode::AccountCellPermissionDenied));
    }
    Ok(())
}

/// The kinds of approval that an AccountCell can carry.
#[derive(Debug, Clone, Copy, PartialEq, Eq, Structural)]
pub enum AccountApprovalAction {
    Transfer,
}

/// The name of the transfer approval in a witness.
pub open spec fn transfer_action_name() -> Seq<u8> {
    seq![116u8, 114u8, 97u8, 110u8, 115u8, 102u8, 101u8, 114u8]
}

/// What reading the action of an approval gives: only witnesses of the latest version
/// carry approvals, and the only action is `transfer`.
pub open spec fn spec_get_approval_action(version: u32, action: Seq<u8>) -> Result<AccountApprovalAction, DasError> {
    if version != ACCOUNT_CELL_DATA_LATEST_VERSION {
        Err(DasError::Common(ErrorCode::InvalidTransactionStructure))
    } else if action == transfer_action_name() {
        Ok(AccountApprovalAction::Transfer)
    } else {
        Err(DasError::AccountCell(AccountCellErrorCode::ApprovalActionUndefined))
    }
}

/// Reads the action of the approval in an AccountCell witness.
pub fn get_approval_action(version: u32, action: &[u8]) -> (r: Result<AccountApprovalAction, DasError>)
    ensures
        r == spec_get_approval_action(version, action@),
{
    if version != ACCOUNT_CELL_DATA_LATEST_VERSION {
        return Err(DasError::Common(ErrorCode::InvalidTransactionStructure));
    }
    let name: [u8; 8] = [116, 114, 97, 110, 115, 102, 101, 114];
    assert(name@ =~= transfer_action_name());
    if bytes_eq(action, &name) {
        Ok(AccountApprovalAction::Transfer)
    } else {
        Err(DasError::AccountCell(AccountCellErrorCode::ApprovalActionUndefined))
    }
}

/// A renewal is accepted exactly when at least a year was paid for and it lasts what
/// was paid for, give or take one day either way; then what the inputs hold beyond
/// the payment is owed back to the sender.
pub proof fn lemma_renewal_lasts_what_was_paid(
    paid: u64,
    duration: u64,
    yearly_capacity: u64,
    expected_duration: u64,
    total_input_capacity: u64,
)
    ensures
        spec_verify_renew_duration(paid, duration, yearly_capacity, expected_duration, total_input_capacity) is Ok
            <==> (paid >= yearly_capacity && expected_duration <= duration + DAY_SEC && duration
            <= expected_duration + DAY_SEC),
        spec_verify_renew_duration(paid, duration, yearly_capacity, expected_duration, total_input_capacity)
            matches Ok(change) ==> (if total_input_capacity > paid {
            change == Some((total_input_capacity - paid) as u64)
        } else {
            change is None
        }),
        paid >= yearly_capacity && !(expected_duration <= duration + DAY_SEC && duration <= expected_duration
            + DAY_SEC) ==> spec_verify_renew_duration(
            paid,
            duration,
            yearly_capacity,
            expected_duration,
            total_input_capacity,
        ) == Err::<Option<u64>, DasError>(
            DasError::AccountCell(AccountCellErrorCode::AccountCellRenewDurationBiggerThanPayed),
        ),
{
}

/// A renewal payment is accepted exactly when the account is not locked for cross
/// chain, has not expired beyond its grace period, the DAS wallet gained something,
/// and the new expiry is at least a year after the old; then what was paid is what the
/// wallet gained and the renewal lasts from the old expiry to the new.
pub proof fn lemma_renewal_payment_is_what_the_wallet_gained(
    input_status: AccountStatus,
    stage: ExpirationStage,
    exist_capacity: u64,
    paid_total: u64,
    input_expired_at: u64,
    output_expired_at: u64,
)
    requires
        input_expired_at <= output_expired_at,
    ensures
        spec_verify_renew_payment(
            input_status,
            stage,
            exist_capacity,
            paid_total,
            input_expired_at,
            output_expired_at,
        ) is Ok <==> {
            &&& input_status != AccountStatus::LockedForCrossChain
            &&& (stage == ExpirationStage::Active || stage == ExpirationStage::GracePeriod)
            &&& paid_total > exist_capacity
            &&& input_expired_at + YEAR_SEC <= output_expired_at
        },
        spec_verify_renew_payment(input_status, stage, exist_capacity, paid_total, input_expired_at, output_expired_at)
            matches Ok((paid, duration)) ==> paid + exist_capacity == paid_total && input_expired_at + duration
            == output_expired_at,
{
}

} // verus!
