use vstd::prelude::*;

use crate::error::{AccountCellErrorCode, SubAccountCellErrorCode};
use crate::types::{
    das_lock_owner_type, is_script_eq, is_type_id_equal, same_script, same_type_id, AccountStatus, Script,
    SpecScript, DAS_LOCK_TYPE_ETH, DAY_SEC,
};

verus! {

/// The parameters of an approval that lets `to_lock` take the account over.
#[derive(Debug)]
pub struct TransferApproval {
    pub platform_lock: Script,
    pub protected_until: u64,
    pub sealed_until: u64,
    pub delay_count_remain: u8,
    pub to_lock: Script,
}

/// The value of a transfer approval.
pub struct SpecTransferApproval {
    pub platform_lock: SpecScript,
    pub protected_until: u64,
    pub sealed_until: u64,
    pub delay_count_remain: u8,
    pub to_lock: SpecScript,
}

impl View for TransferApproval {
    type V = SpecTransferApproval;

    open spec fn view(&self) -> SpecTransferApproval {
        SpecTransferApproval {
            platform_lock: self.platform_lock@,
            protected_until: self.protected_until,
            sealed_until: self.sealed_until,
            delay_count_remain: self.delay_count_remain,
            to_lock: self.to_lock@,
        }
    }
}

impl TransferApproval {
    /// A copy of the approval.
    pub fn copy(&self) -> (r: TransferApproval)
        ensures
            r@ == self@,
    {
        TransferApproval {
            platform_lock: self.platform_lock.copy(),
            protected_until: self.protected_until,
            sealed_until: self.sealed_until,
            delay_count_remain: self.delay_count_remain,
            to_lock: self.to_lock.copy(),
        }
    }
}

/// The approval field of an account: empty, or an approval of a transfer.
#[derive(Debug)]
pub enum AccountApproval {
    Empty,
    Transfer(TransferApproval),
}

/// The value of an approval field.
pub enum SpecAccountApproval {
    Empty,
    Transfer(SpecTransferApproval),
}

impl View for AccountApproval {
    type V = SpecAccountApproval;

    open spec fn view(&self) -> SpecAccountApproval {
        match self {
            AccountApproval::Empty => SpecAccountApproval::Empty,
            AccountApproval::Transfer(t) => SpecAccountApproval::Transfer(t@),
        }
    }
}

impl AccountApproval {
    /// A copy of the approval field.
    pub fn copy(&self) -> (r: AccountApproval)
        ensures
            r@ == self@,
    {
        match self {
            AccountApproval::Empty => AccountApproval::Empty,
            AccountApproval::Transfer(t) => AccountApproval::Transfer(t.copy()),
        }
    }
}

/// Days that the protection and the sealing of an approval may each last at most.
pub const APPROVAL_LIMIT_DAYS: u64 = 10;

/// The AccountCell witness fields that the approval rules read.
#[derive(Debug)]
pub struct AccountApprovalWitness {
    /// Version of the AccountCellData; only the latest, 4, carries an approval.
    pub version: u32,
    pub status: AccountStatus,
    pub approval: AccountApproval,
}

/// The latest version of the AccountCellData.
pub const ACCOUNT_CELL_DATA_LATEST_VERSION: u32 = 4;

/// The outcome of creating a transfer approval on an AccountCell.
pub open spec fn spec_account_approval_create(
    timestamp: u64,
    das_lock: SpecScript,
    input_version: u32,
    input_status: AccountStatus,
    input_approval: SpecAccountApproval,
    output_version: u32,
    output_status: AccountStatus,
    output_approval: SpecAccountApproval,
    expired_at: u64,
) -> Result<(), AccountCellErrorCode> {
    if input_status != AccountStatus::Normal {
        Err(AccountCellErrorCode::AccountCellStatusLocked)
    } else if output_status != AccountStatus::ApprovedTransfer {
        Err(AccountCellErrorCode::AccountCellStatusLocked)
    } else if input_version == ACCOUNT_CELL_DATA_LATEST_VERSION && input_approval != SpecAccountApproval::Empty {
        Err(AccountCellErrorCode::ApprovalExist)
    } else if !(timestamp + 30 * DAY_SEC < expired_at) {
        Err(AccountCellErrorCode::AccountHasNearGracePeriod)
    } else if output_version != ACCOUNT_CELL_DATA_LATEST_VERSION {
        Err(AccountCellErrorCode::WitnessParsingError)
    } else {
        match output_approval {
            SpecAccountApproval::Empty => Err(AccountCellErrorCode::WitnessParsingError),
            SpecAccountApproval::Transfer(p) => {
                if !same_type_id(p.platform_lock, das_lock) {
                    Err(AccountCellErrorCode::ApprovalParamsPlatformLockInvalid)
                } else if das_lock_owner_type(p.platform_lock.args) != Some(DAS_LOCK_TYPE_ETH) {
                    Err(AccountCellErrorCode::ApprovalParamsPlatformLockInvalid)
                } else if p.protected_until > timestamp + DAY_SEC * APPROVAL_LIMIT_DAYS {
                    Err(AccountCellErrorCode::ApprovalParamsProtectedUntilInvalid)
                } else if p.sealed_until > p.protected_until + DAY_SEC * APPROVAL_LIMIT_DAYS {
                    Err(AccountCellErrorCode::ApprovalParamsSealedUntilInvalid)
                } else if p.delay_count_remain != 1 {
                    Err(AccountCellErrorCode::ApprovalParamsDelayCountRemainInvalid)
                } else if !same_type_id(p.to_lock, das_lock) {
                    Err(AccountCellErrorCode::ApprovalParamsToLockInvalid)
                } else {
                    Ok(())
                }
            },
        }
    }
}

fn status_eq(a: AccountStatus, b: AccountStatus) -> (r: bool)
    ensures
        r == (a == b),
{
    a == b
}

/// Checks the creation of a transfer approval on an AccountCell: the account is
/// Normal and becomes ApprovedTransfer, it had no approval, it expires more than 30
/// days later, and the approval uses das-lock with an Ethereum platform, protects for
/// at most 10 days, seals for at most 10 more days and may be delayed once.
pub fn transfer_approval_create(
    timestamp: u64,
    das_lock: &Script,
    input: &AccountApprovalWitness,
    output: &AccountApprovalWitness,
    expired_at: u64,
) -> (r: Result<(), AccountCellErrorCode>)
    requires
        timestamp + 30 * DAY_SEC <= u64::MAX,
    ensures
        r == spec_account_approval_create(
            timestamp,
            das_lock@,
            input.version,
            input.status,
            input.approval@,
            output.version,
            output.status,
            output.approval@,
            expired_at,
        ),
{
    if !status_eq(input.status, AccountStatus::Normal) {
        return Err(AccountCellErrorCode::AccountCellStatusLocked);
    }
    if !status_eq(output.status, AccountStatus::ApprovedTransfer) {
        return Err(AccountCellErrorCode::AccountCellStatusLocked);
    }
    if input.version == ACCOUNT_CELL_DATA_LATEST_VERSION {
        if let AccountApproval::Transfer(_) = &input.approval {
            return Err(AccountCellErrorCode::ApprovalExist);
        }
    }
    if !(timestamp + 30 * DAY_SEC < expired_at) {
        return Err(AccountCellErrorCode::AccountHasNearGracePeriod);
    }
    if output.version != ACCOUNT_CELL_DATA_LATEST_VERSION {
        return Err(AccountCellErrorCode::WitnessParsingError);
    }
    let p = match &output.approval {
        AccountApproval::Empty => {
            return Err(AccountCellErrorCode::WitnessParsingError);
        },
        AccountApproval::Transfer(p) => p,
    };
    if !is_type_id_equal(&p.platform_lock, das_lock) {
        return Err(AccountCellErrorCode::ApprovalParamsPlatformLockInvalid);
    }
    if p.platform_lock.args.len() == 0 || p.platform_lock.args[0] != DAS_LOCK_TYPE_ETH {
        return Err(AccountCellErrorCode::ApprovalParamsPlatformLockInvalid);
    }
    if p.protected_until as u128 > timestamp as u128 + (DAY_SEC * APPROVAL_LIMIT_DAYS) as u128 {
        return Err(AccountCellErrorCode::ApprovalParamsProtectedUntilInvalid);
    }
    if p.sealed_until as u128 > p.protected_until as u128 + (DAY_SEC * APPROVAL_LIMIT_DAYS) as u128 {
        return Err(AccountCellErrorCode::ApprovalParamsSealedUntilInvalid);
    }
    if p.delay_count_remain != 1 {
        return Err(AccountCellErrorCode::ApprovalParamsDelayCountRemainInvalid);
    }
    if !is_type_id_equal(&p.to_lock, das_lock) {
        return Err(AccountCellErrorCode::ApprovalParamsToLockInvalid);
    }
    Ok(())
}

/// The outcome of delaying a transfer approval on an AccountCell.
pub open spec fn spec_account_approval_delay(
    input_version: u32,
    input_approval: SpecAccountApproval,
    output_version: u32,
    output_approval: SpecAccountApproval,
) -> Result<(), AccountCellErrorCode> {
    if input_version != ACCOUNT_CELL_DATA_LATEST_VERSION || output_version != ACCOUNT_CELL_DATA_LATEST_VERSION {
        Err(AccountCellErrorCode::WitnessParsingError)
    } else {
        match (input_approval, output_approval) {
            (SpecAccountApproval::Transfer(a), SpecAccountApproval::Transfer(b)) => {
                if !same_script(a.platform_lock, b.platform_lock) {
                    Err(AccountCellErrorCode::ApprovalParamsCanNotBeChanged)
                } else if a.protected_until != b.protected_until {
                    Err(AccountCellErrorCode::ApprovalParamsCanNotBeChanged)
                } else if !same_script(a.to_lock, b.to_lock) {
                    Err(AccountCellErrorCode::ApprovalParamsCanNotBeChanged)
                } else if a.delay_count_remain == 0 {
                    Err(AccountCellErrorCode::ApprovalParamsDelayCountNotEnough)
                } else if b.delay_count_remain != a.delay_count_remain - 1 {
                    Err(AccountCellErrorCode::ApprovalParamsDelayCountDecrementError)
                } else if !(b.sealed_until > a.sealed_until && b.sealed_until <= a.sealed_until + DAY_SEC
                    * APPROVAL_LIMIT_DAYS) {
                    Err(AccountCellErrorCode::ApprovalParamsSealedUntilIncrementError)
                } else {
                    Ok(())
                }
            },
            (SpecAccountApproval::Empty, SpecAccountApproval::Empty) => Err(
                AccountCellErrorCode::WitnessParsingError,
            ),
            _ => Err(AccountCellErrorCode::ApprovalParamsCanNotBeChanged),
        }
    }
}

/// Checks the delay of a transfer approval on an AccountCell: only `sealed_until` and
/// `delay_count_remain` change; the count must be positive and drops by one, and the
/// seal moves later by at most 10 days.
pub fn transfer_approval_delay(input: &AccountApprovalWitness, output: &AccountApprovalWitness) -> (r: Result<
    (),
    AccountCellErrorCode,
>)
    ensures
        r == spec_account_approval_delay(input.version, input.approval@, output.version, output.approval@),
{
    if input.version != ACCOUNT_CELL_DATA_LATEST_VERSION || output.version != ACCOUNT_CELL_DATA_LATEST_VERSION {
        return Err(AccountCellErrorCode::WitnessParsingError);
    }
    let (a, b) = match (&input.approval, &output.approval) {
        (AccountApproval::Transfer(a), AccountApproval::Transfer(b)) => (a, b),
        (AccountApproval::Empty, AccountApproval::Empty) => {
            return Err(AccountCellErrorCode::WitnessParsingError);
        },
        _ => {
            return Err(AccountCellErrorCode::ApprovalParamsCanNotBeChanged);
        },
    };
    if !is_script_eq(&a.platform_lock, &b.platform_lock) {
        return Err(AccountCellErrorCode::ApprovalParamsCanNotBeChanged);
    }
    if a.protected_until != b.protected_until {
        return Err(AccountCellErrorCode::ApprovalParamsCanNotBeChanged);
    }
    if !is_script_eq(&a.to_lock, &b.to_lock) {
        return Err(AccountCellErrorCode::ApprovalParamsCanNotBeChanged);
    }
    if a.delay_count_remain == 0 {
        return Err(AccountCellErrorCode::ApprovalParamsDelayCountNotEnough);
    }
    if b.delay_count_remain != a.delay_count_remain - 1 {
        return Err(AccountCellErrorCode::ApprovalParamsDelayCountDecrementError);
    }
    if !(b.sealed_until > a.sealed_until && b.sealed_until as u128 <= a.sealed_until as u128 + (DAY_SEC
        * APPROVAL_LIMIT_DAYS) as u128) {
        return Err(AccountCellErrorCode::ApprovalParamsSealedUntilIncrementError);
    }
    Ok(())
}

/// The outcome of revoking a transfer approval on an AccountCell.
pub open spec fn spec_account_approval_revoke(
    timestamp: u64,
    input_version: u32,
    input_approval: SpecAccountApproval,
    output_version: u32,
    output_status: AccountStatus,
    output_approval: SpecAccountApproval,
) -> Result<(), AccountCellErrorCode> {
    if input_version != ACCOUNT_CELL_DATA_LATEST_VERSION || output_version != ACCOUNT_CELL_DATA_LATEST_VERSION {
        Err(AccountCellErrorCode::WitnessParsingError)
    } else {
        match input_approval {
            SpecAccountApproval::Empty => Err(AccountCellErrorCode::WitnessParsingError),
            SpecAccountApproval::Transfer(a) => {
                if !(timestamp > a.protected_until) {
                    Err(AccountCellErrorCode::ApprovalInProtectionPeriod)
                } else if output_status != AccountStatus::Normal {
                    Err(AccountCellErrorCode::ApprovalNotRevoked)
                } else if output_approval != SpecAccountApproval::Empty {
                    Err(AccountCellErrorCode::ApprovalNotRevoked)
                } else {
                    Ok(())
                }
            },
        }
    }
}

/// Checks the revocation of a transfer approval on an AccountCell: the protection has
/// passed, and the account returns to Normal with no approval.
pub fn transfer_approval_revoke(
    timestamp: u64,
    input: &AccountApprovalWitness,
    output: &AccountApprovalWitness,
) -> (r: Result<(), AccountCellErrorCode>)
    ensures
        r == spec_account_approval_revoke(
            timestamp,
            input.version,
            input.approval@,
            output.version,
            output.status,
            output.approval@,
        ),
{
    if input.version != ACCOUNT_CELL_DATA_LATEST_VERSION || output.version != ACCOUNT_CELL_DATA_LATEST_VERSION {
        return Err(AccountCellErrorCode::WitnessParsingError);
    }
    let a = match &input.approval {
        AccountApproval::Empty => {
            return Err(AccountCellErrorCode::WitnessParsingError);
        },
        AccountApproval::Transfer(a) => a,
    };
    if !(timestamp > a.protected_until) {
        return Err(AccountCellErrorCode::ApprovalInProtectionPeriod);
    }
    if !status_eq(output.status, AccountStatus::Normal) {
        return Err(AccountCellErrorCode::ApprovalNotRevoked);
    }
    if let AccountApproval::Transfer(_) = &output.approval {
        return Err(AccountCellErrorCode::ApprovalNotRevoked);
    }
    Ok(())
}

/// The outcome of fulfilling a transfer approval on an AccountCell: on success, the
/// `sealed_until` of the approval.
pub open spec fn spec_account_approval_fulfill(
    input_version: u32,
    input_approval: SpecAccountApproval,
    output_version: u32,
    output_status: AccountStatus,
    output_approval: SpecAccountApproval,
    output_lock: SpecScript,
    output_records_empty: bool,
) -> Result<u64, AccountCellErrorCode> {
    if input_version != ACCOUNT_CELL_DATA_LATEST_VERSION || output_version != ACCOUNT_CELL_DATA_LATEST_VERSION {
        Err(AccountCellErrorCode::WitnessParsingError)
    } else {
        match input_approval {
            SpecAccountApproval::Empty => Err(AccountCellErrorCode::WitnessParsingError),
            SpecAccountApproval::Transfer(a) => {
                if output_status != AccountStatus::Normal {
                    Err(AccountCellErrorCode::ApprovalFulfillError)
                } else if output_approval != SpecAccountApproval::Empty {
                    Err(AccountCellErrorCode::ApprovalFulfillError)
                } else if !same_script(output_lock, a.to_lock) {
                    Err(AccountCellErrorCode::ApprovalFulfillError)
                } else if !output_records_empty {
                    Err(AccountCellErrorCode::ApprovalFulfillError)
                } else {
                    Ok(a.sealed_until)
                }
            },
        }
    }
}

/// Checks the fulfilment of a transfer approval on an AccountCell: the account returns
/// to Normal with no approval, its lock becomes the approval's `to_lock`, and its
/// records are cleared. Returns the time until which the approval was sealed.
pub fn transfer_approval_fulfill(
    input: &AccountApprovalWitness,
    output: &AccountApprovalWitness,
    output_lock: &Script,
    output_records_empty: bool,
) -> (r: Result<u64, AccountCellErrorCode>)
    ensures
        r == spec_account_approval_fulfill(
            input.version,
            input.approval@,
            output.version,
            output.status,
            output.approval@,
            output_lock@,
            output_records_empty,
        ),
{
    if input.version != ACCOUNT_CELL_DATA_LATEST_VERSION || output.version != ACCOUNT_CELL_DATA_LATEST_VERSION {
        return Err(AccountCellErrorCode::WitnessParsingError);
    }
    let a = match &input.approval {
        AccountApproval::Empty => {
            return Err(AccountCellErrorCode::WitnessParsingError);
        },
        AccountApproval::Transfer(a) => a,
    };
    if !status_eq(output.status, AccountStatus::Normal) {
        return Err(AccountCellErrorCode::ApprovalFulfillError);
    }
    if let AccountApproval::Transfer(_) = &output.approval {
        return Err(AccountCellErrorCode::ApprovalFulfillError);
    }
    if !is_script_eq(output_lock, &a.to_lock) {
        return Err(AccountCellErrorCode::ApprovalFulfillError);
    }
    if !output_records_empty {
        return Err(AccountCellErrorCode::ApprovalFulfillError);
    }
    Ok(a.sealed_until)
}


/// An approval is delayed at most once: once an approval has been created and then
/// delayed, every further delay of it is refused.
pub proof fn lemma_approval_delayed_at_most_once(
    timestamp: u64,
    das_lock: SpecScript,
    input_version: u32,
    input_status: AccountStatus,
    input_approval: SpecAccountApproval,
    created: SpecTransferApproval,
    expired_at: u64,
    delayed: SpecAccountApproval,
    later_version: u32,
    later: SpecAccountApproval,
)
    requires
        spec_account_approval_create(
            timestamp,
            das_lock,
            input_version,
            input_status,
            input_approval,
            ACCOUNT_CELL_DATA_LATEST_VERSION,
            AccountStatus::ApprovedTransfer,
            SpecAccountApproval::Transfer(created),
            expired_at,
        ) is Ok,
        spec_account_approval_delay(
            ACCOUNT_CELL_DATA_LATEST_VERSION,
            SpecAccountApproval::Transfer(created),
            ACCOUNT_CELL_DATA_LATEST_VERSION,
            delayed,
        ) is Ok,
    ensures
        spec_account_approval_delay(ACCOUNT_CELL_DATA_LATEST_VERSION, delayed, later_version, later) is Err,
{
}

/// An approval stays sealed at most 30 days after it was created: 10 days of
/// protection, 10 more of sealing, and 10 more from its one delay.
pub proof fn lemma_approval_sealed_within_thirty_days(
    timestamp: u64,
    das_lock: SpecScript,
    input_version: u32,
    input_status: AccountStatus,
    input_approval: SpecAccountApproval,
    created: SpecTransferApproval,
    expired_at: u64,
    delayed: SpecTransferApproval,
)
    requires
        spec_account_approval_create(
            timestamp,
            das_lock,
            input_version,
            input_status,
            input_approval,
            ACCOUNT_CELL_DATA_LATEST_VERSION,
            AccountStatus::ApprovedTransfer,
            SpecAccountApproval::Transfer(created),
            expired_at,
        ) is Ok,
        spec_account_approval_delay(
            ACCOUNT_CELL_DATA_LATEST_VERSION,
            SpecAccountApproval::Transfer(created),
            ACCOUNT_CELL_DATA_LATEST_VERSION,
            SpecAccountApproval::Transfer(delayed),
        ) is Ok,
    ensures
        created.sealed_until <= timestamp + 20 * DAY_SEC,
        delayed.sealed_until <= timestamp + 30 * DAY_SEC,
        delayed.protected_until == created.protected_until,
        delayed.to_lock == created.to_lock,
{
}

/// A revoked approval leaves the account as if it had never been approved: whether a
/// new approval can then be created is decided as for a Normal account with no approval.
pub proof fn lemma_revoked_account_can_be_approved_again(
    revoked_at: u64,
    revoked: SpecAccountApproval,
    status_after: AccountStatus,
    approval_after: SpecAccountApproval,
    timestamp: u64,
    das_lock: SpecScript,
    output_version: u32,
    output_status: AccountStatus,
    output_approval: SpecAccountApproval,
    expired_at: u64,
)
    requires
        spec_account_approval_revoke(
            revoked_at,
            ACCOUNT_CELL_DATA_LATEST_VERSION,
            revoked,
            ACCOUNT_CELL_DATA_LATEST_VERSION,
            status_after,
            approval_after,
        ) is Ok,
    ensures
        spec_account_approval_create(
            timestamp,
            das_lock,
            ACCOUNT_CELL_DATA_LATEST_VERSION,
            status_after,
            approval_after,
            output_version,
            output_status,
            output_approval,
            expired_at,
        ) == spec_account_approval_create(
            timestamp,
            das_lock,
            ACCOUNT_CELL_DATA_LATEST_VERSION,
            AccountStatus::Normal,
            SpecAccountApproval::Empty,
            output_version,
            output_status,
            output_approval,
            expired_at,
        ),
{
}

/// A transfer approval is created only on a Normal account that becomes
/// ApprovedTransfer, had no approval and expires more than 30 days later; the approval
/// protects for at most 10 days, seals for at most 10 more, may be delayed exactly once,
/// and goes to a das-lock.
pub proof fn lemma_created_approval_is_bounded(
    timestamp: u64,
    das_lock: SpecScript,
    input_version: u32,
    input_status: AccountStatus,
    input_approval: SpecAccountApproval,
    output_version: u32,
    output_status: AccountStatus,
    output_approval: SpecAccountApproval,
    expired_at: u64,
)
    requires
        spec_account_approval_create(
            timestamp,
            das_lock,
            input_version,
            input_status,
            input_approval,
            output_version,
            output_status,
            output_approval,
            expired_at,
        ) is Ok,
    ensures
        input_status == AccountStatus::Normal,
        output_status == AccountStatus::ApprovedTransfer,
        input_version == ACCOUNT_CELL_DATA_LATEST_VERSION ==> input_approval == SpecAccountApproval::Empty,
        timestamp + 30 * DAY_SEC < expired_at,
        output_version == ACCOUNT_CELL_DATA_LATEST_VERSION,
        output_approval matches SpecAccountApproval::Transfer(p) && {
            &&& p.protected_until <= timestamp + 10 * DAY_SEC
            &&& p.sealed_until <= p.protected_until + 10 * DAY_SEC
            &&& p.delay_count_remain == 1
            &&& same_type_id(p.to_lock, das_lock)
            &&& same_type_id(p.platform_lock, das_lock)
        },
{
}

/// A delay is accepted exactly when both sides carry a transfer approval in the latest
/// version, only the seal and the count differ, the count was positive and drops by
/// one, and the seal moves later by at most 10 days.
pub proof fn lemma_delay_moves_only_the_seal(
    input_version: u32,
    input_approval: SpecAccountApproval,
    output_version: u32,
    output_approval: SpecAccountApproval,
)
    ensures
        spec_account_approval_delay(input_version, input_approval, output_version, output_approval) is Ok <==> {
            &&& input_version == ACCOUNT_CELL_DATA_LATEST_VERSION
            &&& output_version == ACCOUNT_CELL_DATA_LATEST_VERSION
            &&& input_approval matches SpecAccountApproval::Transfer(a)
            &&& output_approval matches SpecAccountApproval::Transfer(b)
            &&& same_script(a.platform_lock, b.platform_lock)
            &&& a.protected_until == b.protected_until
            &&& same_script(a.to_lock, b.to_lock)
            &&& a.delay_count_remain > 0
            &&& b.delay_count_remain + 1 == a.delay_count_remain
            &&& a.sealed_until < b.sealed_until <= a.sealed_until + 10 * DAY_SEC
        },
{
}

/// A revocation is accepted exactly when both sides are in the latest version, there
/// was an approval whose protection has passed, and the account returns to Normal with
/// no approval.
pub proof fn lemma_revoked_after_protection(
    timestamp: u64,
    input_version: u32,
    input_approval: SpecAccountApproval,
    output_version: u32,
    output_status: AccountStatus,
    output_approval: SpecAccountApproval,
)
    ensures
        spec_account_approval_revoke(
            timestamp,
            input_version,
            input_approval,
            output_version,
            output_status,
            output_approval,
        ) is Ok <==> {
            &&& input_version == ACCOUNT_CELL_DATA_LATEST_VERSION
            &&& output_version == ACCOUNT_CELL_DATA_LATEST_VERSION
            &&& input_approval matches SpecAccountApproval::Transfer(a)
            &&& timestamp > a.protected_until
            &&& output_status == AccountStatus::Normal
            &&& output_approval == SpecAccountApproval::Empty
        },
{
}

/// A fulfilment is accepted exactly when both sides are in the latest version, there
/// was an approval, and the account returns to Normal with no approval and no records,
/// locked by the approval's `to_lock`; it then gives the time until which the approval
/// was sealed.
pub proof fn lemma_fulfilment_hands_over_the_account(
    input_version: u32,
    input_approval: SpecAccountApproval,
    output_version: u32,
    output_status: AccountStatus,
    output_approval: SpecAccountApproval,
    output_lock: SpecScript,
    output_records_empty: bool,
)
    ensures
        spec_account_approval_fulfill(
            input_version,
            input_approval,
            output_version,
            output_status,
            output_approval,
            output_lock,
            output_records_empty,
        ) is Ok <==> {
            &&& input_version == ACCOUNT_CELL_DATA_LATEST_VERSION
            &&& output_version == ACCOUNT_CELL_DATA_LATEST_VERSION
            &&& input_approval matches SpecAccountApproval::Transfer(a)
            &&& output_status == AccountStatus::Normal
            &&& output_approval == SpecAccountApproval::Empty
            &&& same_script(output_lock, a.to_lock)
            &&& output_records_empty
        },
        spec_account_approval_fulfill(
            input_version,
            input_approval,
            output_version,
            output_status,
            output_approval,
            output_lock,
            output_records_empty,
        ) matches Ok(sealed) ==> input_approval matches SpecAccountApproval::Transfer(a) && sealed
            == a.sealed_until,
{
}

} // verus!
