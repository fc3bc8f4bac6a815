use vstd::prelude::*;

use crate::approval::{AccountApproval, SpecAccountApproval, SpecTransferApproval, APPROVAL_LIMIT_DAYS};
use crate::error::{DasError, ErrorCode, SubAccountCellErrorCode};
use crate::types::{
    is_script_eq, is_type_id_equal, same_script, same_type_id, AccountStatus, Script, SpecScript, DAY_SEC,
    RATE_BASE, YEAR_SEC,
};

verus! {

/// A sub-account as the SMT of a SubAccountCell stores it.
#[derive(Debug)]
pub struct SubAccount {
    pub lock: Script,
    pub id: Vec<u8>,
    pub account: Vec<u8>,
    pub suffix: Vec<u8>,
    pub registered_at: u64,
    pub expired_at: u64,
    pub status: AccountStatus,
    pub records: Vec<Vec<u8>>,
    pub nonce: u64,
    pub enable_sub_account: u8,
    pub renew_sub_account_price: u64,
    pub approval: AccountApproval,
}

/// The value of a sub-account.
pub struct SpecSubAccount {
    pub lock: SpecScript,
    pub id: Seq<u8>,
    pub account: Seq<u8>,
    pub suffix: Seq<u8>,
    pub registered_at: u64,
    pub expired_at: u64,
    pub status: AccountStatus,
    pub records: Seq<Seq<u8>>,
    pub nonce: u64,
    pub enable_sub_account: u8,
    pub renew_sub_account_price: u64,
    pub approval: SpecAccountApproval,
}

/// The records of a sub-account.
pub open spec fn records_view(r: Seq<Vec<u8>>) -> Seq<Seq<u8>> {
    r.map_values(|x: Vec<u8>| x@)
}

impl View for SubAccount {
    type V = SpecSubAccount;

    open spec fn view(&self) -> SpecSubAccount {
        SpecSubAccount {
            lock: self.lock@,
            id: self.id@,
            account: self.account@,
            suffix: self.suffix@,
            registered_at: self.registered_at,
            expired_at: self.expired_at,
            status: self.status,
            records: records_view(self.records@),
            nonce: self.nonce,
            enable_sub_account: self.enable_sub_account,
            renew_sub_account_price: self.renew_sub_account_price,
            approval: self.approval@,
        }
    }
}

fn copy_records(r: &Vec<Vec<u8>>) -> (out: Vec<Vec<u8>>)
    ensures
        records_view(out@) == records_view(r@),
{
    let mut out: Vec<Vec<u8>> = Vec::new();
    let mut i: usize = 0;
    while i < r.len()
        invariant
            i <= r@.len(),
            records_view(out@) == records_view(r@).subrange(0, i as int),
        decreases r@.len() - i,
    {
        let ghost prev = out@;
        let x = crate::bytes::clone_bytes(&r[i]);
        out.push(x);
        assert(out@ == prev.push(x));
        assert(records_view(out@) =~= records_view(prev).push(x@));
        i = i + 1;
        assert(records_view(out@) =~= records_view(r@).subrange(0, i as int));
    }
    assert(records_view(r@).subrange(0, i as int) =~= records_view(r@));
    out
}

/// What a sub-account witness does.
#[derive(Debug, Clone, Copy, PartialEq, Eq, Structural)]
pub enum SubAccountAction {
    Create,
    Renew,
    Edit,
    Recycle,
    CreateApproval,
    DelayApproval,
    RevokeApproval,
    FulfillApproval,
}

/// The new value that a sub-account witness carries.
#[derive(Debug)]
pub enum SubAccountEditValue {
    Nothing,
    Owner(Vec<u8>),
    Manager(Vec<u8>),
    Records(Vec<Vec<u8>>),
    ExpiredAt(u64),
    Approval(AccountApproval),
    Proof,
}

/// The value of an edit value.
pub enum SpecEditValue {
    Nothing,
    Owner(Seq<u8>),
    Manager(Seq<u8>),
    Records(Seq<Seq<u8>>),
    ExpiredAt(u64),
    Approval(SpecAccountApproval),
    Proof,
}

impl View for SubAccountEditValue {
    type V = SpecEditValue;

    open spec fn view(&self) -> SpecEditValue {
        match self {
            SubAccountEditValue::Nothing => SpecEditValue::Nothing,
            SubAccountEditValue::Owner(a) => SpecEditValue::Owner(a@),
            SubAccountEditValue::Manager(a) => SpecEditValue::Manager(a@),
            SubAccountEditValue::Records(r) => SpecEditValue::Records(records_view(r@)),
            SubAccountEditValue::ExpiredAt(t) => SpecEditValue::ExpiredAt(*t),
            SubAccountEditValue::Approval(a) => SpecEditValue::Approval(a@),
            SubAccountEditValue::Proof => SpecEditValue::Proof,
        }
    }
}

/// The version of the SubAccount structure that new witnesses must carry.
pub const SUB_ACCOUNT_LATEST_VERSION: u32 = 2;

/// `s` with its nonce moved one step on.
pub open spec fn bump_nonce(s: SpecSubAccount) -> SpecSubAccount {
    SpecSubAccount { nonce: (s.nonce + 1) as u64, ..s }
}

/// The sub-account that a witness produces from the current one, before its nonce moves on.
pub open spec fn spec_apply_edit(
    action: SubAccountAction,
    s: SpecSubAccount,
    value: SpecEditValue,
    das_lock: SpecScript,
) -> Result<SpecSubAccount, SubAccountCellErrorCode> {
    match action {
        SubAccountAction::Edit => match value {
            SpecEditValue::Owner(args) => Ok(
                SpecSubAccount {
                    lock: SpecScript { args, ..das_lock },
                    records: Seq::empty(),
                    ..s
                },
            ),
            SpecEditValue::Manager(args) => Ok(SpecSubAccount { lock: SpecScript { args, ..das_lock }, ..s }),
            SpecEditValue::Records(records) => Ok(SpecSubAccount { records, ..s }),
            _ => Err(SubAccountCellErrorCode::WitnessEditKeyInvalid),
        },
        SubAccountAction::Renew => match value {
            SpecEditValue::ExpiredAt(t) => Ok(SpecSubAccount { expired_at: t, ..s }),
            _ => Err(SubAccountCellErrorCode::WitnessEditKeyInvalid),
        },
        SubAccountAction::CreateApproval | SubAccountAction::DelayApproval => match value {
            SpecEditValue::Approval(a) => Ok(
                SpecSubAccount { status: AccountStatus::ApprovedTransfer, approval: a, ..s },
            ),
            _ => Err(SubAccountCellErrorCode::WitnessEditKeyInvalid),
        },
        SubAccountAction::RevokeApproval => match value {
            SpecEditValue::Nothing => Ok(
                SpecSubAccount { status: AccountStatus::Normal, approval: SpecAccountApproval::Empty, ..s },
            ),
            _ => Err(SubAccountCellErrorCode::WitnessEditKeyInvalid),
        },
        SubAccountAction::FulfillApproval => match value {
            SpecEditValue::Nothing => match s.approval {
                SpecAccountApproval::Transfer(t) => Ok(
                    SpecSubAccount {
                        lock: t.to_lock,
                        records: Seq::empty(),
                        status: AccountStatus::Normal,
                        approval: SpecAccountApproval::Empty,
                        ..s
                    },
                ),
                SpecAccountApproval::Empty => Err(SubAccountCellErrorCode::ApprovalActionUndefined),
            },
            _ => Err(SubAccountCellErrorCode::WitnessEditKeyInvalid),
        },
        _ => Err(SubAccountCellErrorCode::WitnessEditKeyInvalid),
    }
}

/// Whether a witness edits the lock of a sub-account: a new owner or a new manager.
pub open spec fn edits_lock(action: SubAccountAction, value: SpecEditValue) -> bool {
    action == SubAccountAction::Edit && (value is Owner || value is Manager)
}

/// The sub-account that a witness produces: the edit applied, and the nonce one higher.
/// `args_check` is what reading the new lock arguments as an owner and a manager gave;
/// only an edit of the lock reads it.
pub open spec fn spec_generate_new_sub_account(
    new_version: u32,
    action: SubAccountAction,
    s: SpecSubAccount,
    value: SpecEditValue,
    das_lock: SpecScript,
    args_check: Result<(), DasError>,
) -> Result<SpecSubAccount, DasError> {
    if new_version != SUB_ACCOUNT_LATEST_VERSION {
        Err(DasError::SubAccountCell(SubAccountCellErrorCode::WitnessUpgradeNeeded))
    } else if edits_lock(action, value) && args_check is Err {
        Err(args_check->Err_0)
    } else {
        match spec_apply_edit(action, s, value, das_lock) {
            Ok(n) => Ok(bump_nonce(n)),
            Err(e) => Err(DasError::SubAccountCell(e)),
        }
    }
}

impl SubAccount {
    /// A copy of the sub-account.
    pub fn copy(&self) -> (r: SubAccount)
        ensures
            r@ == self@,
    {
        SubAccount {
            lock: self.lock.copy(),
            id: crate::bytes::clone_bytes(&self.id),
            account: crate::bytes::clone_bytes(&self.account),
            suffix: crate::bytes::clone_bytes(&self.suffix),
            registered_at: self.registered_at,
            expired_at: self.expired_at,
            status: self.status,
            records: copy_records(&self.records),
            nonce: self.nonce,
            enable_sub_account: self.enable_sub_account,
            renew_sub_account_price: self.renew_sub_account_price,
            approval: self.approval.copy(),
        }
    }
}

/// Computes the sub-account that a witness leaves in the SMT: an edit of the owner
/// (which clears the records), the manager or the records; a renewal; the creation,
/// delay, revocation or fulfilment of an approval; and in every case a nonce one higher.
/// New lock arguments must read as an owner and a manager: `args_check` is what
/// reading them gave.
pub fn generate_new_sub_account_by_edit_value(
    new_sub_account_version: u32,
    action: SubAccountAction,
    sub_account: &SubAccount,
    edit_value: &SubAccountEditValue,
    das_lock: &Script,
    args_check: Result<(), DasError>,
) -> (r: Result<SubAccount, DasError>)
    requires
        sub_account.nonce < u64::MAX,
    ensures
        match spec_generate_new_sub_account(
            new_sub_account_version,
            action,
            sub_account@,
            edit_value@,
            das_lock@,
            args_check,
        ) {
            Ok(n) => r matches Ok(v) && v@ == n,
            Err(e) => r == Err::<SubAccount, DasError>(e),
        },
{
    if new_sub_account_version != SUB_ACCOUNT_LATEST_VERSION {
        return Err(DasError::SubAccountCell(SubAccountCellErrorCode::WitnessUpgradeNeeded));
    }
    if action == SubAccountAction::Edit {
        match edit_value {
            SubAccountEditValue::Owner(_) | SubAccountEditValue::Manager(_) => {
                if let Err(e) = args_check {
                    return Err(e);
                }
            },
            _ => {},
        }
    }
    let mut n = sub_account.copy();
    match action {
        SubAccountAction::Edit => match edit_value {
            SubAccountEditValue::Owner(args) => {
                n.lock = Script {
                    code_hash: crate::bytes::clone_bytes(&das_lock.code_hash),
                    hash_type: das_lock.hash_type,
                    args: crate::bytes::clone_bytes(args),
                };
                n.records = Vec::new();
                assert(records_view(n.records@) =~= Seq::<Seq<u8>>::empty());
            },
            SubAccountEditValue::Manager(args) => {
                n.lock = Script {
                    code_hash: crate::bytes::clone_bytes(&das_lock.code_hash),
                    hash_type: das_lock.hash_type,
                    args: crate::bytes::clone_bytes(args),
                };
            },
            SubAccountEditValue::Records(records) => {
                n.records = copy_records(records);
            },
            _ => {
                return Err(DasError::SubAccountCell(SubAccountCellErrorCode::WitnessEditKeyInvalid));
            },
        },
        SubAccountAction::Renew => match edit_value {
            SubAccountEditValue::ExpiredAt(t) => {
                n.expired_at = *t;
            },
            _ => {
                return Err(DasError::SubAccountCell(SubAccountCellErrorCode::WitnessEditKeyInvalid));
            },
        },
        SubAccountAction::CreateApproval | SubAccountAction::DelayApproval => match edit_value {
            SubAccountEditValue::Approval(a) => {
                n.status = AccountStatus::ApprovedTransfer;
                n.approval = a.copy();
            },
            _ => {
                return Err(DasError::SubAccountCell(SubAccountCellErrorCode::WitnessEditKeyInvalid));
            },
        },
        SubAccountAction::RevokeApproval => match edit_value {
            SubAccountEditValue::Nothing => {
                n.status = AccountStatus::Normal;
                n.approval = AccountApproval::Empty;
            },
            _ => {
                return Err(DasError::SubAccountCell(SubAccountCellErrorCode::WitnessEditKeyInvalid));
            },
        },
        SubAccountAction::FulfillApproval => match edit_value {
            SubAccountEditValue::Nothing => {
                let to_lock = match &sub_account.approval {
                    AccountApproval::Transfer(t) => t.to_lock.copy(),
                    AccountApproval::Empty => {
                        return Err(DasError::SubAccountCell(SubAccountCellErrorCode::ApprovalActionUndefined));
                    },
                };
                n.lock = to_lock;
                n.records = Vec::new();
                assert(records_view(n.records@) =~= Seq::<Seq<u8>>::empty());
                n.status = AccountStatus::Normal;
                n.approval = AccountApproval::Empty;
            },
            _ => {
                return Err(DasError::SubAccountCell(SubAccountCellErrorCode::WitnessEditKeyInvalid));
            },
        },
        _ => {
            return Err(DasError::SubAccountCell(SubAccountCellErrorCode::WitnessEditKeyInvalid));
        },
    }
    n.nonce = sub_account.nonce + 1;
    Ok(n)
}

/// Every change of a sub-account moves its nonce one step on and keeps what names it:
/// its ID, its account, its suffix and when it was registered.
pub proof fn lemma_sub_account_change_keeps_identity(
    new_version: u32,
    action: SubAccountAction,
    s: SpecSubAccount,
    value: SpecEditValue,
    das_lock: SpecScript,
    args_check: Result<(), DasError>,
)
    requires
        s.nonce < u64::MAX,
        spec_generate_new_sub_account(new_version, action, s, value, das_lock, args_check) is Ok,
    ensures
        ({
            let n = spec_generate_new_sub_account(new_version, action, s, value, das_lock, args_check)->Ok_0;
            &&& n.nonce == s.nonce + 1
            &&& n.id == s.id
            &&& n.account == s.account
            &&& n.suffix == s.suffix
            &&& n.registered_at == s.registered_at
        }),
{
}

/// The outcome of creating a transfer approval on a sub-account.
pub open spec fn spec_sub_account_approval_create(
    timestamp: u64,
    das_lock: SpecScript,
    old_approval: SpecAccountApproval,
    old_expired_at: u64,
    new_approval: SpecAccountApproval,
) -> Result<(), SubAccountCellErrorCode> {
    if old_approval != SpecAccountApproval::Empty {
        Err(SubAccountCellErrorCode::ApprovalExist)
    } else if !(timestamp + 30 * DAY_SEC < old_expired_at) {
        Err(SubAccountCellErrorCode::AccountHasNearGracePeriod)
    } else {
        match new_approval {
            SpecAccountApproval::Empty => Err(SubAccountCellErrorCode::WitnessParsingError),
            SpecAccountApproval::Transfer(p) => {
                if !same_type_id(p.platform_lock, das_lock) {
                    Err(SubAccountCellErrorCode::ApprovalParamsPlatformLockInvalid)
                } else if p.protected_until > timestamp + DAY_SEC * APPROVAL_LIMIT_DAYS {
                    Err(SubAccountCellErrorCode::ApprovalParamsProtectedUntilInvalid)
                } else if p.sealed_until > p.protected_until + DAY_SEC * APPROVAL_LIMIT_DAYS {
                    Err(SubAccountCellErrorCode::ApprovalParamsSealedUntilInvalid)
                } else if p.delay_count_remain != 1 {
                    Err(SubAccountCellErrorCode::ApprovalParamsDelayCountRemainInvalid)
                } else if !same_type_id(p.to_lock, das_lock) {
                    Err(SubAccountCellErrorCode::ApprovalParamsToLockInvalid)
                } else {
                    Ok(())
                }
            },
        }
    }
}

/// Checks the creation of a transfer approval on a sub-account: it had no approval,
/// it expires more than 30 days later, and the new approval uses das-lock, protects for
/// at most 10 days, seals for at most 10 more days and may be delayed once.
pub fn transfer_approval_create(
    timestamp: u64,
    das_lock: &Script,
    sub_account: &SubAccount,
    new_approval: &AccountApproval,
) -> (r: Result<(), SubAccountCellErrorCode>)
    requires
        timestamp + 30 * DAY_SEC <= u64::MAX,
    ensures
        r == spec_sub_account_approval_create(
            timestamp,
            das_lock@,
            sub_account.approval@,
            sub_account.expired_at,
            new_approval@,
        ),
{
    if let AccountApproval::Transfer(_) = &sub_account.approval {
        return Err(SubAccountCellErrorCode::ApprovalExist);
    }
    if !(timestamp + 30 * DAY_SEC < sub_account.expired_at) {
        return Err(SubAccountCellErrorCode::AccountHasNearGracePeriod);
    }
    let p = match new_approval {
        AccountApproval::Empty => {
            return Err(SubAccountCellErrorCode::WitnessParsingError);
        },
        AccountApproval::Transfer(p) => p,
    };
    if !is_type_id_equal(&p.platform_lock, das_lock) {
        return Err(SubAccountCellErrorCode::ApprovalParamsPlatformLockInvalid);
    }
    if p.protected_until as u128 > timestamp as u128 + (DAY_SEC * APPROVAL_LIMIT_DAYS) as u128 {
        return Err(SubAccountCellErrorCode::ApprovalParamsProtectedUntilInvalid);
    }
    if p.sealed_until as u128 > p.protected_until as u128 + (DAY_SEC * APPROVAL_LIMIT_DAYS) as u128 {
        return Err(SubAccountCellErrorCode::ApprovalParamsSealedUntilInvalid);
    }
    if p.delay_count_remain != 1 {
        return Err(SubAccountCellErrorCode::ApprovalParamsDelayCountRemainInvalid);
    }
    if !is_type_id_equal(&p.to_lock, das_lock) {
        return Err(SubAccountCellErrorCode::ApprovalParamsToLockInvalid);
    }
    Ok(())
}

/// The outcome of delaying a transfer approval on a sub-account.
pub open spec fn spec_sub_account_approval_delay(
    prev: SpecAccountApproval,
    current: SpecAccountApproval,
) -> Result<(), SubAccountCellErrorCode> {
    match (prev, current) {
        (SpecAccountApproval::Transfer(a), SpecAccountApproval::Transfer(b)) => {
            if !same_script(a.platform_lock, b.platform_lock) {
                Err(SubAccountCellErrorCode::ApprovalParamsCanNotBeChanged)
            } else if a.protected_until != b.protected_until {
                Err(SubAccountCellErrorCode::ApprovalParamsCanNotBeChanged)
            } else if !same_script(a.to_lock, b.to_lock) {
                Err(SubAccountCellErrorCode::ApprovalParamsCanNotBeChanged)
            } else if a.delay_count_remain == 0 {
                Err(SubAccountCellErrorCode::ApprovalParamsDelayCountNotEnough)
            } else if b.delay_count_remain != a.delay_count_remain - 1 {
                Err(SubAccountCellErrorCode::ApprovalParamsDelayCountDecrementError)
            } else if !(b.sealed_until > a.sealed_until) {
                Err(SubAccountCellErrorCode::ApprovalParamsSealedUntilIncrementError)
            } else {
                Ok(())
            }
        },
        (SpecAccountApproval::Empty, SpecAccountApproval::Empty) => Err(SubAccountCellErrorCode::WitnessParsingError),
        _ => Err(SubAccountCellErrorCode::ApprovalParamsCanNotBeChanged),
    }
}

/// Checks the delay of a transfer approval on a sub-account: only `sealed_until` and
/// `delay_count_remain` change; the count must be positive and drops by one, and the
/// seal moves later.
pub fn transfer_approval_delay(prev: &AccountApproval, current: &AccountApproval) -> (r: Result<
    (),
    SubAccountCellErrorCode,
>)
    ensures
        r == spec_sub_account_approval_delay(prev@, current@),
{
    let (a, b) = match (prev, current) {
        (AccountApproval::Transfer(a), AccountApproval::Transfer(b)) => (a, b),
        (AccountApproval::Empty, AccountApproval::Empty) => {
            return Err(SubAccountCellErrorCode::WitnessParsingError);
        },
        _ => {
            return Err(SubAccountCellErrorCode::ApprovalParamsCanNotBeChanged);
        },
    };
    if !is_script_eq(&a.platform_lock, &b.platform_lock) {
        return Err(SubAccountCellErrorCode::ApprovalParamsCanNotBeChanged);
    }
    if a.protected_until != b.protected_until {
        return Err(SubAccountCellErrorCode::ApprovalParamsCanNotBeChanged);
    }
    if !is_script_eq(&a.to_lock, &b.to_lock) {
        return Err(SubAccountCellErrorCode::ApprovalParamsCanNotBeChanged);
    }
    if a.delay_count_remain == 0 {
        return Err(SubAccountCellErrorCode::ApprovalParamsDelayCountNotEnough);
    }
    if b.delay_count_remain != a.delay_count_remain - 1 {
        return Err(SubAccountCellErrorCode::ApprovalParamsDelayCountDecrementError);
    }
    if !(b.sealed_until > a.sealed_until) {
        return Err(SubAccountCellErrorCode::ApprovalParamsSealedUntilIncrementError);
    }
    Ok(())
}

/// The outcome of revoking a transfer approval on a sub-account.
pub open spec fn spec_sub_account_approval_revoke(
    timestamp: u64,
    prev: SpecAccountApproval,
    new_status: AccountStatus,
    new_approval: SpecAccountApproval,
) -> Result<(), SubAccountCellErrorCode> {
    match prev {
        SpecAccountApproval::Empty => Err(SubAccountCellErrorCode::WitnessParsingError),
        SpecAccountApproval::Transfer(a) => {
            if !(timestamp > a.protected_until) {
                Err(SubAccountCellErrorCode::ApprovalInProtectionPeriod)
            } else if new_status != AccountStatus::Normal {
                Err(SubAccountCellErrorCode::AccountStatusError)
            } else if new_approval != SpecAccountApproval::Empty {
                Err(SubAccountCellErrorCode::ApprovalNotRevoked)
            } else {
                Ok(())
            }
        },
    }
}

/// Checks the revocation of a transfer approval on a sub-account: the protection has
/// passed, and the new sub-account is Normal with no approval.
pub fn transfer_approval_revoke(
    timestamp: u64,
    prev: &AccountApproval,
    new_sub_account: &SubAccount,
) -> (r: Result<(), SubAccountCellErrorCode>)
    ensures
        r == spec_sub_account_approval_revoke(timestamp, prev@, new_sub_account.status, new_sub_account.approval@),
{
    let a = match prev {
        AccountApproval::Empty => {
            return Err(SubAccountCellErrorCode::WitnessParsingError);
        },
        AccountApproval::Transfer(a) => a,
    };
    if !(timestamp > a.protected_until) {
        return Err(SubAccountCellErrorCode::ApprovalInProtectionPeriod);
    }
    if new_sub_account.status != AccountStatus::Normal {
        return Err(SubAccountCellErrorCode::AccountStatusError);
    }
    if let AccountApproval::Transfer(_) = &new_sub_account.approval {
        return Err(SubAccountCellErrorCode::ApprovalNotRevoked);
    }
    Ok(())
}

/// A sub-account's approval is delayed at most once: once it has been created and
/// then delayed, every further delay of it is refused.
pub proof fn lemma_sub_account_approval_delayed_at_most_once(
    timestamp: u64,
    das_lock: SpecScript,
    old_expired_at: u64,
    created: SpecTransferApproval,
    delayed: SpecAccountApproval,
    later: SpecAccountApproval,
)
    requires
        spec_sub_account_approval_create(
            timestamp,
            das_lock,
            SpecAccountApproval::Empty,
            old_expired_at,
            SpecAccountApproval::Transfer(created),
        ) is Ok,
        spec_sub_account_approval_delay(SpecAccountApproval::Transfer(created), delayed) is Ok,
    ensures
        spec_sub_account_approval_delay(delayed, later) is Err,
{
}

/// Whether fulfilling a transfer approval needs the owner's signature: it does while
/// the approval is still sealed.
pub fn fulfill_needs_signature(timestamp: u64, sealed_until: u64) -> (r: bool)
    ensures
        r == (timestamp <= sealed_until),
{
    timestamp <= sealed_until
}

/// The capacity of a SubAccountCell and the profits that its data records.
#[derive(Debug, Clone, Copy)]
pub struct SubAccountCellBalance {
    pub capacity: u64,
    pub das_profit: u64,
    pub owner_profit: u64,
}

/// Whether a SubAccountCell holds its profits and the basic capacity.
pub open spec fn holds_profits(c: SubAccountCellBalance, basic_capacity: u64) -> bool {
    c.capacity >= c.das_profit + c.owner_profit + basic_capacity
}

/// Checks that the SubAccountCell in inputs and in outputs each hold their profits and
/// the basic capacity of ConfigCellSubAccount.
pub fn verify_sub_account_capacity_is_enough(
    basic_capacity: u64,
    input: SubAccountCellBalance,
    output: SubAccountCellBalance,
) -> (r: Result<(), SubAccountCellErrorCode>)
    ensures
        r is Ok <==> holds_profits(input, basic_capacity) && holds_profits(output, basic_capacity),
        r is Err ==> r == Err::<(), SubAccountCellErrorCode>(SubAccountCellErrorCode::SubAccountCellCapacityError),
{
    if (input.capacity as u128) < input.das_profit as u128 + input.owner_profit as u128 + basic_capacity as u128 {
        return Err(SubAccountCellErrorCode::SubAccountCellCapacityError);
    }
    if (output.capacity as u128) < output.das_profit as u128 + output.owner_profit as u128 + basic_capacity as u128 {
        return Err(SubAccountCellErrorCode::SubAccountCellCapacityError);
    }
    Ok(())
}

/// The capacity of a SubAccountCell left for transaction fees.
pub open spec fn remain_fees(c: SubAccountCellBalance, basic_capacity: u64) -> int {
    c.capacity - c.das_profit - c.owner_profit - basic_capacity
}

/// Checks that the fee taken from a SubAccountCell is at most the common fee, and
/// returns whether the SubAccountCell paid some fee.
pub fn verify_sub_account_transaction_fee(
    common_fee: u64,
    basic_capacity: u64,
    input: SubAccountCellBalance,
    output: SubAccountCellBalance,
) -> (r: Result<bool, ErrorCode>)
    requires
        holds_profits(input, basic_capacity),
        holds_profits(output, basic_capacity),
    ensures
        r is Ok <==> remain_fees(input, basic_capacity) <= common_fee + remain_fees(output, basic_capacity),
        r is Err ==> r == Err::<bool, ErrorCode>(ErrorCode::TxFeeSpentError),
        r matches Ok(paid) ==> paid == (remain_fees(input, basic_capacity) > remain_fees(output, basic_capacity)),
{
    let input_remain = input.capacity - input.das_profit - input.owner_profit - basic_capacity;
    let output_remain = output.capacity - output.das_profit - output.owner_profit - basic_capacity;
    if input_remain as u128 > common_fee as u128 + output_remain as u128 {
        return Err(ErrorCode::TxFeeSpentError);
    }
    Ok(input_remain > output_remain)
}

/// Checks that the profit of DAS grew by exactly the fees of the manual mints and renewals.
pub fn verify_profit_to_das_with_manual(input_das_profit: u64, output_das_profit: u64, profit_to_das: u64) -> (r:
    Result<(), SubAccountCellErrorCode>)
    ensures
        r is Ok <==> output_das_profit == input_das_profit + profit_to_das,
        r is Err ==> r == Err::<(), SubAccountCellErrorCode>(SubAccountCellErrorCode::SubAccountProfitError),
{
    if output_das_profit as u128 != input_das_profit as u128 + profit_to_das as u128 {
        return Err(SubAccountCellErrorCode::SubAccountProfitError);
    }
    Ok(())
}

/// The profit of DAS that a custom script mint must pay: its share of the total profit
/// by rate, and at least the minimal profit.
pub open spec fn expected_das_profit_with_custom_script(total_profit: int, profit_rate: u32, minimal: u64) -> int {
    let by_rate = total_profit * profit_rate / RATE_BASE as int;
    if by_rate < minimal {
        minimal as int
    } else {
        by_rate
    }
}

/// Checks the profits of a mint by a custom script: the growth of DAS's profit is at
/// least the minimal profit and equals DAS's share of the total growth by the rate of
/// ConfigCellSubAccount, raised to the minimal profit where it falls below.
pub fn verify_profit_to_das_with_custom_script(
    profit_rate: u32,
    minimal_profit_to_das: u64,
    input: SubAccountCellBalance,
    output: SubAccountCellBalance,
) -> (r: Result<(), SubAccountCellErrorCode>)
    requires
        output.das_profit >= input.das_profit,
        output.owner_profit >= input.owner_profit,
        (output.owner_profit - input.owner_profit) + (output.das_profit - input.das_profit) <= u64::MAX,
        ((output.owner_profit - input.owner_profit) + (output.das_profit - input.das_profit)) * profit_rate <= u64::MAX,
    ensures
        r is Ok <==> {
            let das_profit = output.das_profit - input.das_profit;
            let total = (output.owner_profit - input.owner_profit) + das_profit;
            &&& das_profit >= minimal_profit_to_das
            &&& das_profit == expected_das_profit_with_custom_script(total, profit_rate, minimal_profit_to_das)
        },
        r is Err ==> r == Err::<(), SubAccountCellErrorCode>(SubAccountCellErrorCode::SubAccountProfitError),
{
    let owner_profit = output.owner_profit - input.owner_profit;
    let das_profit = output.das_profit - input.das_profit;
    let total_profit = owner_profit + das_profit;
    if das_profit < minimal_profit_to_das {
        return Err(SubAccountCellErrorCode::SubAccountProfitError);
    }
    let mut expected = total_profit * profit_rate as u64 / RATE_BASE;
    if expected < minimal_profit_to_das {
        expected = minimal_profit_to_das;
    }
    if expected != das_profit {
        return Err(SubAccountCellErrorCode::SubAccountProfitError);
    }
    Ok(())
}

/// Checks that the profit of DAS grew by exactly the total profit of the custom rules.
pub fn verify_profit_to_das_with_custom_rule(
    input_das_profit: u64,
    output_das_profit: u64,
    expected_total_profit: u64,
) -> (r: Result<(), SubAccountCellErrorCode>)
    requires
        output_das_profit >= input_das_profit,
    ensures
        r is Ok <==> expected_total_profit == output_das_profit - input_das_profit,
        r is Err ==> r == Err::<(), SubAccountCellErrorCode>(SubAccountCellErrorCode::SubAccountProfitError),
{
    if expected_total_profit != output_das_profit - input_das_profit {
        return Err(SubAccountCellErrorCode::SubAccountProfitError);
    }
    Ok(())
}

/// Which profits a collection takes out of a SubAccountCell.
#[derive(Debug, Clone, Copy, PartialEq, Eq, Structural)]
pub struct CollectedProfit {
    pub das: bool,
    pub owner: bool,
}

/// What is left in a SubAccountCell after the profits that a collection takes.
pub open spec fn remain_after_collect(input: SubAccountCellBalance, output: SubAccountCellBalance) -> int {
    let das = input.das_profit > 0 && output.das_profit == 0;
    let owner = input.owner_profit > 0 && output.owner_profit == 0;
    input.capacity - (if das { input.das_profit as int } else { 0 }) - (if owner {
        input.owner_profit as int
    } else {
        0
    })
}

/// The outcome of collecting the profits of a SubAccountCell.
pub open spec fn spec_collect_sub_account_profit(
    common_fee: u64,
    basic_capacity: u64,
    input: SubAccountCellBalance,
    output: SubAccountCellBalance,
) -> Result<CollectedProfit, DasError> {
    let das = input.das_profit > 0 && output.das_profit == 0;
    let owner = input.owner_profit > 0 && output.owner_profit == 0;
    let remain = input.capacity - (if das { input.das_profit as int } else { 0 }) - (if owner {
        input.owner_profit as int
    } else {
        0
    });
    if !(input.das_profit > 0 || input.owner_profit > 0) {
        Err(DasError::Common(ErrorCode::InvalidTransactionStructure))
    } else if !(das || owner) {
        Err(DasError::Common(ErrorCode::InvalidTransactionStructure))
    } else if !(output.capacity >= remain - common_fee) {
        Err(DasError::SubAccountCell(SubAccountCellErrorCode::SubAccountCollectProfitError))
    } else if !(holds_profits(input, basic_capacity) && holds_profits(output, basic_capacity)) {
        Err(DasError::SubAccountCell(SubAccountCellErrorCode::SubAccountCellCapacityError))
    } else {
        Ok(CollectedProfit { das, owner })
    }
}

/// Checks the collection of the profits of a SubAccountCell by its owner or by DAS:
/// some profit exists, each profit is either kept or taken whole, something is taken,
/// the SubAccountCell keeps all but what was taken and the common fee, and both
/// SubAccountCells hold their profits and the basic capacity. Returns which profits
/// were taken, so that their receivers can be checked.
pub fn collect_sub_account_profit(
    common_fee: u64,
    basic_capacity: u64,
    input: SubAccountCellBalance,
    output: SubAccountCellBalance,
) -> (r: Result<CollectedProfit, DasError>)
    requires
        input.capacity >= input.das_profit + input.owner_profit,
        remain_after_collect(input, output) >= common_fee,
    ensures
        r == spec_collect_sub_account_profit(common_fee, basic_capacity, input, output),
{
    if !(input.das_profit > 0 || input.owner_profit > 0) {
        return Err(DasError::Common(ErrorCode::InvalidTransactionStructure));
    }
    let mut collected_das = false;
    let mut collected_owner = false;
    let mut expected_remain: u64 = input.capacity;
    if input.das_profit > 0 && output.das_profit == 0 {
        collected_das = true;
        expected_remain = expected_remain - input.das_profit;
    }
    if input.owner_profit > 0 && output.owner_profit == 0 {
        collected_owner = true;
        expected_remain = expected_remain - input.owner_profit;
    }
    if !(collected_das || collected_owner) {
        return Err(DasError::Common(ErrorCode::InvalidTransactionStructure));
    }
    if output.capacity < expected_remain - common_fee {
        return Err(DasError::SubAccountCell(SubAccountCellErrorCode::SubAccountCollectProfitError));
    }
    if let Err(e) = verify_sub_account_capacity_is_enough(basic_capacity, input, output) {
        return Err(DasError::SubAccountCell(e));
    }
    Ok(CollectedProfit { das: collected_das, owner: collected_owner })
}

/// The outcome of a collection of the profit of DAS by the profit manager.
pub open spec fn spec_collect_sub_account_channel_profit(
    has_profit_manager_lock: bool,
    basic_capacity: u64,
    input: SubAccountCellBalance,
    output: SubAccountCellBalance,
) -> Result<(), SubAccountCellErrorCode> {
    if !has_profit_manager_lock {
        Err(SubAccountCellErrorCode::ProfitManagerLockIsRequired)
    } else if input.das_profit == 0 {
        Err(SubAccountCellErrorCode::ProfitIsEmpty)
    } else if !(input.das_profit > output.das_profit) {
        Err(SubAccountCellErrorCode::ProfitMustBeCollected)
    } else if !(holds_profits(input, basic_capacity) && holds_profits(output, basic_capacity)) {
        Err(SubAccountCellErrorCode::SubAccountCellCapacityError)
    } else {
        Ok(())
    }
}

/// Checks a collection of the profit of DAS by the profit manager, given whether some
/// input carries the profit manager's lock: it must, there is some profit, some of it
/// leaves, and both SubAccountCells hold their profits and the basic capacity.
pub fn collect_sub_account_channel_profit(
    has_profit_manager_lock: bool,
    basic_capacity: u64,
    input: SubAccountCellBalance,
    output: SubAccountCellBalance,
) -> (r: Result<(), SubAccountCellErrorCode>)
    ensures
        r == spec_collect_sub_account_channel_profit(has_profit_manager_lock, basic_capacity, input, output),
{
    if !has_profit_manager_lock {
        return Err(SubAccountCellErrorCode::ProfitManagerLockIsRequired);
    }
    if input.das_profit == 0 {
        return Err(SubAccountCellErrorCode::ProfitIsEmpty);
    }
    if !(input.das_profit > output.das_profit) {
        return Err(SubAccountCellErrorCode::ProfitMustBeCollected);
    }
    match verify_sub_account_capacity_is_enough(basic_capacity, input, output) {
        Ok(()) => Ok(()),
        Err(_) => Err(SubAccountCellErrorCode::SubAccountCellCapacityError),
    }
}

/// A collection of profits, by the owner and DAS or by the profit manager, is accepted
/// only where both SubAccountCells hold their profits and the basic capacity; the
/// profit manager's collection only where some input carries its lock.
pub proof fn lemma_accepted_collections_keep_capacity(
    common_fee: u64,
    basic_capacity: u64,
    has_profit_manager_lock: bool,
    input: SubAccountCellBalance,
    output: SubAccountCellBalance,
)
    ensures
        spec_collect_sub_account_profit(common_fee, basic_capacity, input, output) is Ok ==> holds_profits(
            input,
            basic_capacity,
        ) && holds_profits(output, basic_capacity),
        spec_collect_sub_account_channel_profit(has_profit_manager_lock, basic_capacity, input, output) is Ok ==> {
            &&& has_profit_manager_lock
            &&& holds_profits(input, basic_capacity)
            &&& holds_profits(output, basic_capacity)
        },
{
}

/// The whole years between two times, if they are at least one year apart and the
/// rest is at most one day.
pub open spec fn spec_expiration_years(from: u64, to: u64) -> Result<u64, SubAccountCellErrorCode> {
    let years = (to - from) / YEAR_SEC as int;
    let tolerance = (to - from) % YEAR_SEC as int;
    if years < 1 {
        Err(SubAccountCellErrorCode::ExpirationYearsTooShort)
    } else if tolerance > DAY_SEC {
        Err(SubAccountCellErrorCode::ExpirationToleranceReached)
    } else {
        Ok(years as u64)
    }
}

/// The number of years that a registration or a renewal pays for: the time from
/// `from` to `to` must be at least a year, in whole years give or take one day.
pub fn expiration_years(from: u64, to: u64) -> (r: Result<u64, SubAccountCellErrorCode>)
    requires
        from <= to,
    ensures
        r == spec_expiration_years(from, to),
{
    let years = (to - from) / YEAR_SEC;
    let tolerance = (to - from) % YEAR_SEC;
    if years < 1 {
        return Err(SubAccountCellErrorCode::ExpirationYearsTooShort);
    }
    if tolerance > DAY_SEC {
        return Err(SubAccountCellErrorCode::ExpirationToleranceReached);
    }
    Ok(years)
}

/// The key of a sub-account in the SMT: its 20-byte ID followed by 12 zero bytes.
pub fn gen_smt_key_by_account_id(account_id: &[u8]) -> (key: [u8; 32])
    requires
        account_id@.len() == 20,
    ensures
        key@ == account_id@ + Seq::new(12, |i: int| 0u8),
{
    let mut key = [0u8; 32];
    let mut i: usize = 0;
    while i < 20
        invariant
            account_id@.len() == 20,
            i <= 20,
            forall|j: int| 0 <= j < i ==> key@[j] == account_id@[j],
            forall|j: int| 20 <= j < 32 ==> key@[j] == 0u8,
        decreases 20 - i,
    {
        key[i] = account_id[i];
        i = i + 1;
    }
    assert(key@ =~= account_id@ + Seq::new(12, |i: int| 0u8));
    key
}

/// The outcome of the expiration check of a sub-account that a recycling reads.
#[derive(Debug, Clone, Copy, PartialEq, Eq, Structural)]
pub enum SubAccountExpiration {
    NotExpired,
    InGracePeriod,
    Expired,
    OtherError,
}

/// Decides whether a sub-account may be recycled from the outcome of its expiration
/// check: only an expired sub-account, past its grace period, may.
pub fn verify_recyclable(expiration: SubAccountExpiration) -> (r: Result<(), DasError>)
    ensures
        r == (match expiration {
            SubAccountExpiration::Expired => Ok(()),
            SubAccountExpiration::NotExpired | SubAccountExpiration::InGracePeriod => Err(
                DasError::SubAccountCell(SubAccountCellErrorCode::AccountStillCanNotBeRecycled),
            ),
            SubAccountExpiration::OtherError => Err(DasError::Common(ErrorCode::HardCodedError)),
        }),
{
    match expiration {
        SubAccountExpiration::Expired => Ok(()),
        SubAccountExpiration::NotExpired | SubAccountExpiration::InGracePeriod => Err(
            DasError::SubAccountCell(SubAccountCellErrorCode::AccountStillCanNotBeRecycled),
        ),
        SubAccountExpiration::OtherError => Err(DasError::Common(ErrorCode::HardCodedError)),
    }
}

/// Checks that a change of the custom script of a SubAccountCell changes something:
/// the script or its arguments.
pub fn verify_custom_script_changed(
    input_script: &Option<Vec<u8>>,
    output_script: &Option<Vec<u8>>,
    input_args: &Option<Vec<u8>>,
    output_args: &Option<Vec<u8>>,
) -> (r: Result<(), SubAccountCellErrorCode>)
    ensures
        r is Ok <==> (opt_bytes_view(*input_script) != opt_bytes_view(*output_script) || opt_bytes_view(*input_args)
            != opt_bytes_view(*output_args)),
        r is Err ==> r == Err::<(), SubAccountCellErrorCode>(SubAccountCellErrorCode::SubAccountCustomScriptError),
{
    if !opt_bytes_eq(input_script, output_script) || !opt_bytes_eq(input_args, output_args) {
        Ok(())
    } else {
        Err(SubAccountCellErrorCode::SubAccountCustomScriptError)
    }
}

/// The bytes of an optional byte vector.
pub open spec fn opt_bytes_view(v: Option<Vec<u8>>) -> Option<Seq<u8>> {
    match v {
        Some(x) => Some(x@),
        None => None,
    }
}

fn opt_bytes_eq(a: &Option<Vec<u8>>, b: &Option<Vec<u8>>) -> (r: bool)
    ensures
        r == (opt_bytes_view(*a) == opt_bytes_view(*b)),
{
    match (a, b) {
        (Some(x), Some(y)) => crate::bytes::bytes_eq(x.as_slice(), y.as_slice()),
        (None, None) => true,
        _ => false,
    }
}

/// Checks that the sender of a mint or renewal spent at most the manual fees and, when
/// the SubAccountCell did not pay it, the common fee.
pub fn verify_sender_cost(
    sender_input_capacity: u64,
    sender_output_capacity: u64,
    profit_from_manual_mint: u64,
    profit_from_manual_renew: u64,
    fee_paid_by_sub_account_cell: bool,
    common_fee: u64,
) -> (r: Result<(), SubAccountCellErrorCode>)
    ensures
        r is Ok <==> (sender_input_capacity <= sender_output_capacity || sender_input_capacity
            - sender_output_capacity <= profit_from_manual_mint + profit_from_manual_renew + (if fee_paid_by_sub_account_cell {
            0
        } else {
            common_fee as int
        })),
        r is Err ==> r == Err::<(), SubAccountCellErrorCode>(SubAccountCellErrorCode::SenderCapacityOverCost),
{
    if sender_input_capacity > sender_output_capacity {
        let fee_to_pay: u64 = if fee_paid_by_sub_account_cell { 0 } else { common_fee };
        if (sender_input_capacity - sender_output_capacity) as u128 > profit_from_manual_mint as u128
            + profit_from_manual_renew as u128 + fee_to_pay as u128 {
            return Err(SubAccountCellErrorCode::SenderCapacityOverCost);
        }
    }
    Ok(())
}

/// How a SubAccountCell lets sub-accounts be minted.
#[derive(Debug, Clone, Copy, PartialEq, Eq, Structural)]
pub enum SubAccountConfigFlag {
    Manual,
    CustomScript,
    CustomRule,
}

/// What matching an account against a list of custom rules gave.
#[derive(Debug, Clone, Copy, PartialEq, Eq, Structural)]
pub enum RuleMatch {
    /// No rules are set.
    NoRules,
    /// The rules could not be read.
    SyntaxError,
    /// No rule matched.
    NoMatch,
    /// A rule matched; the price it sets, in USD.
    Matched(u64),
}

/// The profits that the sub-account witnesses of a transaction add up to.
#[derive(Debug, Clone, Copy, PartialEq, Eq, Structural)]
pub struct ProfitTally {
    pub minimal_required_das_profit: u64,
    pub profit_total: u64,
    pub profit_from_manual_mint: u64,
    pub profit_from_manual_renew: u64,
    pub profit_from_manual_renew_by_other: u64,
}

/// The tally before any witness.
pub open spec fn empty_tally() -> ProfitTally {
    ProfitTally {
        minimal_required_das_profit: 0,
        profit_total: 0,
        profit_from_manual_mint: 0,
        profit_from_manual_renew: 0,
        profit_from_manual_renew_by_other: 0,
    }
}

/// Whether a tally is consistent: the minimal profit of DAS, which the manual fees make
/// up, never exceeds the total profit.
pub open spec fn tally_consistent(t: ProfitTally) -> bool {
    &&& t.minimal_required_das_profit <= t.profit_total
    &&& t.profit_from_manual_mint + t.profit_from_manual_renew + t.profit_from_manual_renew_by_other
        == t.minimal_required_das_profit
}

/// Whether adding `amount` to every field of the tally stays within `u64`.
pub open spec fn tally_has_room(t: ProfitTally, amount: int) -> bool {
    t.profit_total + amount <= u64::MAX
}

/// The facts about one new sub-account that its registration rules read.
#[derive(Debug, Clone, Copy)]
pub struct CreateFacts {
    pub old_sub_account_version: u32,
    pub new_sub_account_version: u32,
    /// What the checks of the account name gave: that it reads and its characters are
    /// valid, that it is long enough, and that it is not too long.
    pub account_chars_check: Result<(), DasError>,
    pub min_length_check: Result<(), DasError>,
    pub max_length_check: Result<(), DasError>,
    /// What the check of the initial properties of the new sub-account gave.
    pub initial_properties_check: Result<(), DasError>,
    /// When the new sub-account is registered and when it expires.
    pub registered_at: u64,
    pub expired_at: u64,
    /// Whether the witness asks for a manual mint (no edit key, or a proof as value).
    pub manual_requested: bool,
    /// Whether the witness carries a proof as its edit value.
    pub edit_value_is_proof: bool,
    /// Whether the transaction carries a signed list of manual mints.
    pub has_mint_list: bool,
    /// Whether the proof shows the account in that list.
    pub in_mint_list: bool,
    pub flag: SubAccountConfigFlag,
    pub custom_rule_on: bool,
    pub preserved: RuleMatch,
    pub price: RuleMatch,
    /// ConfigCellSubAccount.new_sub_account_price, in USD.
    pub new_sub_account_price: u64,
    /// The yearly register fee of `new_sub_account_price` in shannons.
    pub basic_yearly_capacity: u64,
    /// The yearly register fee of the matched price in shannons.
    pub rule_yearly_capacity: u64,
}

/// The whole years from `from` to `to`.
pub open spec fn span_years(from: u64, to: u64) -> int {
    (to - from) / YEAR_SEC as int
}

/// The years that a registration pays for.
pub open spec fn create_years(f: CreateFacts) -> int {
    span_years(f.registered_at, f.expired_at)
}

/// The tally after the registration of one sub-account.
pub open spec fn spec_create_step(t: ProfitTally, f: CreateFacts) -> Result<ProfitTally, DasError> {
    if f.old_sub_account_version != 2 || f.new_sub_account_version != 2 {
        Err(DasError::SubAccountCell(SubAccountCellErrorCode::WitnessVersionMismatched))
    } else if f.account_chars_check is Err {
        Err(f.account_chars_check->Err_0)
    } else if f.min_length_check is Err {
        Err(f.min_length_check->Err_0)
    } else if f.max_length_check is Err {
        Err(f.max_length_check->Err_0)
    } else if f.initial_properties_check is Err {
        Err(f.initial_properties_check->Err_0)
    } else {
        match spec_mint_step(t, f) {
            Ok(n) => Ok(n),
            Err(e) => Err(DasError::SubAccountCell(e)),
        }
    }
}

/// The tally after the registration of one sub-account whose name and initial
/// properties passed their checks.
pub open spec fn spec_mint_step(t: ProfitTally, f: CreateFacts) -> Result<ProfitTally, SubAccountCellErrorCode> {
    let basic = f.basic_yearly_capacity * create_years(f);
    if spec_expiration_years(f.registered_at, f.expired_at) is Err {
        Err(spec_expiration_years(f.registered_at, f.expired_at)->Err_0)
    } else if f.manual_requested && !f.has_mint_list {
        Err(SubAccountCellErrorCode::WitnessSignMintIsRequired)
    } else if f.manual_requested && f.in_mint_list {
        Ok(
            ProfitTally {
                minimal_required_das_profit: (t.minimal_required_das_profit + basic) as u64,
                profit_total: (t.profit_total + basic) as u64,
                profit_from_manual_mint: (t.profit_from_manual_mint + basic) as u64,
                ..t
            },
        )
    } else if f.manual_requested && f.edit_value_is_proof {
        Err(SubAccountCellErrorCode::ProofInManualSignRenewListMissing)
    } else if f.flag != SubAccountConfigFlag::CustomRule {
        Err(SubAccountCellErrorCode::CanNotMint)
    } else if !f.custom_rule_on {
        Err(SubAccountCellErrorCode::CustomRuleIsOff)
    } else if f.preserved == RuleMatch::SyntaxError {
        Err(SubAccountCellErrorCode::ConfigRulesHasSyntaxError)
    } else if f.preserved is Matched {
        Err(SubAccountCellErrorCode::AccountIsPreserved)
    } else {
        match f.price {
            RuleMatch::SyntaxError => Err(SubAccountCellErrorCode::ConfigRulesHasSyntaxError),
            RuleMatch::Matched(price) => if price < f.new_sub_account_price {
                Err(SubAccountCellErrorCode::MinimalProfitToDASNotReached)
            } else {
                Ok(
                    ProfitTally {
                        profit_total: (t.profit_total + f.rule_yearly_capacity * create_years(f)) as u64,
                        ..t
                    },
                )
            },
            _ => Err(SubAccountCellErrorCode::AccountHasNoPrice),
        }
    }
}

/// Applies the registration rules of one new sub-account to the tally: the witness
/// has the latest version; its name reads, has valid characters and a valid length;
/// its initial properties pass their check; it is registered for at least a year, in whole years give or take a day; a manual mint
/// in the signed list pays the basic fee to DAS; otherwise the custom rules must be on,
/// must not preserve the account, and must price it at least at the basic price.
pub fn create_step(t: ProfitTally, f: CreateFacts) -> (r: Result<ProfitTally, DasError>)
    requires
        f.registered_at <= f.expired_at,
        tally_consistent(t),
        tally_has_room(t, f.basic_yearly_capacity * create_years(f)),
        tally_has_room(t, f.rule_yearly_capacity * create_years(f)),
    ensures
        r == spec_create_step(t, f),
        r matches Ok(n) ==> tally_consistent(n),
{
    if f.old_sub_account_version != 2 || f.new_sub_account_version != 2 {
        return Err(DasError::SubAccountCell(SubAccountCellErrorCode::WitnessVersionMismatched));
    }
    if let Err(e) = f.account_chars_check {
        return Err(e);
    }
    if let Err(e) = f.min_length_check {
        return Err(e);
    }
    if let Err(e) = f.max_length_check {
        return Err(e);
    }
    if let Err(e) = f.initial_properties_check {
        return Err(e);
    }
    match mint_step(t, f) {
        Ok(n) => Ok(n),
        Err(e) => Err(DasError::SubAccountCell(e)),
    }
}

fn mint_step(t: ProfitTally, f: CreateFacts) -> (r: Result<ProfitTally, SubAccountCellErrorCode>)
    requires
        f.registered_at <= f.expired_at,
        tally_consistent(t),
        tally_has_room(t, f.basic_yearly_capacity * create_years(f)),
        tally_has_room(t, f.rule_yearly_capacity * create_years(f)),
    ensures
        r == spec_mint_step(t, f),
        r matches Ok(n) ==> tally_consistent(n),
{
    let years = match expiration_years(f.registered_at, f.expired_at) {
        Ok(y) => y,
        Err(e) => {
            return Err(e);
        },
    };
    if f.manual_requested {
        if !f.has_mint_list {
            return Err(SubAccountCellErrorCode::WitnessSignMintIsRequired);
        }
        if f.in_mint_list {
            let profit = f.basic_yearly_capacity * years;
            return Ok(
                ProfitTally {
                    minimal_required_das_profit: t.minimal_required_das_profit + profit,
                    profit_total: t.profit_total + profit,
                    profit_from_manual_mint: t.profit_from_manual_mint + profit,
                    ..t
                },
            );
        }
        if f.edit_value_is_proof {
            return Err(SubAccountCellErrorCode::ProofInManualSignRenewListMissing);
        }
    }
    if f.flag != SubAccountConfigFlag::CustomRule {
        return Err(SubAccountCellErrorCode::CanNotMint);
    }
    if !f.custom_rule_on {
        return Err(SubAccountCellErrorCode::CustomRuleIsOff);
    }
    match f.preserved {
        RuleMatch::SyntaxError => {
            return Err(SubAccountCellErrorCode::ConfigRulesHasSyntaxError);
        },
        RuleMatch::Matched(_) => {
            return Err(SubAccountCellErrorCode::AccountIsPreserved);
        },
        _ => {},
    }
    match f.price {
        RuleMatch::SyntaxError => Err(SubAccountCellErrorCode::ConfigRulesHasSyntaxError),
        RuleMatch::Matched(price) => {
            if price < f.new_sub_account_price {
                Err(SubAccountCellErrorCode::MinimalProfitToDASNotReached)
            } else {
                let profit = f.rule_yearly_capacity * years;
                Ok(ProfitTally { profit_total: t.profit_total + profit, ..t })
            }
        },
        _ => Err(SubAccountCellErrorCode::AccountHasNoPrice),
    }
}

/// A registration is accepted only for at least one year, in whole years give or take
/// one day.
pub proof fn lemma_accepted_registration_pays_whole_years(t: ProfitTally, f: CreateFacts)
    requires
        f.registered_at <= f.expired_at,
        spec_create_step(t, f) is Ok,
    ensures
        f.expired_at - f.registered_at >= YEAR_SEC,
        (f.expired_at - f.registered_at) % (YEAR_SEC as int) <= DAY_SEC,
{
}

/// How a renewal witness names the way it pays.
#[derive(Debug, Clone, Copy, PartialEq, Eq, Structural)]
pub enum RenewKey {
    CustomRule,
    Manual,
    Other,
}

/// The facts about one renewal that its rules read.
#[derive(Debug, Clone, Copy)]
pub struct RenewFacts {
    /// When the sub-account expires before the renewal, and after it.
    pub expired_at: u64,
    pub new_expired_at: u64,
    pub key: RenewKey,
    pub flag: SubAccountConfigFlag,
    pub custom_rule_on: bool,
    pub price: RuleMatch,
    /// Whether the SubAccountCell has price rules configured.
    pub custom_price_rules_set: bool,
    /// Whether the transaction carries a signed list of manual renewals.
    pub has_renew_list: bool,
    /// Whether the witness carries a non-empty proof.
    pub has_proof: bool,
    /// Whether the proof shows the account in the renewal list.
    pub in_renew_list: bool,
    /// ConfigCellSubAccount.renew_sub_account_price, in USD.
    pub renew_sub_account_price: u64,
    /// The yearly fee of `renew_sub_account_price` in shannons.
    pub basic_yearly_capacity: u64,
    /// The yearly fee of the matched price in shannons.
    pub rule_yearly_capacity: u64,
}

/// Whether a renewal pays by the custom price rules: `Some(price)`, or `None` when it
/// falls back to a manual renewal; or the error that stops it.
pub open spec fn renew_by_rule(f: RenewFacts) -> Result<Option<u64>, SubAccountCellErrorCode> {
    if f.custom_rule_on {
        match f.price {
            RuleMatch::Matched(p) => Ok(Some(p)),
            RuleMatch::NoMatch => Ok(None),
            RuleMatch::SyntaxError => Err(SubAccountCellErrorCode::ConfigRulesHasSyntaxError),
            RuleMatch::NoRules => if f.custom_price_rules_set {
                Err(SubAccountCellErrorCode::AccountHasNoPrice)
            } else {
                Ok(None)
            },
        }
    } else {
        Ok(None)
    }
}

/// The years that a renewal pays for.
pub open spec fn renew_years(f: RenewFacts) -> int {
    span_years(f.expired_at, f.new_expired_at)
}

/// The tally after one renewal.
pub open spec fn spec_renew_step(t: ProfitTally, f: RenewFacts) -> Result<ProfitTally, SubAccountCellErrorCode> {
    let basic = f.basic_yearly_capacity * renew_years(f);
    let manual = if spec_expiration_years(f.expired_at, f.new_expired_at) is Err {
        Err(spec_expiration_years(f.expired_at, f.new_expired_at)->Err_0)
    } else if f.key == RenewKey::CustomRule && f.flag == SubAccountConfigFlag::CustomRule {
        match renew_by_rule(f) {
            Err(e) => Err(e),
            Ok(Some(p)) => if p < f.renew_sub_account_price {
                Err(SubAccountCellErrorCode::MinimalProfitToDASNotReached)
            } else {
                Ok(None::<bool>)
            },
            Ok(None) => Ok(Some(true)),
        }
    } else if f.key == RenewKey::Manual {
        if f.has_renew_list && f.has_proof {
            if f.in_renew_list {
                Ok(Some(false))
            } else {
                Err(SubAccountCellErrorCode::ManualRenewProofIsInvalid)
            }
        } else {
            Ok(Some(true))
        }
    } else {
        Err(SubAccountCellErrorCode::AccountHasNoPrice)
    };
    match manual {
        Err(e) => Err(e),
        Ok(None) => Ok(
            ProfitTally { profit_total: (t.profit_total + f.rule_yearly_capacity * renew_years(f)) as u64, ..t },
        ),
        Ok(Some(by_other)) => Ok(
            ProfitTally {
                minimal_required_das_profit: (t.minimal_required_das_profit + basic) as u64,
                profit_total: (t.profit_total + basic) as u64,
                profit_from_manual_renew: if by_other {
                    t.profit_from_manual_renew
                } else {
                    (t.profit_from_manual_renew + basic) as u64
                },
                profit_from_manual_renew_by_other: if by_other {
                    (t.profit_from_manual_renew_by_other + basic) as u64
                } else {
                    t.profit_from_manual_renew_by_other
                },
                ..t
            },
        ),
    }
}

/// Applies the renewal rules of one sub-account to the tally: it is renewed for at
/// least a year, in whole years give or take a day; a matching custom price rule pays
/// its price; otherwise the renewal is manual, by the owner when the signed renewal
/// list holds it, else by anyone, and pays the basic renewal fee to DAS.
pub fn renew_step(t: ProfitTally, f: RenewFacts) -> (r: Result<ProfitTally, SubAccountCellErrorCode>)
    requires
        f.expired_at <= f.new_expired_at,
        tally_consistent(t),
        tally_has_room(t, f.basic_yearly_capacity * renew_years(f)),
        tally_has_room(t, f.rule_yearly_capacity * renew_years(f)),
    ensures
        r == spec_renew_step(t, f),
        r matches Ok(n) ==> tally_consistent(n),
{
    let years = match expiration_years(f.expired_at, f.new_expired_at) {
        Ok(y) => y,
        Err(e) => {
            return Err(e);
        },
    };
    let mut by_other = true;
    if f.key == RenewKey::CustomRule && f.flag == SubAccountConfigFlag::CustomRule {
        if f.custom_rule_on {
            match f.price {
                RuleMatch::Matched(p) => {
                    if p < f.renew_sub_account_price {
                        return Err(SubAccountCellErrorCode::MinimalProfitToDASNotReached);
                    }
                    let profit = f.rule_yearly_capacity * years;
                    return Ok(ProfitTally { profit_total: t.profit_total + profit, ..t });
                },
                RuleMatch::NoMatch => {},
                RuleMatch::SyntaxError => {
                    return Err(SubAccountCellErrorCode::ConfigRulesHasSyntaxError);
                },
                RuleMatch::NoRules => {
                    if f.custom_price_rules_set {
                        return Err(SubAccountCellErrorCode::AccountHasNoPrice);
                    }
                },
            }
        }
    } else if f.key == RenewKey::Manual {
        if f.has_renew_list && f.has_proof {
            if f.in_renew_list {
                by_other = false;
            } else {
                return Err(SubAccountCellErrorCode::ManualRenewProofIsInvalid);
            }
        }
    } else {
        return Err(SubAccountCellErrorCode::AccountHasNoPrice);
    }
    let profit = f.basic_yearly_capacity * years;
    if by_other {
        Ok(
            ProfitTally {
                minimal_required_das_profit: t.minimal_required_das_profit + profit,
                profit_total: t.profit_total + profit,
                profit_from_manual_renew_by_other: t.profit_from_manual_renew_by_other + profit,
                ..t
            },
        )
    } else {
        Ok(
            ProfitTally {
                minimal_required_das_profit: t.minimal_required_das_profit + profit,
                profit_total: t.profit_total + profit,
                profit_from_manual_renew: t.profit_from_manual_renew + profit,
                ..t
            },
        )
    }
}

/// A renewal is accepted only for at least one year, in whole years give or take one
/// day.
pub proof fn lemma_accepted_renewal_pays_whole_years(t: ProfitTally, f: RenewFacts)
    requires
        f.expired_at <= f.new_expired_at,
        spec_renew_step(t, f) is Ok,
    ensures
        f.new_expired_at - f.expired_at >= YEAR_SEC,
        (f.new_expired_at - f.expired_at) % (YEAR_SEC as int) <= DAY_SEC,
{
}

/// Where a SubAccountCell in the custom rule mode has its custom rules turned off, a
/// renewal that asks for the custom rules is taken as a manual renewal by anyone: it
/// is accepted for whole years, give or take a day, and adds the basic renewal fee
/// over its years to the total profit, to the minimal profit of DAS and to the
/// profit renewed by others, and to nothing else.
pub proof fn lemma_renewal_with_custom_rules_off_is_manual(t: ProfitTally, f: RenewFacts)
    requires
        f.key == RenewKey::CustomRule,
        f.flag == SubAccountConfigFlag::CustomRule,
        !f.custom_rule_on,
        f.expired_at + YEAR_SEC <= f.new_expired_at,
        (f.new_expired_at - f.expired_at) % (YEAR_SEC as int) <= DAY_SEC,
        tally_consistent(t),
        t.profit_total + f.basic_yearly_capacity * ((f.new_expired_at - f.expired_at) / (YEAR_SEC as int))
            <= u64::MAX,
    ensures
        spec_renew_step(t, f) matches Ok(n) && {
            let fee = f.basic_yearly_capacity * ((f.new_expired_at - f.expired_at) / (YEAR_SEC as int));
            &&& n.profit_total == t.profit_total + fee
            &&& n.minimal_required_das_profit == t.minimal_required_das_profit + fee
            &&& n.profit_from_manual_renew_by_other == t.profit_from_manual_renew_by_other + fee
            &&& n.profit_from_manual_renew == t.profit_from_manual_renew
            &&& n.profit_from_manual_mint == t.profit_from_manual_mint
        },
{
    let y = (f.new_expired_at - f.expired_at) / (YEAR_SEC as int);
    assert(y >= 1);
    assert(f.basic_yearly_capacity * y >= 0) by (nonlinear_arith)
        requires
            y >= 1,
    ;
}

/// The rules of one renewal, over whole years of the renewal (at least one, give or
/// take a day): a manual renewal with a proof that the signed renewal list holds is
/// paid by the owner, one with a proof that the list does not hold is refused, and
/// one without a list or a proof is paid by anyone; a renewal by the custom rules,
/// where they are on, pays the price of the matched rule, if that is at least the
/// basic renewal price, and falls back to a manual renewal by anyone where no rule
/// matches or no rules are set; any other way of paying is refused. A manual renewal
/// adds the basic fee to the total, to DAS's minimal profit and to the owner's or the
/// others' renewals; a rule adds its fee to the total alone.
pub proof fn lemma_renewal_rules(t: ProfitTally, f: RenewFacts)
    requires
        f.expired_at + YEAR_SEC <= f.new_expired_at,
        (f.new_expired_at - f.expired_at) % (YEAR_SEC as int) <= DAY_SEC,
        tally_consistent(t),
        t.profit_total + f.basic_yearly_capacity * ((f.new_expired_at - f.expired_at) / (YEAR_SEC as int))
            <= u64::MAX,
        t.profit_total + f.rule_yearly_capacity * ((f.new_expired_at - f.expired_at) / (YEAR_SEC as int))
            <= u64::MAX,
    ensures
        ({
            let years = (f.new_expired_at - f.expired_at) / (YEAR_SEC as int);
            let fee = f.basic_yearly_capacity * years;
            let by_owner = ProfitTally {
                minimal_required_das_profit: (t.minimal_required_das_profit + fee) as u64,
                profit_total: (t.profit_total + fee) as u64,
                profit_from_manual_renew: (t.profit_from_manual_renew + fee) as u64,
                ..t
            };
            let by_others = ProfitTally {
                minimal_required_das_profit: (t.minimal_required_das_profit + fee) as u64,
                profit_total: (t.profit_total + fee) as u64,
                profit_from_manual_renew_by_other: (t.profit_from_manual_renew_by_other + fee) as u64,
                ..t
            };
            let by_rules = f.key == RenewKey::CustomRule && f.flag == SubAccountConfigFlag::CustomRule;
            let r = spec_renew_step(t, f);
            &&& f.key == RenewKey::Manual && f.has_renew_list && f.has_proof && f.in_renew_list ==> r == Ok::<
                ProfitTally,
                SubAccountCellErrorCode,
            >(by_owner)
            &&& f.key == RenewKey::Manual && f.has_renew_list && f.has_proof && !f.in_renew_list ==> r == Err::<
                ProfitTally,
                SubAccountCellErrorCode,
            >(SubAccountCellErrorCode::ManualRenewProofIsInvalid)
            &&& f.key == RenewKey::Manual && !(f.has_renew_list && f.has_proof) ==> r == Ok::<
                ProfitTally,
                SubAccountCellErrorCode,
            >(by_others)
            &&& by_rules && !f.custom_rule_on ==> r == Ok::<ProfitTally, SubAccountCellErrorCode>(by_others)
            &&& by_rules && f.custom_rule_on && f.price == RuleMatch::NoMatch ==> r == Ok::<
                ProfitTally,
                SubAccountCellErrorCode,
            >(by_others)
            &&& by_rules && f.custom_rule_on && f.price == RuleMatch::NoRules ==> r == if f.custom_price_rules_set {
                Err::<ProfitTally, SubAccountCellErrorCode>(SubAccountCellErrorCode::AccountHasNoPrice)
            } else {
                Ok::<ProfitTally, SubAccountCellErrorCode>(by_others)
            }
            &&& by_rules && f.custom_rule_on && f.price == RuleMatch::SyntaxError ==> r == Err::<
                ProfitTally,
                SubAccountCellErrorCode,
            >(SubAccountCellErrorCode::ConfigRulesHasSyntaxError)
            &&& by_rules && f.custom_rule_on && f.price is Matched ==> r == if f.price->Matched_0
                < f.renew_sub_account_price {
                Err::<ProfitTally, SubAccountCellErrorCode>(SubAccountCellErrorCode::MinimalProfitToDASNotReached)
            } else {
                Ok::<ProfitTally, SubAccountCellErrorCode>(
                    ProfitTally {
                        profit_total: (t.profit_total + f.rule_yearly_capacity * years) as u64,
                        ..t
                    },
                )
            }
            &&& f.key != RenewKey::Manual && !by_rules ==> r == Err::<ProfitTally, SubAccountCellErrorCode>(
                SubAccountCellErrorCode::AccountHasNoPrice,
            )
        }),
{
}

/// A renewal of less than a year is refused, and so is one that runs more than a day
/// past whole years, whatever else it carries.
pub proof fn lemma_renewal_years_are_whole(t: ProfitTally, f: RenewFacts)
    requires
        f.expired_at <= f.new_expired_at,
    ensures
        f.new_expired_at - f.expired_at < YEAR_SEC ==> spec_renew_step(t, f) == Err::<
            ProfitTally,
            SubAccountCellErrorCode,
        >(SubAccountCellErrorCode::ExpirationYearsTooShort),
        f.new_expired_at - f.expired_at >= YEAR_SEC && (f.new_expired_at - f.expired_at) % (YEAR_SEC as int)
            > DAY_SEC ==> spec_renew_step(t, f) == Err::<ProfitTally, SubAccountCellErrorCode>(
            SubAccountCellErrorCode::ExpirationToleranceReached,
        ),
{
}

/// The rules of one registration whose witness has the latest version, whose name and
/// initial properties passed their checks, and which pays for whole years: a manual
/// mint needs the signed mint list; one that the list holds pays the basic fee to the
/// total, to DAS's minimal profit and to the manual mints; one with a proof that the
/// list does not hold is refused; any other registration needs the custom rule mode
/// with the rules on, must not be preserved, and must match a price rule of at least
/// the basic price, whose fee it adds to the total alone.
pub proof fn lemma_registration_rules(t: ProfitTally, f: CreateFacts)
    requires
        f.old_sub_account_version == 2,
        f.new_sub_account_version == 2,
        f.account_chars_check is Ok,
        f.min_length_check is Ok,
        f.max_length_check is Ok,
        f.initial_properties_check is Ok,
        f.registered_at + YEAR_SEC <= f.expired_at,
        (f.expired_at - f.registered_at) % (YEAR_SEC as int) <= DAY_SEC,
        tally_consistent(t),
        t.profit_total + f.basic_yearly_capacity * ((f.expired_at - f.registered_at) / (YEAR_SEC as int))
            <= u64::MAX,
        t.profit_total + f.rule_yearly_capacity * ((f.expired_at - f.registered_at) / (YEAR_SEC as int))
            <= u64::MAX,
    ensures
        ({
            let years = (f.expired_at - f.registered_at) / (YEAR_SEC as int);
            let fee = f.basic_yearly_capacity * years;
            let r = spec_create_step(t, f);
            let err = |e: SubAccountCellErrorCode| Err::<ProfitTally, DasError>(DasError::SubAccountCell(e));
            let by_rules = !(f.manual_requested && f.in_mint_list) && !(f.manual_requested && f.edit_value_is_proof);
            &&& f.manual_requested && !f.has_mint_list ==> r == err(SubAccountCellErrorCode::WitnessSignMintIsRequired)
            &&& f.manual_requested && f.has_mint_list && f.in_mint_list ==> r == Ok::<ProfitTally, DasError>(
                ProfitTally {
                    minimal_required_das_profit: (t.minimal_required_das_profit + fee) as u64,
                    profit_total: (t.profit_total + fee) as u64,
                    profit_from_manual_mint: (t.profit_from_manual_mint + fee) as u64,
                    ..t
                },
            )
            &&& f.manual_requested && f.has_mint_list && !f.in_mint_list && f.edit_value_is_proof ==> r == err(
                SubAccountCellErrorCode::ProofInManualSignRenewListMissing,
            )
            &&& (!f.manual_requested || (f.has_mint_list && by_rules)) ==> {
                &&& f.flag != SubAccountConfigFlag::CustomRule ==> r == err(SubAccountCellErrorCode::CanNotMint)
                &&& f.flag == SubAccountConfigFlag::CustomRule && !f.custom_rule_on ==> r == err(
                    SubAccountCellErrorCode::CustomRuleIsOff,
                )
                &&& f.flag == SubAccountConfigFlag::CustomRule && f.custom_rule_on && f.preserved is Matched ==> r
                    == err(SubAccountCellErrorCode::AccountIsPreserved)
                &&& f.flag == SubAccountConfigFlag::CustomRule && f.custom_rule_on && (f.preserved
                    == RuleMatch::NoMatch || f.preserved == RuleMatch::NoRules) ==> match f.price {
                    RuleMatch::Matched(p) => r == if p < f.new_sub_account_price {
                        err(SubAccountCellErrorCode::MinimalProfitToDASNotReached)
                    } else {
                        Ok::<ProfitTally, DasError>(
                            ProfitTally {
                                profit_total: (t.profit_total + f.rule_yearly_capacity * years) as u64,
                                ..t
                            },
                        )
                    },
                    RuleMatch::SyntaxError => r == err(SubAccountCellErrorCode::ConfigRulesHasSyntaxError),
                    _ => r == err(SubAccountCellErrorCode::AccountHasNoPrice),
                }
            }
        }),
{
}

/// A collection by the owner and DAS takes each profit whole or leaves it, and is
/// accepted exactly when some profit existed, some was taken, the SubAccountCell keeps
/// all but what was taken and the common fee, and both SubAccountCells hold their
/// profits and the basic capacity; it reports which profits were taken.
pub proof fn lemma_collection_takes_whole_profits(
    common_fee: u64,
    basic_capacity: u64,
    input: SubAccountCellBalance,
    output: SubAccountCellBalance,
)
    ensures
        ({
            let das = input.das_profit > 0 && output.das_profit == 0;
            let owner = input.owner_profit > 0 && output.owner_profit == 0;
            let taken = (if das { input.das_profit as int } else { 0 }) + (if owner {
                input.owner_profit as int
            } else {
                0
            });
            &&& spec_collect_sub_account_profit(common_fee, basic_capacity, input, output) is Ok <==> {
                &&& (das || owner)
                &&& output.capacity + taken + common_fee >= input.capacity
                &&& input.capacity >= input.das_profit + input.owner_profit + basic_capacity
                &&& output.capacity >= output.das_profit + output.owner_profit + basic_capacity
            }
            &&& spec_collect_sub_account_profit(common_fee, basic_capacity, input, output) matches Ok(c) ==> c.das
                == das && c.owner == owner
        }),
        spec_collect_sub_account_channel_profit(true, basic_capacity, input, output) is Ok <==> {
            &&& input.das_profit > output.das_profit
            &&& input.capacity >= input.das_profit + input.owner_profit + basic_capacity
            &&& output.capacity >= output.das_profit + output.owner_profit + basic_capacity
        },
        spec_collect_sub_account_channel_profit(false, basic_capacity, input, output) == Err::<
            (),
            SubAccountCellErrorCode,
        >(SubAccountCellErrorCode::ProfitManagerLockIsRequired),
{
}

} // verus!
