use vstd::prelude::*;

use crate::approval::AccountApproval;
use crate::bytes::bytes_eq;
use crate::error::{DasError, ErrorCode, SubAccountCellErrorCode};
use crate::sub_account::{
    create_step, create_years, empty_tally, expected_das_profit_with_custom_script, opt_bytes_view, renew_step,
    renew_years, spec_create_step, spec_renew_step, spec_sub_account_approval_create, spec_sub_account_approval_delay,
    spec_sub_account_approval_revoke, tally_consistent, CreateFacts, ProfitTally, RenewFacts, SubAccount,
    SubAccountAction, SubAccountCellBalance, SubAccountConfigFlag, SubAccountExpiration,
};
use crate::sub_account_update::{
    spec_verify_sub_account_edit, verify_there_is_only_one_lock_for_normal_cells, EditKind, LockParties,
};
use crate::types::{AccountStatus, Script, SpecScript, DAY_SEC};

verus! {

/// What one sub-account witness does, with what its rules read of it.
#[derive(Debug)]
pub enum SubActionWitness {
    /// A registration.
    Create(CreateFacts),
    /// A renewal.
    Renew(RenewFacts),
    /// An edit of the owner, the manager or the records: what is edited, the status of
    /// the sub-account, the owner and manager that its lock arguments name before and
    /// after (or the error that reading them gave; the same where the lock is not
    /// edited), what checking the keys of new records gave, and what the checks of
    /// the signing role, of the signature's age and of the sub-account's expiration
    /// gave.
    Edit {
        kind: EditKind,
        status: AccountStatus,
        current: Result<LockParties, DasError>,
        new: Result<LockParties, DasError>,
        records_keys: Result<(), DasError>,
        unlock_role_check: Result<(), DasError>,
        sign_check: Result<(), DasError>,
        expiration_check: Result<(), SubAccountCellErrorCode>,
    },
    /// A recycling: the status of the sub-account and how far it has expired.
    Recycle { status: AccountStatus, expiration: SubAccountExpiration },
    /// The creation of an approval: whether its action is `transfer`, the sub-account
    /// before, the approval that it gets, and what the checks of the signing role and
    /// of the signature's age gave.
    CreateApproval {
        is_transfer: bool,
        sub_account: SubAccount,
        new_approval: AccountApproval,
        unlock_role_check: Result<(), DasError>,
        sign_check: Result<(), DasError>,
    },
    /// The delay of an approval: whether its action is `transfer`, the approval before
    /// and after the delay, and what the checks of the signing role and of the
    /// signature's age gave.
    DelayApproval {
        is_transfer: bool,
        prev: AccountApproval,
        delayed: AccountApproval,
        unlock_role_check: Result<(), DasError>,
        sign_check: Result<(), DasError>,
    },
    /// The revocation of an approval: whether its action is `transfer`, the approval
    /// before, the sub-account after, and what the check of the signature's age gave.
    RevokeApproval {
        is_transfer: bool,
        prev: AccountApproval,
        new_sub_account: SubAccount,
        sign_check: Result<(), DasError>,
    },
    /// The fulfilment of an approval: whether its action is `transfer`, whether its
    /// parameters decode, until when it is sealed, and what the check of the
    /// signature's age gave (read only while it is sealed).
    FulfillApproval { is_transfer: bool, params_decode: bool, sealed_until: u64, sign_check: Result<(), DasError> },
}

/// What the SMT proof of a sub-account witness computes for the key of its sub-account:
/// the root that the value before the witness gives, and the root that the value after
/// it gives (which values these are, [`smt_values`] says); `None` where the proof
/// computes no root.
#[derive(Debug)]
pub struct SmtProofRoots {
    pub with_value_before: Option<Vec<u8>>,
    pub with_value_after: Option<Vec<u8>>,
}

/// One sub-account witness of a transaction: what checking the suffix of its
/// sub-account against the parent account gave, what its action reads, what its SMT
/// proof computes, and the SMT root that it leaves.
#[derive(Debug)]
pub struct SubAccountWitness {
    pub suffix_check: Result<(), DasError>,
    pub action: SubActionWitness,
    pub proof: SmtProofRoots,
    pub new_root: Vec<u8>,
}

/// The value that an SMT proof is checked with at the key of a sub-account.
#[derive(Debug, Clone, Copy, PartialEq, Eq, Structural)]
pub enum SmtValue {
    /// Nothing stored: 32 zero bytes.
    Zero,
    /// The hash of the sub-account that the witness carries.
    WitnessSubAccount,
    /// The hash of the sub-account that the witness produces from it.
    NewSubAccount,
}

/// The values that the SMT proof of a witness is checked with, before and after it:
/// a registration adds a sub-account where there was none, a recycling removes it, and
/// every other action replaces it with the one it produces.
pub open spec fn spec_smt_values(action: SubAccountAction) -> (SmtValue, SmtValue) {
    match action {
        SubAccountAction::Create => (SmtValue::Zero, SmtValue::WitnessSubAccount),
        SubAccountAction::Recycle => (SmtValue::WitnessSubAccount, SmtValue::Zero),
        _ => (SmtValue::WitnessSubAccount, SmtValue::NewSubAccount),
    }
}

/// Gives the values that the SMT proof of a witness with this action is checked with,
/// at the key of its sub-account, against the root before the witness and the root it
/// leaves.
pub fn smt_values(action: SubAccountAction) -> (r: (SmtValue, SmtValue))
    ensures
        r == spec_smt_values(action),
{
    match action {
        SubAccountAction::Create => (SmtValue::Zero, SmtValue::WitnessSubAccount),
        SubAccountAction::Recycle => (SmtValue::WitnessSubAccount, SmtValue::Zero),
        _ => (SmtValue::WitnessSubAccount, SmtValue::NewSubAccount),
    }
}

/// Whether the SMT proof of a witness moves the tree from `prev_root` to the root that
/// the witness leaves.
pub open spec fn smt_proof_holds(w: SubAccountWitness, prev_root: Seq<u8>) -> bool {
    &&& opt_bytes_view(w.proof.with_value_before) == Some(prev_root)
    &&& opt_bytes_view(w.proof.with_value_after) == Some(w.new_root@)
}

fn check_smt_proof(w: &SubAccountWitness, prev_root: &[u8]) -> (r: bool)
    ensures
        r == smt_proof_holds(*w, prev_root@),
{
    let before = match &w.proof.with_value_before {
        Some(root) => bytes_eq(root.as_slice(), prev_root),
        None => false,
    };
    let after = match &w.proof.with_value_after {
        Some(root) => bytes_eq(root.as_slice(), w.new_root.as_slice()),
        None => false,
    };
    before && after
}

/// Whether the times of a registration or a renewal run forwards.
pub open spec fn witness_times_ordered(w: SubActionWitness) -> bool {
    match w {
        SubActionWitness::Create(f) => f.registered_at <= f.expired_at,
        SubActionWitness::Renew(f) => f.expired_at <= f.new_expired_at,
        _ => true,
    }
}

/// The most that one witness can add to the total profit: its basic fee or the fee of
/// its price rule, over its years, for a registration or a renewal; nothing otherwise.
pub open spec fn witness_room(w: SubActionWitness) -> int {
    let (basic, rule, years) = match w {
        SubActionWitness::Create(f) => (f.basic_yearly_capacity as int, f.rule_yearly_capacity as int, create_years(f)),
        SubActionWitness::Renew(f) => (f.basic_yearly_capacity as int, f.rule_yearly_capacity as int, renew_years(f)),
        _ => (0int, 0int, 0int),
    };
    if basic * years >= rule * years {
        basic * years
    } else {
        rule * years
    }
}

/// The most that a list of witnesses can add to the total profit.
pub open spec fn witnesses_room(ws: Seq<SubAccountWitness>) -> int
    decreases ws.len(),
{
    if ws.len() == 0 {
        0
    } else {
        witness_room(ws[0].action) + witnesses_room(ws.drop_first())
    }
}

/// What one witness does to the tally, given the SMT root before it, or the error that
/// stops the transaction.
pub open spec fn spec_dispatch(
    timestamp: u64,
    das_lock: SpecScript,
    t: ProfitTally,
    w: SubAccountWitness,
    prev_root: Seq<u8>,
) -> Result<ProfitTally, DasError> {
    let proven = smt_proof_holds(w, prev_root);
    if w.suffix_check is Err {
        Err(w.suffix_check->Err_0)
    } else {
        spec_dispatch_action(timestamp, das_lock, t, w.action, proven)
    }
}

/// What one witness whose suffix passed its check does to the tally, given whether its
/// SMT proof holds.
pub open spec fn spec_dispatch_action(
    timestamp: u64,
    das_lock: SpecScript,
    t: ProfitTally,
    action: SubActionWitness,
    proven: bool,
) -> Result<ProfitTally, DasError> {
    let undefined = DasError::SubAccountCell(SubAccountCellErrorCode::ApprovalActionUndefined);
    let proof_failed = DasError::Common(ErrorCode::SMTProofVerifyFailed);
    match action {
        SubActionWitness::Create(f) => if !proven {
            Err(proof_failed)
        } else {
            spec_create_step(t, f)
        },
        SubActionWitness::Renew(f) => if !proven {
            Err(proof_failed)
        } else {
            match spec_renew_step(t, f) {
                Ok(n) => Ok(n),
                Err(e) => Err(DasError::SubAccountCell(e)),
            }
        },
        SubActionWitness::Edit {
            kind,
            status,
            current,
            new,
            records_keys,
            unlock_role_check,
            sign_check,
            expiration_check,
        } => if kind == EditKind::Other {
            Err(DasError::SubAccountCell(SubAccountCellErrorCode::WitnessEditKeyInvalid))
        } else if kind != EditKind::Records && new is Err {
            Err(new->Err_0)
        } else if !proven {
            Err(proof_failed)
        } else if unlock_role_check is Err {
            Err(unlock_role_check->Err_0)
        } else if sign_check is Err {
            Err(sign_check->Err_0)
        } else if expiration_check is Err {
            Err(DasError::SubAccountCell(expiration_check->Err_0))
        } else if kind == EditKind::Records {
            if !(status == AccountStatus::Normal || status == AccountStatus::ApprovedTransfer) {
                Err(DasError::SubAccountCell(SubAccountCellErrorCode::AccountStatusError))
            } else {
                match records_keys {
                    Ok(_) => Ok(t),
                    Err(e) => Err(e),
                }
            }
        } else if status != AccountStatus::Normal {
            Err(DasError::SubAccountCell(SubAccountCellErrorCode::AccountStatusError))
        } else if current is Err {
            Err(current->Err_0)
        } else {
            match spec_verify_sub_account_edit(kind, status, current->Ok_0, new->Ok_0, records_keys) {
                Ok(_) => Ok(t),
                Err(e) => Err(e),
            }
        },
        SubActionWitness::Recycle { status, expiration } => if !(status == AccountStatus::Normal || status
            == AccountStatus::ApprovedTransfer) {
            Err(DasError::SubAccountCell(SubAccountCellErrorCode::AccountStatusError))
        } else {
            match expiration {
                SubAccountExpiration::Expired => if !proven {
                    Err(proof_failed)
                } else {
                    Ok(t)
                },
                SubAccountExpiration::OtherError => Err(DasError::Common(ErrorCode::HardCodedError)),
                _ => Err(DasError::SubAccountCell(SubAccountCellErrorCode::AccountStillCanNotBeRecycled)),
            }
        },
        SubActionWitness::CreateApproval {
            is_transfer,
            sub_account,
            new_approval,
            unlock_role_check,
            sign_check,
        } => if !proven {
            Err(proof_failed)
        } else if unlock_role_check is Err {
            Err(unlock_role_check->Err_0)
        } else if sign_check is Err {
            Err(sign_check->Err_0)
        } else if !is_transfer {
            Err(undefined)
        } else {
            match spec_sub_account_approval_create(
                timestamp,
                das_lock,
                sub_account.approval@,
                sub_account.expired_at,
                new_approval@,
            ) {
                Ok(_) => Ok(t),
                Err(e) => Err(DasError::SubAccountCell(e)),
            }
        },
        SubActionWitness::DelayApproval { is_transfer, prev, delayed, unlock_role_check, sign_check } => if !proven {
            Err(proof_failed)
        } else if unlock_role_check is Err {
            Err(unlock_role_check->Err_0)
        } else if sign_check is Err {
            Err(sign_check->Err_0)
        } else if !is_transfer {
            Err(undefined)
        } else {
            match spec_sub_account_approval_delay(prev@, delayed@) {
                Ok(_) => Ok(t),
                Err(e) => Err(DasError::SubAccountCell(e)),
            }
        },
        SubActionWitness::RevokeApproval { is_transfer, prev, new_sub_account, sign_check } => if !proven {
            Err(proof_failed)
        } else if sign_check is Err {
            Err(sign_check->Err_0)
        } else if !is_transfer {
            Err(undefined)
        } else {
            match spec_sub_account_approval_revoke(
                timestamp,
                prev@,
                new_sub_account.status,
                new_sub_account.approval@,
            ) {
                Ok(_) => Ok(t),
                Err(e) => Err(DasError::SubAccountCell(e)),
            }
        },
        SubActionWitness::FulfillApproval { is_transfer, params_decode, sealed_until, sign_check } => if !is_transfer {
            Err(undefined)
        } else if !params_decode {
            Err(DasError::SubAccountCell(SubAccountCellErrorCode::WitnessParsingError))
        } else if !proven {
            Err(proof_failed)
        } else if timestamp <= sealed_until && sign_check is Err {
            Err(sign_check->Err_0)
        } else {
            Ok(t)
        },
    }
}

/// The checks of the sub-account witnesses of one transaction: the time of the
/// transaction, the das-lock, and the profits counted so far.
pub struct SubAction {
    pub timestamp: u64,
    pub das_lock: Script,
    pub tally: ProfitTally,
}

impl SubAction {
    /// Starts the checks of a transaction, with nothing counted yet.
    pub fn new(timestamp: u64, das_lock: Script) -> (r: SubAction)
        ensures
            r.timestamp == timestamp,
            r.das_lock@ == das_lock@,
            r.tally == empty_tally(),
            tally_consistent(r.tally),
    {
        SubAction {
            timestamp,
            das_lock,
            tally: ProfitTally {
                minimal_required_das_profit: 0,
                profit_total: 0,
                profit_from_manual_mint: 0,
                profit_from_manual_renew: 0,
                profit_from_manual_renew_by_other: 0,
            },
        }
    }

    /// Checks one witness by its action, with its SMT proof against the root before it,
    /// and counts what it pays.
    pub fn dispatch(&mut self, w: &SubAccountWitness, prev_root: &[u8]) -> (r: Result<(), DasError>)
        requires
            tally_consistent(old(self).tally),
            witness_times_ordered(w.action),
            old(self).tally.profit_total + witness_room(w.action) <= u64::MAX,
            w.action is CreateApproval ==> old(self).timestamp + 30 * DAY_SEC <= u64::MAX,
        ensures
            final(self).timestamp == old(self).timestamp,
            final(self).das_lock@ == old(self).das_lock@,
            tally_consistent(final(self).tally),
            match spec_dispatch(old(self).timestamp, old(self).das_lock@, old(self).tally, *w, prev_root@) {
                Ok(t) => r is Ok && final(self).tally == t,
                Err(e) => r == Err::<(), DasError>(e) && final(self).tally == old(self).tally,
            },
    {
        let undefined = DasError::SubAccountCell(SubAccountCellErrorCode::ApprovalActionUndefined);
        let proof_failed = DasError::Common(ErrorCode::SMTProofVerifyFailed);
        if let Err(e) = w.suffix_check {
            return Err(e);
        }
        let proven = check_smt_proof(w, prev_root);
        match &w.action {
            SubActionWitness::Create(f) => {
                if !proven {
                    return Err(proof_failed);
                }
                proof {
                    lemma_room_bounds(w.action);
                }
                match create_step(self.tally, *f) {
                    Ok(n) => {
                        self.tally = n;
                        Ok(())
                    },
                    Err(e) => Err(e),
                }
            },
            SubActionWitness::Renew(f) => {
                if !proven {
                    return Err(proof_failed);
                }
                proof {
                    lemma_room_bounds(w.action);
                }
                match renew_step(self.tally, *f) {
                    Ok(n) => {
                        self.tally = n;
                        Ok(())
                    },
                    Err(e) => Err(DasError::SubAccountCell(e)),
                }
            },
            SubActionWitness::Edit {
                kind,
                status,
                current,
                new,
                records_keys,
                unlock_role_check,
                sign_check,
                expiration_check,
            } => {
                if *kind == EditKind::Other {
                    return Err(DasError::SubAccountCell(SubAccountCellErrorCode::WitnessEditKeyInvalid));
                }
                if *kind != EditKind::Records {
                    if let Err(e) = new {
                        return Err(*e);
                    }
                }
                if !proven {
                    return Err(proof_failed);
                }
                if let Err(e) = unlock_role_check {
                    return Err(*e);
                }
                if let Err(e) = sign_check {
                    return Err(*e);
                }
                if let Err(e) = expiration_check {
                    return Err(DasError::SubAccountCell(*e));
                }
                if *kind == EditKind::Records {
                    if let Err(e) = crate::sub_account_update::verify_recycle_status(*status) {
                        return Err(DasError::SubAccountCell(e));
                    }
                    return *records_keys;
                }
                if *status != AccountStatus::Normal {
                    return Err(DasError::SubAccountCell(SubAccountCellErrorCode::AccountStatusError));
                }
                match (current, new) {
                    (Err(e), _) => Err(*e),
                    (Ok(c), Ok(n)) => crate::sub_account_update::verify_sub_account_edit(
                        *kind,
                        *status,
                        c,
                        n,
                        *records_keys,
                    ),
                    (Ok(_), Err(e)) => Err(*e),
                }
            },
            SubActionWitness::Recycle { status, expiration } => {
                if let Err(e) = crate::sub_account_update::verify_recycle_status(*status) {
                    return Err(DasError::SubAccountCell(e));
                }
                if let Err(e) = crate::sub_account::verify_recyclable(*expiration) {
                    return Err(e);
                }
                if !proven {
                    return Err(proof_failed);
                }
                Ok(())
            },
            SubActionWitness::CreateApproval {
                is_transfer,
                sub_account,
                new_approval,
                unlock_role_check,
                sign_check,
            } => {
                if !proven {
                    return Err(proof_failed);
                }
                if let Err(e) = unlock_role_check {
                    return Err(*e);
                }
                if let Err(e) = sign_check {
                    return Err(*e);
                }
                if !*is_transfer {
                    return Err(undefined);
                }
                match crate::sub_account::transfer_approval_create(
                    self.timestamp,
                    &self.das_lock,
                    sub_account,
                    new_approval,
                ) {
                    Ok(()) => Ok(()),
                    Err(e) => Err(DasError::SubAccountCell(e)),
                }
            },
            SubActionWitness::DelayApproval { is_transfer, prev, delayed, unlock_role_check, sign_check } => {
                if !proven {
                    return Err(proof_failed);
                }
                if let Err(e) = unlock_role_check {
                    return Err(*e);
                }
                if let Err(e) = sign_check {
                    return Err(*e);
                }
                if !*is_transfer {
                    return Err(undefined);
                }
                match crate::sub_account::transfer_approval_delay(prev, delayed) {
                    Ok(()) => Ok(()),
                    Err(e) => Err(DasError::SubAccountCell(e)),
                }
            },
            SubActionWitness::RevokeApproval { is_transfer, prev, new_sub_account, sign_check } => {
                if !proven {
                    return Err(proof_failed);
                }
                if let Err(e) = sign_check {
                    return Err(*e);
                }
                if !*is_transfer {
                    return Err(undefined);
                }
                match crate::sub_account::transfer_approval_revoke(self.timestamp, prev, new_sub_account) {
                    Ok(()) => Ok(()),
                    Err(e) => Err(DasError::SubAccountCell(e)),
                }
            },
            SubActionWitness::FulfillApproval { is_transfer, params_decode, sealed_until, sign_check } => {
                if !*is_transfer {
                    return Err(undefined);
                }
                if !*params_decode {
                    return Err(DasError::SubAccountCell(SubAccountCellErrorCode::WitnessParsingError));
                }
                if !proven {
                    return Err(proof_failed);
                }
                if crate::sub_account::fulfill_needs_signature(self.timestamp, *sealed_until) {
                    if let Err(e) = sign_check {
                        return Err(*e);
                    }
                }
                Ok(())
            },
        }
    }
}

/// The tally after the witnesses of a transaction, in order, each proved against the
/// root that the one before left (the first against `prev_root`), or the error of the
/// first that fails.
pub open spec fn spec_run(
    timestamp: u64,
    das_lock: SpecScript,
    t: ProfitTally,
    prev_root: Seq<u8>,
    ws: Seq<SubAccountWitness>,
) -> Result<ProfitTally, DasError>
    decreases ws.len(),
{
    if ws.len() == 0 {
        Ok(t)
    } else {
        match spec_dispatch(timestamp, das_lock, t, ws[0], prev_root) {
            Err(e) => Err(e),
            Ok(n) => spec_run(timestamp, das_lock, n, ws[0].new_root@, ws.drop_first()),
        }
    }
}

/// What updating the sub-accounts of a SubAccountCell gives: both SubAccountCells hold
/// an SMT root; the witnesses run from the root in the inputs; and the last of them
/// leaves the root in the outputs.
pub open spec fn spec_update_sub_accounts(
    timestamp: u64,
    das_lock: SpecScript,
    input_root: Option<Seq<u8>>,
    output_root: Option<Seq<u8>>,
    ws: Seq<SubAccountWitness>,
) -> Result<ProfitTally, DasError> {
    if input_root is None || output_root is None {
        Err(DasError::Common(ErrorCode::InvalidCellData))
    } else {
        match spec_run(timestamp, das_lock, empty_tally(), input_root->Some_0, ws) {
            Err(e) => Err(e),
            Ok(t) => if ws.len() > 0 && ws.last().new_root@ != output_root->Some_0 {
                Err(DasError::SubAccountCell(SubAccountCellErrorCode::SubAccountWitnessMismatched))
            } else {
                Ok(t)
            },
        }
    }
}

proof fn lemma_room_bounds(w: SubActionWitness)
    requires
        witness_times_ordered(w),
    ensures
        witness_room(w) >= 0,
        w matches SubActionWitness::Create(f) ==> f.basic_yearly_capacity * create_years(f) <= witness_room(w)
            && f.rule_yearly_capacity * create_years(f) <= witness_room(w),
        w matches SubActionWitness::Renew(f) ==> f.basic_yearly_capacity * renew_years(f) <= witness_room(w)
            && f.rule_yearly_capacity * renew_years(f) <= witness_room(w),
{
    match w {
        SubActionWitness::Create(f) => {
            let y = create_years(f);
            assert(y >= 0);
            assert(f.basic_yearly_capacity * y >= 0) by (nonlinear_arith)
                requires
                    y >= 0,
            ;
            assert(f.rule_yearly_capacity * y >= 0) by (nonlinear_arith)
                requires
                    y >= 0,
            ;
        },
        SubActionWitness::Renew(f) => {
            let y = renew_years(f);
            assert(y >= 0);
            assert(f.basic_yearly_capacity * y >= 0) by (nonlinear_arith)
                requires
                    y >= 0,
            ;
            assert(f.rule_yearly_capacity * y >= 0) by (nonlinear_arith)
                requires
                    y >= 0,
            ;
        },
        _ => {},
    }
}

proof fn lemma_witnesses_room_nonneg(ws: Seq<SubAccountWitness>)
    requires
        forall|i: int| 0 <= i < ws.len() ==> witness_times_ordered(#[trigger] ws[i].action),
    ensures
        witnesses_room(ws) >= 0,
    decreases ws.len(),
{
    if ws.len() > 0 {
        assert(witness_times_ordered(ws[0].action));
        lemma_room_bounds(ws[0].action);
        assert forall|i: int| 0 <= i < ws.drop_first().len() implies witness_times_ordered(
            #[trigger] ws.drop_first()[i].action,
        ) by {
            assert(ws.drop_first()[i] == ws[i + 1]);
        }
        lemma_witnesses_room_nonneg(ws.drop_first());
    }
}

proof fn lemma_dispatch_room(
    timestamp: u64,
    das_lock: SpecScript,
    t: ProfitTally,
    w: SubAccountWitness,
    prev_root: Seq<u8>,
)
    requires
        witness_times_ordered(w.action),
        spec_dispatch(timestamp, das_lock, t, w, prev_root) is Ok,
    ensures
        spec_dispatch(timestamp, das_lock, t, w, prev_root)->Ok_0.profit_total <= t.profit_total + witness_room(
            w.action,
        ),
{
    lemma_room_bounds(w.action);
}

/// Runs the checks of the sub-account witnesses of a transaction in order, given the
/// SMT roots that the SubAccountCell holds in the inputs and in the outputs, and gives
/// the profits they add up to: each witness is proved against the root that the one
/// before left, the first against the root in the inputs; the first witness that fails
/// stops the transaction; and the last must leave the root in the outputs.
pub fn run_sub_actions(
    timestamp: u64,
    das_lock: &Script,
    input_root: &Option<Vec<u8>>,
    output_root: &Option<Vec<u8>>,
    witnesses: &Vec<SubAccountWitness>,
) -> (r: Result<ProfitTally, DasError>)
    requires
        forall|i: int| 0 <= i < witnesses@.len() ==> witness_times_ordered(#[trigger] witnesses@[i].action),
        witnesses_room(witnesses@) <= u64::MAX,
        timestamp + 30 * DAY_SEC <= u64::MAX,
    ensures
        r == spec_update_sub_accounts(
            timestamp,
            das_lock@,
            opt_bytes_view(*input_root),
            opt_bytes_view(*output_root),
            witnesses@,
        ),
        r matches Ok(t) ==> tally_consistent(t),
{
    let initial = match input_root {
        Some(root) => root,
        None => {
            return Err(DasError::Common(ErrorCode::InvalidCellData));
        },
    };
    let latest = match output_root {
        Some(root) => root,
        None => {
            return Err(DasError::Common(ErrorCode::InvalidCellData));
        },
    };
    assert(opt_bytes_view(*input_root) == Some(initial@));
    assert(opt_bytes_view(*output_root) == Some(latest@));
    let mut action = SubAction::new(timestamp, das_lock.copy());
    assert(witnesses@.skip(0) =~= witnesses@);
    let mut i: usize = 0;
    while i < witnesses.len()
        invariant
            i <= witnesses@.len(),
            opt_bytes_view(*input_root) == Some(initial@),
            opt_bytes_view(*output_root) == Some(latest@),
            action.timestamp == timestamp,
            action.das_lock@ == das_lock@,
            timestamp + 30 * DAY_SEC <= u64::MAX,
            forall|j: int| 0 <= j < witnesses@.len() ==> witness_times_ordered(#[trigger] witnesses@[j].action),
            tally_consistent(action.tally),
            action.tally.profit_total + witnesses_room(witnesses@.skip(i as int)) <= u64::MAX,
            spec_run(timestamp, das_lock@, empty_tally(), initial@, witnesses@) == spec_run(
                timestamp,
                das_lock@,
                action.tally,
                if i == 0 {
                    initial@
                } else {
                    witnesses@[i - 1].new_root@
                },
                witnesses@.skip(i as int),
            ),
        decreases witnesses@.len() - i,
    {
        let ghost rest = witnesses@.skip(i as int);
        let ghost before = action.tally;
        assert(rest.drop_first() =~= witnesses@.skip(i + 1));
        assert(rest[0] == witnesses@[i as int]);
        assert(witness_times_ordered(witnesses@[i as int].action));
        proof {
            assert forall|j: int| 0 <= j < rest.drop_first().len() implies witness_times_ordered(
                #[trigger] rest.drop_first()[j].action,
            ) by {
                assert(rest.drop_first()[j] == witnesses@[i + 1 + j]);
            }
            lemma_witnesses_room_nonneg(rest.drop_first());
        }
        let prev: &[u8] = if i == 0 {
            initial.as_slice()
        } else {
            witnesses[i - 1].new_root.as_slice()
        };
        match action.dispatch(&witnesses[i], prev) {
            Err(e) => {
                assert(spec_run(timestamp, das_lock@, before, prev@, rest) == Err::<ProfitTally, DasError>(e));
                assert(spec_run(timestamp, das_lock@, empty_tally(), initial@, witnesses@) == Err::<
                    ProfitTally,
                    DasError,
                >(e));
                return Err(e);
            },
            Ok(()) => {
                proof {
                    lemma_dispatch_room(timestamp, das_lock@, before, witnesses@[i as int], prev@);
                }
            },
        }
        i = i + 1;
    }
    assert(witnesses@.skip(i as int) =~= Seq::<SubAccountWitness>::empty());
    if witnesses.len() > 0 {
        if !bytes_eq(witnesses[witnesses.len() - 1].new_root.as_slice(), latest.as_slice()) {
            return Err(DasError::SubAccountCell(SubAccountCellErrorCode::SubAccountWitnessMismatched));
        }
    }
    Ok(action.tally)
}

/// The root that the SMT proof of the witness at `i` must start from: the root in the
/// inputs for the first, then the root that the witness before left.
pub open spec fn root_before(initial: Seq<u8>, ws: Seq<SubAccountWitness>, i: int) -> Seq<u8> {
    if i == 0 {
        initial
    } else {
        ws[i - 1].new_root@
    }
}

proof fn lemma_dispatch_needs_proof(
    timestamp: u64,
    das_lock: SpecScript,
    t: ProfitTally,
    w: SubAccountWitness,
    prev_root: Seq<u8>,
)
    requires
        spec_dispatch(timestamp, das_lock, t, w, prev_root) is Ok,
    ensures
        smt_proof_holds(w, prev_root),
{
}

proof fn lemma_run_chains_roots(
    timestamp: u64,
    das_lock: SpecScript,
    t: ProfitTally,
    prev_root: Seq<u8>,
    ws: Seq<SubAccountWitness>,
)
    requires
        spec_run(timestamp, das_lock, t, prev_root, ws) is Ok,
    ensures
        forall|i: int| 0 <= i < ws.len() ==> smt_proof_holds(#[trigger] ws[i], root_before(prev_root, ws, i)),
    decreases ws.len(),
{
    if ws.len() > 0 {
        lemma_dispatch_needs_proof(timestamp, das_lock, t, ws[0], prev_root);
        let n = spec_dispatch(timestamp, das_lock, t, ws[0], prev_root)->Ok_0;
        let rest = ws.drop_first();
        lemma_run_chains_roots(timestamp, das_lock, n, ws[0].new_root@, rest);
        assert forall|i: int| 0 <= i < ws.len() implies smt_proof_holds(#[trigger] ws[i], root_before(prev_root, ws, i)) by {
            if i > 0 {
                assert(ws[i] == rest[i - 1]);
                assert(root_before(ws[0].new_root@, rest, i - 1) == root_before(prev_root, ws, i));
            }
        }
    }
}

/// An update of sub-accounts is accepted only as a chain of SMT proofs: each witness is
/// proved from the root that the one before left, the first from the root that the
/// SubAccountCell holds in the inputs, and the last leaves the root that it holds in
/// the outputs.
pub proof fn lemma_accepted_update_chains_smt_roots(
    timestamp: u64,
    das_lock: SpecScript,
    input_root: Option<Seq<u8>>,
    output_root: Option<Seq<u8>>,
    ws: Seq<SubAccountWitness>,
)
    requires
        spec_update_sub_accounts(timestamp, das_lock, input_root, output_root, ws) is Ok,
    ensures
        input_root is Some,
        output_root is Some,
        forall|i: int| 0 <= i < ws.len() ==> smt_proof_holds(#[trigger] ws[i], root_before(input_root->Some_0, ws, i)),
        ws.len() > 0 ==> ws.last().new_root@ == output_root->Some_0,
{
    lemma_run_chains_roots(timestamp, das_lock, empty_tally(), input_root->Some_0, ws);
}

/// A witness is accepted only where its suffix passed its check and its SMT proof
/// leads from the root before it to the root it leaves; an edit, besides, only where
/// the signing role, the signature's age and the sub-account's expiration passed their
/// checks, and new records only with keys that passed theirs; an approval only where
/// its signature's age passed its check (for a fulfilment, while it is sealed); and
/// only a registration or a renewal changes the tally.
pub proof fn lemma_accepted_witness_passed_its_checks(
    timestamp: u64,
    das_lock: SpecScript,
    t: ProfitTally,
    w: SubAccountWitness,
    prev_root: Seq<u8>,
)
    requires
        spec_dispatch(timestamp, das_lock, t, w, prev_root) is Ok,
    ensures
        w.suffix_check is Ok,
        opt_bytes_view(w.proof.with_value_before) == Some(prev_root),
        opt_bytes_view(w.proof.with_value_after) == Some(w.new_root@),
        w.action matches SubActionWitness::Edit { kind, unlock_role_check, sign_check, expiration_check, records_keys, .. }
            ==> unlock_role_check is Ok && sign_check is Ok && expiration_check is Ok && kind != EditKind::Other && (
        kind == EditKind::Records ==> records_keys is Ok),
        w.action matches SubActionWitness::CreateApproval { unlock_role_check, sign_check, is_transfer, .. }
            ==> unlock_role_check is Ok && sign_check is Ok && is_transfer,
        w.action matches SubActionWitness::DelayApproval { unlock_role_check, sign_check, is_transfer, .. }
            ==> unlock_role_check is Ok && sign_check is Ok && is_transfer,
        w.action matches SubActionWitness::RevokeApproval { sign_check, is_transfer, .. } ==> sign_check is Ok
            && is_transfer,
        w.action matches SubActionWitness::FulfillApproval { sign_check, is_transfer, params_decode, sealed_until }
            ==> is_transfer && params_decode && (timestamp <= sealed_until ==> sign_check is Ok),
        !(w.action is Create || w.action is Renew) ==> spec_dispatch(timestamp, das_lock, t, w, prev_root)
            == Ok::<ProfitTally, DasError>(t),
{
}

/// What the transaction shows after its witnesses are counted.
pub struct SettleFacts {
    pub flag: SubAccountConfigFlag,
    /// Whether the inputs hold nothing but the SubAccountCell, the sender's BalanceCells
    /// and NormalCells; it is read only where others paid for renewals.
    pub other_inputs_check: Result<(), DasError>,
    /// What the BalanceCells of the sender hold in the inputs and in the outputs.
    pub sender_input_capacity: u64,
    pub sender_output_capacity: u64,
    pub fee_paid_by_sub_account_cell: bool,
    pub common_fee: u64,
    /// ConfigCellSubAccount.new_sub_account_custom_price_das_profit_rate.
    pub profit_rate: u32,
    pub input: SubAccountCellBalance,
    pub output: SubAccountCellBalance,
    /// The lock hashes of the inputs and the outputs, and where the SubAccountCell
    /// stands among them; read in the custom script mode.
    pub input_lock_hashes: Vec<Vec<u8>>,
    pub input_sub_account_cell: usize,
    pub output_lock_hashes: Vec<Vec<u8>>,
    pub output_sub_account_cell: usize,
}

/// Whether the sender spent no more than the manual fees and, where the SubAccountCell
/// did not pay it, the transaction fee.
pub open spec fn sender_cost_ok(t: ProfitTally, f: SettleFacts) -> bool {
    f.sender_input_capacity <= f.sender_output_capacity || f.sender_input_capacity - f.sender_output_capacity
        <= t.profit_from_manual_mint + t.profit_from_manual_renew + (if f.fee_paid_by_sub_account_cell {
        0
    } else {
        f.common_fee as int
    })
}

/// Whether DAS got its share by the custom script mode: what DAS gained is at least the
/// minimal profit and is the share that the rate gives of all that was gained.
pub open spec fn custom_script_profit_ok(t: ProfitTally, f: SettleFacts) -> bool {
    let das_profit = f.output.das_profit - f.input.das_profit;
    let total = (f.output.owner_profit - f.input.owner_profit) + das_profit;
    &&& das_profit >= t.minimal_required_das_profit
    &&& das_profit == expected_das_profit_with_custom_script(total, f.profit_rate, t.minimal_required_das_profit)
}

/// What settling the profits of a transaction gives.
pub open spec fn spec_settle(t: ProfitTally, f: SettleFacts, one_lock: bool) -> Result<(), DasError> {
    let profit_error = DasError::SubAccountCell(SubAccountCellErrorCode::SubAccountProfitError);
    if t.profit_from_manual_renew_by_other > 0 && f.other_inputs_check is Err {
        f.other_inputs_check
    } else if f.sender_input_capacity > 0 && !sender_cost_ok(t, f) {
        Err(DasError::SubAccountCell(SubAccountCellErrorCode::SenderCapacityOverCost))
    } else {
        match f.flag {
            SubAccountConfigFlag::CustomScript => if !one_lock {
                Err(DasError::SubAccountCell(SubAccountCellErrorCode::SubAccountNormalCellLockLimit))
            } else if !custom_script_profit_ok(t, f) {
                Err(profit_error)
            } else {
                Ok(())
            },
            SubAccountConfigFlag::CustomRule => if t.profit_total != f.output.das_profit - f.input.das_profit {
                Err(profit_error)
            } else {
                Ok(())
            },
            SubAccountConfigFlag::Manual => if f.output.das_profit != f.input.das_profit + t.profit_total {
                Err(profit_error)
            } else {
                Ok(())
            },
        }
    }
}

/// Whether the normal cells of a transaction, all but the SubAccountCell, share one
/// lock.
pub open spec fn normal_cells_share_one_lock(f: SettleFacts) -> bool {
    crate::sub_account_update::all_same(
        crate::sub_account_update::without(
            crate::bytes::bytes_list_view(f.input_lock_hashes@),
            f.input_sub_account_cell,
        ) + crate::sub_account_update::without(
            crate::bytes::bytes_list_view(f.output_lock_hashes@),
            f.output_sub_account_cell,
        ),
    )
}

/// Checks, for a transaction that registers or renews sub-accounts and once its paying
/// witnesses are counted, that the profits went where they must: where others paid for renewals, only expected cells are spent; the sender spent
/// no more than the manual fees; and DAS got its profit as the mode of the
/// SubAccountCell says. In the custom script mode `Ok` hands over to the custom script.
pub fn settle_sub_account_profits(t: ProfitTally, f: &SettleFacts) -> (r: Result<(), DasError>)
    requires
        tally_consistent(t),
        f.flag == SubAccountConfigFlag::CustomScript ==> {
            &&& f.output.das_profit >= f.input.das_profit
            &&& f.output.owner_profit >= f.input.owner_profit
            &&& (f.output.owner_profit - f.input.owner_profit) + (f.output.das_profit - f.input.das_profit)
                <= u64::MAX
            &&& ((f.output.owner_profit - f.input.owner_profit) + (f.output.das_profit - f.input.das_profit))
                * f.profit_rate <= u64::MAX
        },
        f.flag == SubAccountConfigFlag::CustomRule ==> f.output.das_profit >= f.input.das_profit,
    ensures
        r == spec_settle(t, *f, normal_cells_share_one_lock(*f)),
{
    if t.profit_from_manual_renew_by_other > 0 {
        if let Err(e) = f.other_inputs_check {
            return Err(e);
        }
    }
    if f.sender_input_capacity > 0 {
        if let Err(e) = crate::sub_account::verify_sender_cost(
            f.sender_input_capacity,
            f.sender_output_capacity,
            t.profit_from_manual_mint,
            t.profit_from_manual_renew,
            f.fee_paid_by_sub_account_cell,
            f.common_fee,
        ) {
            return Err(DasError::SubAccountCell(e));
        }
    }
    match f.flag {
        SubAccountConfigFlag::CustomScript => {
            if let Err(e) = verify_there_is_only_one_lock_for_normal_cells(
                &f.input_lock_hashes,
                f.input_sub_account_cell,
                &f.output_lock_hashes,
                f.output_sub_account_cell,
            ) {
                return Err(DasError::SubAccountCell(e));
            }
            match crate::sub_account::verify_profit_to_das_with_custom_script(
                f.profit_rate,
                t.minimal_required_das_profit,
                f.input,
                f.output,
            ) {
                Err(e) => Err(DasError::SubAccountCell(e)),
                Ok(()) => Ok(()),
            }
        },
        SubAccountConfigFlag::CustomRule => {
            match crate::sub_account::verify_profit_to_das_with_custom_rule(
                f.input.das_profit,
                f.output.das_profit,
                t.profit_total,
            ) {
                Err(e) => Err(DasError::SubAccountCell(e)),
                Ok(()) => Ok(()),
            }
        },
        SubAccountConfigFlag::Manual => {
            match crate::sub_account::verify_profit_to_das_with_manual(
                f.input.das_profit,
                f.output.das_profit,
                t.profit_total,
            ) {
                Err(e) => Err(DasError::SubAccountCell(e)),
                Ok(()) => Ok(()),
            }
        },
    }
}

} // verus!
