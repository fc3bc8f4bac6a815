use vstd::prelude::*;

use crate::bytes::{bytes_eq, bytes_list_view, clone_bytes, contains_bytes};
use crate::error::{DasError, ErrorCode, ReverseRecordRootCellErrorCode};
use crate::offer::{cancel_offers, spec_cancel_offers};

verus! {

/// Checks the ReverseRecordCells that a retraction consumes, given the hashes of their
/// locks and their total capacity, and gives the change owed to their owner: every
/// cell has the lock of the first, and the owner gets what they hold, less the fee.
/// Cells holding less than the fee make the contract abort, so that is left out.
pub fn retract_reverse_records(lock_hashes: &Vec<Vec<u8>>, total_capacity: u64, common_fee: u64) -> (r: Result<
    u64,
    ErrorCode,
>)
    requires
        total_capacity >= common_fee,
    ensures
        r == spec_cancel_offers(bytes_list_view(lock_hashes@), total_capacity, common_fee),
{
    cancel_offers(lock_hashes, total_capacity, common_fee)
}

/// Length of the SMT root that a ReverseRecordRootCell holds.
pub const SMT_ROOT_LENGTH: usize = 32;

/// What checking a new ReverseRecordRootCell gives: it holds exactly the basic
/// capacity of a record, and its data is the root of an empty tree, 32 zero bytes.
pub open spec fn spec_verify_new_root_cell(capacity: u64, basic_capacity: u64, data: Seq<u8>) -> Result<(), DasError> {
    if capacity != basic_capacity {
        Err(DasError::ReverseRecordRootCell(ReverseRecordRootCellErrorCode::InitialCapacityError))
    } else if !(data.len() == SMT_ROOT_LENGTH && forall|i: int| 0 <= i < data.len() ==> data[i] == 0) {
        Err(DasError::ReverseRecordRootCell(ReverseRecordRootCellErrorCode::InitialOutputsDataError))
    } else {
        Ok(())
    }
}

/// Checks a new ReverseRecordRootCell.
pub fn verify_new_root_cell(capacity: u64, basic_capacity: u64, data: &[u8]) -> (r: Result<(), DasError>)
    ensures
        r == spec_verify_new_root_cell(capacity, basic_capacity, data@),
{
    if capacity != basic_capacity {
        return Err(DasError::ReverseRecordRootCell(ReverseRecordRootCellErrorCode::InitialCapacityError));
    }
    if data.len() != SMT_ROOT_LENGTH {
        return Err(DasError::ReverseRecordRootCell(ReverseRecordRootCellErrorCode::InitialOutputsDataError));
    }
    let mut i: usize = 0;
    while i < data.len()
        invariant
            i <= data@.len(),
            data@.len() == SMT_ROOT_LENGTH,
            capacity == basic_capacity,
            forall|j: int| 0 <= j < i ==> data@[j] == 0,
        decreases data@.len() - i,
    {
        if data[i] != 0 {
            return Err(DasError::ReverseRecordRootCell(ReverseRecordRootCellErrorCode::InitialOutputsDataError));
        }
        i = i + 1;
    }
    Ok(())
}

/// Checks that some input is locked by a lock of the SMT white list, given the lock
/// hashes of the inputs that the check looks at.
pub fn verify_has_some_lock_in_white_list(input_lock_hashes: &Vec<Vec<u8>>, white_list: &Vec<Vec<u8>>) -> (r: Result<
    (),
    ErrorCode,
>)
    ensures
        r is Ok <==> exists|i: int, j: int|
            0 <= i < input_lock_hashes@.len() && 0 <= j < white_list@.len() && #[trigger] input_lock_hashes@[i]@
                == #[trigger] white_list@[j]@,
        r matches Err(e) ==> e == ErrorCode::SMTWhiteListTheLockIsNotFound,
{
    let mut i: usize = 0;
    while i < input_lock_hashes.len()
        invariant
            i <= input_lock_hashes@.len(),
            forall|a: int, j: int|
                0 <= a < i && 0 <= j < white_list@.len() ==> #[trigger] input_lock_hashes@[a]@ != #[trigger] white_list@[j]@,
        decreases input_lock_hashes@.len() - i,
    {
        if contains_bytes(white_list, input_lock_hashes[i].as_slice()) {
            return Ok(());
        }
        i = i + 1;
    }
    Err(ErrorCode::SMTWhiteListTheLockIsNotFound)
}

/// The nonce of the next reverse record: one more than the previous, or 1 for the
/// first.
pub open spec fn spec_next_nonce(prev_nonce: Option<u32>) -> int {
    match prev_nonce {
        Some(n) => n + 1,
        None => 1,
    }
}

/// The nonce of the next reverse record. A previous nonce of `u32::MAX` makes the
/// contract abort, so it is left out.
pub fn next_nonce(prev_nonce: Option<u32>) -> (r: u32)
    requires
        prev_nonce matches Some(n) ==> n < u32::MAX,
    ensures
        r == spec_next_nonce(prev_nonce),
{
    match prev_nonce {
        Some(n) => n + 1,
        None => 1,
    }
}

/// The 4 little-endian bytes of a `u32`.
pub open spec fn u32_le_bytes(n: u32) -> Seq<u8> {
    seq![(n % 0x100) as u8, ((n / 0x100) % 0x100) as u8, ((n / 0x10000) % 0x100) as u8, (n / 0x1000000) as u8]
}

/// A nonce followed by an account: what is signed for a reverse record, and what is
/// hashed into the value of its SMT leaf.
pub fn nonce_and_account(nonce: u32, account: &[u8]) -> (r: Vec<u8>)
    ensures
        r@ == u32_le_bytes(nonce) + account@,
{
    let mut r: Vec<u8> = Vec::new();
    r.push((nonce % 0x100) as u8);
    r.push(((nonce / 0x100) % 0x100) as u8);
    r.push(((nonce / 0x10000) % 0x100) as u8);
    r.push((nonce / 0x1000000) as u8);
    let mut i: usize = 0;
    while i < account.len()
        invariant
            i <= account@.len(),
            r@ == u32_le_bytes(nonce) + account@.take(i as int),
        decreases account@.len() - i,
    {
        r.push(account[i]);
        i = i + 1;
        assert(r@ =~= u32_le_bytes(nonce) + account@.take(i as int));
    }
    assert(account@.take(account@.len() as int) =~= account@);
    r
}

/// The lock types that can sign a reverse record.
#[derive(Debug, Clone, Copy, PartialEq, Eq, Structural)]
pub enum SignType {
    Eth,
    EthTypedData,
    Tron,
    Doge,
    WebAuthn,
    Other,
}

/// What the signature library answered for a reverse record.
#[derive(Debug, Clone, Copy, PartialEq, Eq, Structural)]
pub enum SignOutcome {
    /// The message could not be made for the lock type.
    DigestFailed,
    Valid,
    /// The lock type is not defined in the library.
    UndefinedLockType,
    Invalid,
}

/// What checking the signature of a reverse record gives.
pub open spec fn spec_verify_sign(sign_type: SignType, outcome: SignOutcome) -> Result<(), DasError> {
    if sign_type == SignType::Other {
        Err(DasError::Common(ErrorCode::InvalidTransactionStructure))
    } else {
        match outcome {
            SignOutcome::DigestFailed => Err(
                DasError::ReverseRecordRootCell(ReverseRecordRootCellErrorCode::SignatureVerifyError),
            ),
            SignOutcome::Valid => Ok(()),
            SignOutcome::UndefinedLockType => Err(DasError::Common(ErrorCode::HardCodedError)),
            SignOutcome::Invalid => Err(
                DasError::ReverseRecordRootCell(ReverseRecordRootCellErrorCode::SignatureVerifyError),
            ),
        }
    }
}

/// Checks the signature of a reverse record: only the supported lock types may sign,
/// and the library must find the signature valid.
pub fn verify_sign(sign_type: SignType, outcome: SignOutcome) -> (r: Result<(), DasError>)
    ensures
        r == spec_verify_sign(sign_type, outcome),
{
    if sign_type == SignType::Other {
        return Err(DasError::Common(ErrorCode::InvalidTransactionStructure));
    }
    match outcome {
        SignOutcome::DigestFailed => Err(
            DasError::ReverseRecordRootCell(ReverseRecordRootCellErrorCode::SignatureVerifyError),
        ),
        SignOutcome::Valid => Ok(()),
        SignOutcome::UndefinedLockType => Err(DasError::Common(ErrorCode::HardCodedError)),
        SignOutcome::Invalid => Err(
            DasError::ReverseRecordRootCell(ReverseRecordRootCellErrorCode::SignatureVerifyError),
        ),
    }
}

/// The root that each reverse record is proved against: the root of the cell for the
/// first, then the new root of the record before.
pub open spec fn prev_roots(initial: Seq<u8>, next_roots: Seq<Seq<u8>>) -> Seq<Seq<u8>> {
    Seq::new(next_roots.len(), |i: int| if i == 0 { initial } else { next_roots[i - 1] })
}

/// The root that the records leave: the new root of the last record, or the root of
/// the cell where there is none.
pub open spec fn final_root(initial: Seq<u8>, next_roots: Seq<Seq<u8>>) -> Seq<u8> {
    if next_roots.len() == 0 {
        initial
    } else {
        next_roots.last()
    }
}

/// Lists the root that each reverse record is proved against.
pub fn roots_to_prove(initial: &Vec<u8>, next_roots: &Vec<Vec<u8>>) -> (r: Vec<Vec<u8>>)
    ensures
        bytes_list_view(r@) == prev_roots(initial@, bytes_list_view(next_roots@)),
{
    let ghost target = prev_roots(initial@, bytes_list_view(next_roots@));
    let mut r: Vec<Vec<u8>> = Vec::new();
    let mut i: usize = 0;
    while i < next_roots.len()
        invariant
            target == prev_roots(initial@, bytes_list_view(next_roots@)),
            i <= next_roots@.len(),
            bytes_list_view(r@) == target.take(i as int),
        decreases next_roots@.len() - i,
    {
        let ghost before = bytes_list_view(r@);
        if i == 0 {
            r.push(clone_bytes(initial));
        } else {
            r.push(clone_bytes(&next_roots[i - 1]));
        }
        proof {
            assert(bytes_list_view(r@) =~= before.push(target[i as int]));
            assert(target.take(i as int + 1) =~= target.take(i as int).push(target[i as int]));
        }
        i = i + 1;
    }
    assert(target.take(next_roots@.len() as int) =~= target);
    r
}

/// Checks that the ReverseRecordRootCell ends with the root that the records leave.
pub fn verify_latest_root(initial: &Vec<u8>, next_roots: &Vec<Vec<u8>>, latest: &[u8]) -> (r: Result<(), ErrorCode>)
    ensures
        r is Ok <==> latest@ == final_root(initial@, bytes_list_view(next_roots@)),
        r matches Err(e) ==> e == ErrorCode::SMTNewRootMismatch,
{
    let expected = if next_roots.len() == 0 {
        initial.as_slice()
    } else {
        next_roots[next_roots.len() - 1].as_slice()
    };
    if bytes_eq(latest, expected) {
        Ok(())
    } else {
        Err(ErrorCode::SMTNewRootMismatch)
    }
}

} // verus!
