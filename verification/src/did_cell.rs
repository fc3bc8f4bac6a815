use vstd::prelude::*;
use vstd::std_specs::convert::FromSpecImpl;
use ckb_std::error::SysError;

use crate::bytes::{copy_range, le_u64, read_u64_le};

verus! {

/// The syscall error that ckb-std reported, told apart by variant.
#[derive(Debug, Clone, Copy, PartialEq, Eq, Structural)]
pub enum SysErrorKind {
    IndexOutOfBound,
    ItemMissing,
    LengthNotEnough(usize),
    Encoding,
    WaitFailure,
    InvalidFd,
    OtherEndClosed,
    MaxVmsSpawned,
    MaxFdsCreated,
    Unknown(u64),
}

/// Whether a syscall error is one of the four that the contracts map to an error code.
pub open spec fn is_mapped_sys_error(kind: SysErrorKind) -> bool {
    ||| kind is IndexOutOfBound
    ||| kind is ItemMissing
    ||| kind is LengthNotEnough
    ||| kind is Encoding
}

/// `ckb_std::error::SysError`, the error of a CKB syscall.
#[verifier::external_type_specification]
#[verifier::external_body]
pub struct ExSysError(SysError);

/// The variant of a `ckb_std::error::SysError`, with the value it carries.
pub uninterp spec fn sys_error_kind_of(err: SysError) -> SysErrorKind;

/// Tells the variants of `ckb_std::error::SysError` apart, one arm each. The contract
/// claims only that the result is determined by the error value: the library cannot
/// look inside a `SysError`, so which kind a given value has is left unsaid.
#[verifier::external_body]
fn sys_error_kind(err: &SysError) -> (kind: SysErrorKind)
    ensures
        kind == sys_error_kind_of(*err),
{
    match *err {
        SysError::IndexOutOfBound => SysErrorKind::IndexOutOfBound,
        SysError::ItemMissing => SysErrorKind::ItemMissing,
        SysError::LengthNotEnough(n) => SysErrorKind::LengthNotEnough(n),
        SysError::Encoding => SysErrorKind::Encoding,
        SysError::WaitFailure => SysErrorKind::WaitFailure,
        SysError::InvalidFd => SysErrorKind::InvalidFd,
        SysError::OtherEndClosed => SysErrorKind::OtherEndClosed,
        SysError::MaxVmsSpawned => SysErrorKind::MaxVmsSpawned,
        SysError::MaxFdsCreated => SysErrorKind::MaxFdsCreated,
        SysError::Unknown(code) => SysErrorKind::Unknown(code),
    }
}

/// The error codes of the did-cell-type contract.
#[derive(Debug, Clone, Copy, PartialEq, Eq, Structural)]
pub enum ErrorCode {
    IndexOutOfBound,
    ItemMissing,
    LengthNotEnough,
    Encoding,
    InvalidTransactionStructure,
    NotDidWitness,
    InvalidDidCellWitnessHash,
    ExpireAtNotEqual,
    NotValidToDestroy,
    WrongTypeArgs,
    WrongClusterID,
    WitnessParserError,
    DifferentAction,
    WrongCapacity,
    ConfigError,
}

/// The number that the contract exits with for each error code.
pub open spec fn error_code_number(e: ErrorCode) -> i8 {
    match e {
        ErrorCode::IndexOutOfBound => 1,
        ErrorCode::ItemMissing => 2,
        ErrorCode::LengthNotEnough => 3,
        ErrorCode::Encoding => 4,
        ErrorCode::InvalidTransactionStructure => 5,
        ErrorCode::NotDidWitness => 6,
        ErrorCode::InvalidDidCellWitnessHash => 7,
        ErrorCode::ExpireAtNotEqual => 8,
        ErrorCode::NotValidToDestroy => 9,
        ErrorCode::WrongTypeArgs => 10,
        ErrorCode::WrongClusterID => 11,
        ErrorCode::WitnessParserError => 12,
        ErrorCode::DifferentAction => 13,
        ErrorCode::WrongCapacity => 14,
        ErrorCode::ConfigError => 15,
    }
}

/// The error code that a syscall error becomes.
pub open spec fn error_code_of_sys_error(kind: SysErrorKind) -> ErrorCode
    recommends
        is_mapped_sys_error(kind),
{
    match kind {
        SysErrorKind::IndexOutOfBound => ErrorCode::IndexOutOfBound,
        SysErrorKind::ItemMissing => ErrorCode::ItemMissing,
        SysErrorKind::LengthNotEnough(_) => ErrorCode::LengthNotEnough,
        _ => ErrorCode::Encoding,
    }
}

/// What a syscall error of the given kind becomes: its error code, or `None` for a kind
/// that the contract does not map.
pub open spec fn error_code_of_sys_error_kind(kind: SysErrorKind) -> Option<ErrorCode> {
    if is_mapped_sys_error(kind) {
        Some(error_code_of_sys_error(kind))
    } else {
        None
    }
}

impl ErrorCode {
    /// The error code that a syscall error becomes. Any other syscall error is a
    /// fault that the contract does not map.
    pub fn from_sys_error_kind(kind: SysErrorKind) -> (r: ErrorCode)
        requires
            is_mapped_sys_error(kind),
        ensures
            r == error_code_of_sys_error(kind),
    {
        match kind {
            SysErrorKind::IndexOutOfBound => ErrorCode::IndexOutOfBound,
            SysErrorKind::ItemMissing => ErrorCode::ItemMissing,
            SysErrorKind::LengthNotEnough(_) => ErrorCode::LengthNotEnough,
            _ => ErrorCode::Encoding,
        }
    }

    /// The error code of a syscall error, or `None` for a syscall error that the
    /// contract does not map (it aborts on those).
    pub fn from_sys_error(err: &SysError) -> (r: Option<ErrorCode>)
        ensures
            r == error_code_of_sys_error_kind(sys_error_kind_of(*err)),
    {
        let kind = sys_error_kind(err);
        match kind {
            SysErrorKind::IndexOutOfBound
            | SysErrorKind::ItemMissing
            | SysErrorKind::LengthNotEnough(_)
            | SysErrorKind::Encoding => Some(ErrorCode::from_sys_error_kind(kind)),
            _ => None,
        }
    }

    /// The number that the contract exits with.
    pub fn to_i8(self) -> (r: i8)
        ensures
            r == error_code_number(self),
    {
        match self {
            ErrorCode::IndexOutOfBound => 1,
            ErrorCode::ItemMissing => 2,
            ErrorCode::LengthNotEnough => 3,
            ErrorCode::Encoding => 4,
            ErrorCode::InvalidTransactionStructure => 5,
            ErrorCode::NotDidWitness => 6,
            ErrorCode::InvalidDidCellWitnessHash => 7,
            ErrorCode::ExpireAtNotEqual => 8,
            ErrorCode::NotValidToDestroy => 9,
            ErrorCode::WrongTypeArgs => 10,
            ErrorCode::WrongClusterID => 11,
            ErrorCode::WitnessParserError => 12,
            ErrorCode::DifferentAction => 13,
            ErrorCode::WrongCapacity => 14,
            ErrorCode::ConfigError => 15,
        }
    }
}

impl From<ErrorCode> for i8 {
    fn from(e: ErrorCode) -> (r: i8) {
        e.to_i8()
    }
}

impl FromSpecImpl<ErrorCode> for i8 {
    open spec fn obeys_from_spec() -> bool {
        true
    }

    open spec fn from_spec(e: ErrorCode) -> i8 {
        error_code_number(e)
    }
}

/// The account information that a DidCell's spore content carries.
#[derive(Debug)]
pub struct DidCellAccountInfo {
    pub account: Vec<u8>,
    pub expire_at: u64,
    pub hash: [u8; 20],
}

/// Length of the prefix byte, the version byte, the witness hash and `expire_at`.
pub const DID_CELL_HEADER_SIZE: usize = 30;

/// Whether `data` is a DidCell account info of version 1: a prefix byte, the version
/// byte 1, a 20-byte witness hash, an 8-byte little-endian `expire_at` and a
/// non-empty account name.
pub open spec fn is_valid_did_cell_account_info(data: Seq<u8>) -> bool {
    data.len() > 30 && data[1] == 1
}

/// Parses `[0u8][version][witness_hash: 20 bytes][expire_at: u64 LE][account]`.
pub fn parse_did_cell_account_info(data: &[u8]) -> (r: Result<DidCellAccountInfo, ErrorCode>)
    ensures
        r is Ok <==> is_valid_did_cell_account_info(data@),
        r is Err ==> r == Err::<DidCellAccountInfo, ErrorCode>(ErrorCode::Encoding),
        r matches Ok(info) ==> {
            &&& info.hash@ == data@.subrange(2, 22)
            &&& info.expire_at == le_u64(data@.subrange(22, 30))
            &&& info.account@ == data@.subrange(30, data@.len() as int)
        },
{
    if data.len() <= DID_CELL_HEADER_SIZE {
        return Err(ErrorCode::Encoding);
    }
    if data[1] != 1u8 {
        return Err(ErrorCode::Encoding);
    }
    let mut hash = [0u8; 20];
    let mut i: usize = 0;
    while i < 20
        invariant
            data@.len() > 30,
            i <= 20,
            forall|j: int| 0 <= j < i ==> hash@[j] == data@[2 + j],
        decreases 20 - i,
    {
        hash[i] = data[2 + i];
        i = i + 1;
    }
    assert(hash@ =~= data@.subrange(2, 22));
    let expire_slice = vstd::slice::slice_subrange(data, 22, 30);
    let expire_at = read_u64_le(expire_slice);
    let account = copy_range(data, 30, data.len() - 30);
    Ok(DidCellAccountInfo { account, expire_at, hash })
}

} // verus!
