use vstd::prelude::*;

use crate::bytes::bytes_eq;

verus! {

/// Seconds in a day.
pub const DAY_SEC: u64 = 86400;

/// Days in a year.
pub const DAYS_OF_YEAR: u64 = 365;

/// Seconds in a year of 365 days.
pub const YEAR_SEC: u64 = 31_536_000;

/// Shannons in one CKB.
pub const ONE_CKB: u64 = 100_000_000;

/// The least capacity of a cell, in shannons.
pub const CELL_BASIC_CAPACITY: u64 = 6_100_000_000;

/// The base of every profit rate: a rate of `RATE_BASE` is 100%.
pub const RATE_BASE: u64 = 10_000;

/// Length of an account ID in bytes.
pub const ACCOUNT_ID_LENGTH: usize = 20;

/// The owner type byte of a das-lock whose owner is an Ethereum address.
pub const DAS_LOCK_TYPE_ETH: u8 = 3;

/// The status of an AccountCell or a sub-account.
#[derive(Debug, Clone, Copy, PartialEq, Eq, Structural)]
pub enum AccountStatus {
    Normal,
    Selling,
    Auction,
    LockedForCrossChain,
    ApprovedTransfer,
    Upgraded,
}

/// A CKB script: code hash, hash type and arguments.
#[derive(Debug)]
pub struct Script {
    pub code_hash: Vec<u8>,
    pub hash_type: u8,
    pub args: Vec<u8>,
}

/// The value of a script.
pub struct SpecScript {
    pub code_hash: Seq<u8>,
    pub hash_type: u8,
    pub args: Seq<u8>,
}

impl View for Script {
    type V = SpecScript;

    open spec fn view(&self) -> SpecScript {
        SpecScript { code_hash: self.code_hash@, hash_type: self.hash_type, args: self.args@ }
    }
}

/// Whether two scripts run the same code: the same code hash and hash type.
pub open spec fn same_type_id(a: SpecScript, b: SpecScript) -> bool {
    a.code_hash == b.code_hash && a.hash_type == b.hash_type
}

/// Whether two scripts are equal in every field.
pub open spec fn same_script(a: SpecScript, b: SpecScript) -> bool {
    a.code_hash == b.code_hash && a.hash_type == b.hash_type && a.args == b.args
}

/// The owner type of a das-lock: the first byte of its arguments.
pub open spec fn das_lock_owner_type(args: Seq<u8>) -> Option<u8> {
    if args.len() > 0 {
        Some(args[0])
    } else {
        None
    }
}

impl Script {
    /// A copy of the script.
    pub fn copy(&self) -> (r: Script)
        ensures
            r@ == self@,
    {
        Script {
            code_hash: crate::bytes::clone_bytes(&self.code_hash),
            hash_type: self.hash_type,
            args: crate::bytes::clone_bytes(&self.args),
        }
    }
}

/// Whether two scripts run the same code.
pub fn is_type_id_equal(a: &Script, b: &Script) -> (r: bool)
    ensures
        r == same_type_id(a@, b@),
{
    a.hash_type == b.hash_type && bytes_eq(a.code_hash.as_slice(), b.code_hash.as_slice())
}

/// Whether two scripts are equal.
pub fn is_script_eq(a: &Script, b: &Script) -> (r: bool)
    ensures
        r == same_script(a@, b@),
{
    a.hash_type == b.hash_type && bytes_eq(a.code_hash.as_slice(), b.code_hash.as_slice()) && bytes_eq(
        a.args.as_slice(),
        b.args.as_slice(),
    )
}

} // verus!
