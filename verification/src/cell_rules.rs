use vstd::prelude::*;
use vstd::string::StringSliceAdditionalSpecFns;

use crate::bytes::{bytes_eq, bytes_list_view};
use crate::error::ErrorCode;
use crate::proposal_exec::{capacity_sum, sum_capacities};
use crate::types::ONE_CKB;

verus! {

/// What checking a transaction that creates WalletCells gives: the wallet maker signs,
/// no WalletCell is consumed, at least one is created, and every new one uses the
/// always-success lock.
pub open spec fn spec_verify_create_wallet(
    has_maker_lock: bool,
    input_count: usize,
    output_lock_hashes: Seq<Seq<u8>>,
    always_success_hash: Seq<u8>,
) -> Result<(), ErrorCode> {
    if !has_maker_lock {
        Err(ErrorCode::WalletRequireWalletMakerLock)
    } else if !(input_count == 0 && output_lock_hashes.len() > 0) {
        Err(ErrorCode::WalletFoundInvalidTransaction)
    } else if exists|i: int| 0 <= i < output_lock_hashes.len() && #[trigger] output_lock_hashes[i] != always_success_hash {
        Err(ErrorCode::WalletRequireAlwaysSuccess)
    } else {
        Ok(())
    }
}

/// Checks a transaction that creates WalletCells, given the lock hashes of the new
/// WalletCells.
pub fn verify_create_wallet(
    has_maker_lock: bool,
    input_count: usize,
    output_lock_hashes: &Vec<Vec<u8>>,
    always_success_hash: &[u8],
) -> (r: Result<(), ErrorCode>)
    ensures
        r == spec_verify_create_wallet(
            has_maker_lock,
            input_count,
            bytes_list_view(output_lock_hashes@),
            always_success_hash@,
        ),
{
    let ghost v = bytes_list_view(output_lock_hashes@);
    if !has_maker_lock {
        return Err(ErrorCode::WalletRequireWalletMakerLock);
    }
    if !(input_count == 0 && output_lock_hashes.len() > 0) {
        return Err(ErrorCode::WalletFoundInvalidTransaction);
    }
    let mut i: usize = 0;
    while i < output_lock_hashes.len()
        invariant
            v == bytes_list_view(output_lock_hashes@),
            has_maker_lock && input_count == 0 && output_lock_hashes@.len() > 0,
            i <= output_lock_hashes@.len(),
            forall|j: int| 0 <= j < i ==> #[trigger] v[j] == always_success_hash@,
        decreases output_lock_hashes@.len() - i,
    {
        if !bytes_eq(output_lock_hashes[i].as_slice(), always_success_hash) {
            assert(v[i as int] != always_success_hash@);
            return Err(ErrorCode::WalletRequireAlwaysSuccess);
        }
        i = i + 1;
    }
    Ok(())
}

/// What checking a withdrawal from a WalletCell gives: one WalletCell on each side,
/// and the owner shows its right by the OwnerCell and the AccountCell of the same
/// account, the OwnerCell being locked by the owner lock of the AccountCell.
pub open spec fn spec_verify_withdraw(
    input_count: usize,
    output_count: usize,
    id_in_wallet: Seq<u8>,
    id_in_ref: Seq<u8>,
    id_in_account: Seq<u8>,
    owner_lock: Seq<u8>,
    ref_cell_lock: Seq<u8>,
) -> Result<(), ErrorCode> {
    if !(input_count == 1 && output_count == 1) {
        Err(ErrorCode::WalletFoundInvalidTransaction)
    } else if id_in_wallet != id_in_ref {
        Err(ErrorCode::WalletPermissionInvalid)
    } else if id_in_wallet != id_in_account {
        Err(ErrorCode::WalletPermissionInvalid)
    } else if owner_lock != ref_cell_lock {
        Err(ErrorCode::WalletPermissionInvalid)
    } else {
        Ok(())
    }
}

/// Checks the permission to withdraw from a WalletCell.
pub fn verify_withdraw(
    input_count: usize,
    output_count: usize,
    id_in_wallet: &[u8],
    id_in_ref: &[u8],
    id_in_account: &[u8],
    owner_lock: &[u8],
    ref_cell_lock: &[u8],
) -> (r: Result<(), ErrorCode>)
    ensures
        r == spec_verify_withdraw(
            input_count,
            output_count,
            id_in_wallet@,
            id_in_ref@,
            id_in_account@,
            owner_lock@,
            ref_cell_lock@,
        ),
{
    if !(input_count == 1 && output_count == 1) {
        return Err(ErrorCode::WalletFoundInvalidTransaction);
    }
    if !bytes_eq(id_in_wallet, id_in_ref) {
        return Err(ErrorCode::WalletPermissionInvalid);
    }
    if !bytes_eq(id_in_wallet, id_in_account) {
        return Err(ErrorCode::WalletPermissionInvalid);
    }
    if !bytes_eq(owner_lock, ref_cell_lock) {
        return Err(ErrorCode::WalletPermissionInvalid);
    }
    Ok(())
}

/// The first failure among the checks of the cell pairs, or `Ok` where none failed.
pub open spec fn first_pair_failure(checks: Seq<Result<(), ErrorCode>>) -> Result<(), ErrorCode>
    decreases checks.len(),
{
    if checks.len() == 0 {
        Ok(())
    } else if checks[0] is Err {
        checks[0]
    } else {
        first_pair_failure(checks.drop_first())
    }
}

/// Checks that cells which may only grow in capacity (WalletCells, RefCells) stand in
/// the same number on both sides, and then goes through the checks made on each pair of
/// an input and the output at its index (capacity grown, lock, type and data kept), in
/// order, stopping at the first that failed.
pub fn verify_if_only_capacity_increased(
    input_count: usize,
    output_count: usize,
    pair_checks: &Vec<Result<(), ErrorCode>>,
) -> (r: Result<(), ErrorCode>)
    requires
        input_count == output_count ==> pair_checks@.len() == input_count,
    ensures
        input_count != output_count ==> r == Err::<(), ErrorCode>(
            ErrorCode::CellsMustHaveSameOrderAndNumber,
        ),
        input_count == output_count ==> r == first_pair_failure(pair_checks@),
{
    if input_count != output_count {
        return Err(ErrorCode::CellsMustHaveSameOrderAndNumber);
    }
    assert(pair_checks@.skip(0) =~= pair_checks@);
    let mut i: usize = 0;
    while i < pair_checks.len()
        invariant
            input_count == output_count,
            i <= pair_checks@.len(),
            first_pair_failure(pair_checks@) == first_pair_failure(pair_checks@.skip(i as int)),
        decreases pair_checks@.len() - i,
    {
        let ghost rest = pair_checks@.skip(i as int);
        assert(rest.drop_first() =~= pair_checks@.skip(i + 1));
        if pair_checks[i].is_err() {
            return pair_checks[i];
        }
        i = i + 1;
    }
    assert(pair_checks@.skip(i as int) =~= Seq::<Result<(), ErrorCode>>::empty());
    Ok(())
}

/// Length of the data of an ApplyRegisterCell: a hash.
pub const APPLY_REGISTER_DATA_LENGTH: usize = 32;

/// Checks the data of a new ApplyRegisterCell.
pub fn verify_apply_register_data(data: &[u8]) -> (r: Result<(), ErrorCode>)
    ensures
        r is Ok <==> data@.len() == APPLY_REGISTER_DATA_LENGTH,
        r matches Err(e) ==> e == ErrorCode::InvalidCellData,
{
    if data.len() != APPLY_REGISTER_DATA_LENGTH {
        return Err(ErrorCode::InvalidCellData);
    }
    Ok(())
}

/// The flag of a since value that makes it relative to the input.
pub const SINCE_RELATIVE_FLAG: u64 = 0x8000_0000_0000_0000;

/// The since that every refunded ApplyRegisterCell must carry: relative, counted in
/// blocks, the longest wait of an application.
pub open spec fn expected_refund_since(max_waiting: u32) -> u64 {
    (SINCE_RELATIVE_FLAG + max_waiting) as u64
}

/// An ApplyRegisterCell that is refunded: its lock, serialized, its since and its
/// capacity.
pub struct ApplyRefund {
    pub lock: Vec<u8>,
    pub since: u64,
    pub capacity: u64,
}

/// What checking a refund of ApplyRegisterCells gives: some are consumed and none
/// created; all share the lock of the first and wait the longest time; and the
/// outputs of that lock carry what they held, less at most one CKB.
pub open spec fn spec_verify_refund_apply(
    cells: Seq<ApplyRefund>,
    output_count: usize,
    max_waiting: u32,
    refund_capacities: Seq<u64>,
) -> Result<(), ErrorCode> {
    if !(cells.len() > 0 && output_count == 0) {
        Err(ErrorCode::InvalidTransactionStructure)
    } else if exists|i: int| 0 <= i < cells.len() && cell_fails_apply_refund(cells, i, max_waiting) {
        apply_refund_error(
            cells,
            choose|i: int|
                0 <= i < cells.len() && cell_fails_apply_refund(cells, i, max_waiting) && forall|j: int|
                    0 <= j < i ==> !cell_fails_apply_refund(cells, j, max_waiting),
            max_waiting,
        )
    } else if capacity_sum(refund_capacities) < capacity_sum(cells.map_values(|c: ApplyRefund| c.capacity)) - ONE_CKB {
        Err(ErrorCode::ApplyRegisterRefundCapacityError)
    } else {
        Ok(())
    }
}

/// Whether the `i`-th ApplyRegisterCell breaks a rule of the refund.
pub open spec fn cell_fails_apply_refund(cells: Seq<ApplyRefund>, i: int, max_waiting: u32) -> bool {
    cells[i].lock@ != cells[0].lock@ || cells[i].since != expected_refund_since(max_waiting)
}

/// The error of an ApplyRegisterCell that breaks a rule of the refund.
pub open spec fn apply_refund_error(cells: Seq<ApplyRefund>, i: int, max_waiting: u32) -> Result<(), ErrorCode> {
    if cells[i].lock@ != cells[0].lock@ {
        Err(ErrorCode::ApplyLockMustBeUnique)
    } else {
        Err(ErrorCode::ApplyRegisterSinceMismatch)
    }
}

/// Checks a refund of ApplyRegisterCells. `refund_capacities` are the capacities of
/// the outputs locked by the lock of the first ApplyRegisterCell. Cells holding less
/// than one CKB in all, or sums too large to add up, make the contract abort, so they
/// are left out.
pub fn verify_refund_apply(
    cells: &Vec<ApplyRefund>,
    output_count: usize,
    max_waiting: u32,
    refund_capacities: &Vec<u64>,
) -> (r: Result<(), ErrorCode>)
    requires
        capacity_sum(cells@.map_values(|c: ApplyRefund| c.capacity)) <= u64::MAX,
        capacity_sum(refund_capacities@) <= u64::MAX,
        cells@.len() > 0 ==> capacity_sum(cells@.map_values(|c: ApplyRefund| c.capacity)) >= ONE_CKB,
    ensures
        r == spec_verify_refund_apply(cells@, output_count, max_waiting, refund_capacities@),
{
    if !(cells.len() > 0 && output_count == 0) {
        return Err(ErrorCode::InvalidTransactionStructure);
    }
    let since: u64 = SINCE_RELATIVE_FLAG + max_waiting as u64;
    let mut caps: Vec<u64> = Vec::new();
    let mut i: usize = 0;
    while i < cells.len()
        invariant
            cells@.len() > 0 && output_count == 0,
            since == expected_refund_since(max_waiting),
            i <= cells@.len(),
            forall|j: int| 0 <= j < i ==> !cell_fails_apply_refund(cells@, j, max_waiting),
            caps@ == cells@.map_values(|c: ApplyRefund| c.capacity).take(i as int),
        decreases cells@.len() - i,
    {
        if !bytes_eq(cells[i].lock.as_slice(), cells[0].lock.as_slice()) {
            assert(cell_fails_apply_refund(cells@, i as int, max_waiting));
            return Err(ErrorCode::ApplyLockMustBeUnique);
        }
        if cells[i].since != since {
            assert(cell_fails_apply_refund(cells@, i as int, max_waiting));
            return Err(ErrorCode::ApplyRegisterSinceMismatch);
        }
        caps.push(cells[i].capacity);
        i = i + 1;
        assert(caps@ =~= cells@.map_values(|c: ApplyRefund| c.capacity).take(i as int));
    }
    assert(caps@ =~= cells@.map_values(|c: ApplyRefund| c.capacity));
    let expected = sum_capacities(&caps);
    let refund = sum_capacities(refund_capacities);
    if refund < expected - ONE_CKB {
        return Err(ErrorCode::ApplyRegisterRefundCapacityError);
    }
    Ok(())
}

/// The least price of an account put on sale by an OnSaleCell, in shannons (100 CKB).
pub const ON_SALE_MIN_PRICE: u64 = 10_000_000_000;

/// What checking the account of an OnSaleCell gives: there is exactly one AccountCell
/// in the outputs, and the type arguments of the OnSaleCell are its account ID.
pub open spec fn spec_verify_on_sale_args(account_ids: Seq<Seq<u8>>, type_args: Seq<u8>) -> Result<(), ErrorCode> {
    if account_ids.len() != 1 {
        Err(ErrorCode::OnSaleCellAccountCellMustOne)
    } else if account_ids[0] != type_args {
        Err(ErrorCode::OnSaleCellArgsInvalid)
    } else {
        Ok(())
    }
}

/// Checks that an OnSaleCell belongs to the only AccountCell in the outputs, given the
/// account IDs of the AccountCells in the outputs.
pub fn verify_on_sale_args(account_ids: &Vec<Vec<u8>>, type_args: &[u8]) -> (r: Result<(), ErrorCode>)
    ensures
        r == spec_verify_on_sale_args(bytes_list_view(account_ids@), type_args@),
{
    if account_ids.len() != 1 {
        return Err(ErrorCode::OnSaleCellAccountCellMustOne);
    }
    if !bytes_eq(account_ids[0].as_slice(), type_args) {
        return Err(ErrorCode::OnSaleCellArgsInvalid);
    }
    Ok(())
}

/// What checking an OnSaleCell that starts a sale gives: it is created alone, belongs
/// to the AccountCell, starts now and asks at least the least price.
pub open spec fn spec_verify_start_on_sale(
    input_count: usize,
    output_count: usize,
    account_ids: Seq<Seq<u8>>,
    type_args: Seq<u8>,
    started_at: u64,
    price: u64,
    timestamp: u64,
) -> Result<(), ErrorCode> {
    if !(input_count == 0 && output_count == 1) {
        Err(ErrorCode::OnSaleCellNumberInvalid)
    } else if spec_verify_on_sale_args(account_ids, type_args) is Err {
        spec_verify_on_sale_args(account_ids, type_args)
    } else if started_at != timestamp {
        Err(ErrorCode::OnSaleCellStartedAtInvalid)
    } else if price < ON_SALE_MIN_PRICE {
        Err(ErrorCode::OnSaleCellPriceTooSmall)
    } else {
        Ok(())
    }
}

/// Checks a transaction that puts an account on sale by an OnSaleCell.
pub fn verify_start_on_sale(
    input_count: usize,
    output_count: usize,
    account_ids: &Vec<Vec<u8>>,
    type_args: &[u8],
    started_at: u64,
    price: u64,
    timestamp: u64,
) -> (r: Result<(), ErrorCode>)
    ensures
        r == spec_verify_start_on_sale(
            input_count,
            output_count,
            bytes_list_view(account_ids@),
            type_args@,
            started_at,
            price,
            timestamp,
        ),
{
    if !(input_count == 0 && output_count == 1) {
        return Err(ErrorCode::OnSaleCellNumberInvalid);
    }
    let c = verify_on_sale_args(account_ids, type_args);
    if c.is_err() {
        return c;
    }
    if started_at != timestamp {
        return Err(ErrorCode::OnSaleCellStartedAtInvalid);
    }
    if price < ON_SALE_MIN_PRICE {
        return Err(ErrorCode::OnSaleCellPriceTooSmall);
    }
    Ok(())
}

/// What checking an OnSaleCell that cancels a sale gives: it is consumed alone and
/// belongs to the AccountCell.
pub open spec fn spec_verify_cancel_on_sale(
    input_count: usize,
    output_count: usize,
    account_ids: Seq<Seq<u8>>,
    type_args: Seq<u8>,
) -> Result<(), ErrorCode> {
    if !(input_count == 1 && output_count == 0) {
        Err(ErrorCode::OnSaleCellNumberInvalid)
    } else {
        spec_verify_on_sale_args(account_ids, type_args)
    }
}

/// Checks a transaction that cancels a sale by an OnSaleCell.
pub fn verify_cancel_on_sale(
    input_count: usize,
    output_count: usize,
    account_ids: &Vec<Vec<u8>>,
    type_args: &[u8],
) -> (r: Result<(), ErrorCode>)
    ensures
        r == spec_verify_cancel_on_sale(input_count, output_count, bytes_list_view(account_ids@), type_args@),
{
    if !(input_count == 1 && output_count == 0) {
        return Err(ErrorCode::OnSaleCellNumberInvalid);
    }
    verify_on_sale_args(account_ids, type_args)
}

/// The number that 4 bytes make, least significant first.
pub open spec fn le_u32(b: Seq<u8>) -> int {
    b[0] + b[1] * 0x100 + b[2] * 0x10000 + b[3] * 0x1000000
}

/// What reading the config ID of a ConfigCell from its type arguments gives: they are
/// 4 bytes, a little-endian number that must be one of the defined config IDs.
pub open spec fn spec_get_config_id(args: Seq<u8>, defined: Seq<u32>) -> Result<u32, ErrorCode> {
    if args.len() != 4 {
        Err(ErrorCode::Encoding)
    } else if !defined.contains(le_u32(args) as u32) {
        Err(ErrorCode::ConfigIDIsUndefined)
    } else {
        Ok(le_u32(args) as u32)
    }
}

/// Reads the config ID of a ConfigCell from its type arguments.
pub fn get_config_id(args: &[u8], defined: &Vec<u32>) -> (r: Result<u32, ErrorCode>)
    ensures
        r == spec_get_config_id(args@, defined@),
{
    if args.len() != 4 {
        return Err(ErrorCode::Encoding);
    }
    let id: u32 = args[0] as u32 + args[1] as u32 * 0x100 + args[2] as u32 * 0x10000 + args[3] as u32 * 0x1000000;
    assert(le_u32(args@) as u32 == id);
    let mut i: usize = 0;
    while i < defined.len()
        invariant
            args@.len() == 4,
            i <= defined@.len(),
            id == le_u32(args@),
            le_u32(args@) as u32 == id,
            forall|j: int| 0 <= j < i ==> defined@[j] != id,
        decreases defined@.len() - i,
    {
        if defined[i] == id {
            assert(defined@[i as int] == id);
            assert(defined@.contains(le_u32(args@) as u32));
            return Ok(id);
        }
        i = i + 1;
    }
    Err(ErrorCode::ConfigIDIsUndefined)
}

/// A ConfigCell in the outputs: its lock hash and its type arguments; and, where
/// ConfigCells are updated, the type arguments of the one it replaces.
pub struct ConfigCellPair {
    pub lock_hash: Vec<u8>,
    pub output_args: Vec<u8>,
    pub input_args: Option<Vec<u8>>,
}

/// What checking one ConfigCell of the outputs gives: it uses the super lock, and
/// where it replaces one, both have the same defined config ID.
pub open spec fn spec_check_config_cell(c: ConfigCellPair, super_lock_hash: Seq<u8>, defined: Seq<u32>) -> Result<
    (),
    ErrorCode,
> {
    if c.lock_hash@ != super_lock_hash {
        Err(ErrorCode::CellMustUseSuperLock)
    } else if spec_get_config_id(c.output_args@, defined) is Err {
        Err(spec_get_config_id(c.output_args@, defined)->Err_0)
    } else {
        match c.input_args {
            None => Ok(()),
            Some(a) => match spec_get_config_id(a@, defined) {
                Err(e) => Err(e),
                Ok(id) => if id != spec_get_config_id(c.output_args@, defined)->Ok_0 {
                    Err(ErrorCode::InvalidTransactionStructure)
                } else {
                    Ok(())
                },
            },
        }
    }
}

/// The first error among the ConfigCells of the outputs, in order.
pub open spec fn first_config_error(cells: Seq<ConfigCellPair>, super_lock_hash: Seq<u8>, defined: Seq<u32>, n: int) -> Option<
    ErrorCode,
>
    decreases n,
{
    if n <= 0 {
        None
    } else {
        match first_config_error(cells, super_lock_hash, defined, n - 1) {
            Some(e) => Some(e),
            None => match spec_check_config_cell(cells[n - 1], super_lock_hash, defined) {
                Err(e) => Some(e),
                Ok(_) => None,
            },
        }
    }
}

/// What checking a transaction that writes ConfigCells gives: the super lock signs;
/// at least one ConfigCell is in the outputs; where ConfigCells are replaced, as many
/// as there were; and each ConfigCell passes its check, in order.
pub open spec fn spec_verify_config_cells(
    has_super_lock: bool,
    input_count: usize,
    cells: Seq<ConfigCellPair>,
    super_lock_hash: Seq<u8>,
    defined: Seq<u32>,
) -> Result<(), ErrorCode> {
    if !has_super_lock {
        Err(ErrorCode::SuperLockIsRequired)
    } else if cells.len() < 1 {
        Err(ErrorCode::InvalidTransactionStructure)
    } else if input_count > 0 && input_count != cells.len() {
        Err(ErrorCode::InvalidTransactionStructure)
    } else {
        match first_config_error(cells, super_lock_hash, defined, cells.len() as int) {
            Some(e) => Err(e),
            None => Ok(()),
        }
    }
}

fn check_config_cell(c: &ConfigCellPair, super_lock_hash: &[u8], defined: &Vec<u32>) -> (r: Result<(), ErrorCode>)
    ensures
        r == spec_check_config_cell(*c, super_lock_hash@, defined@),
{
    if !bytes_eq(c.lock_hash.as_slice(), super_lock_hash) {
        return Err(ErrorCode::CellMustUseSuperLock);
    }
    let out_id = match get_config_id(c.output_args.as_slice(), defined) {
        Err(e) => {
            return Err(e);
        },
        Ok(id) => id,
    };
    match &c.input_args {
        None => Ok(()),
        Some(a) => match get_config_id(a.as_slice(), defined) {
            Err(e) => Err(e),
            Ok(id) => if id != out_id {
                Err(ErrorCode::InvalidTransactionStructure)
            } else {
                Ok(())
            },
        },
    }
}

/// Checks a transaction that writes ConfigCells. Where ConfigCells are replaced,
/// each output comes with the type arguments of the input at the same position.
pub fn verify_config_cells(
    has_super_lock: bool,
    input_count: usize,
    cells: &Vec<ConfigCellPair>,
    super_lock_hash: &[u8],
    defined: &Vec<u32>,
) -> (r: Result<(), ErrorCode>)
    ensures
        r == spec_verify_config_cells(has_super_lock, input_count, cells@, super_lock_hash@, defined@),
{
    if !has_super_lock {
        return Err(ErrorCode::SuperLockIsRequired);
    }
    if cells.len() < 1 {
        return Err(ErrorCode::InvalidTransactionStructure);
    }
    if input_count > 0 && input_count != cells.len() {
        return Err(ErrorCode::InvalidTransactionStructure);
    }
    let mut i: usize = 0;
    while i < cells.len()
        invariant
            has_super_lock && cells@.len() >= 1 && !(input_count > 0 && input_count != cells@.len()),
            i <= cells@.len(),
            first_config_error(cells@, super_lock_hash@, defined@, i as int) is None,
        decreases cells@.len() - i,
    {
        let c = check_config_cell(&cells[i], super_lock_hash, defined);
        if let Err(e) = c {
            proof {
                lemma_first_config_error_persists(cells@, super_lock_hash@, defined@, i as int + 1, cells@.len() as int);
            }
            return Err(e);
        }
        i = i + 1;
    }
    Ok(())
}

proof fn lemma_first_config_error_persists(
    cells: Seq<ConfigCellPair>,
    super_lock_hash: Seq<u8>,
    defined: Seq<u32>,
    n: int,
    m: int,
)
    requires
        0 <= n <= m,
        first_config_error(cells, super_lock_hash, defined, n) is Some,
    ensures
        first_config_error(cells, super_lock_hash, defined, m) == first_config_error(cells, super_lock_hash, defined, n),
    decreases m - n,
{
    if n < m {
        lemma_first_config_error_persists(cells, super_lock_hash, defined, n, m - 1);
    }
}

/// A type script that a transaction spending BalanceCells must carry, so that its
/// message can be written for signing.
#[derive(Debug, Clone, Copy, PartialEq, Eq, Structural)]
pub enum RequiredTypeScript {
    AccountCellType,
    AccountSaleCellType,
    ReverseRecordCellType,
    OfferCellType,
    SubAccountCellType,
}

/// The inputs or the outputs of a transaction.
#[derive(Debug, Clone, Copy, PartialEq, Eq, Structural)]
pub enum CellSide {
    Inputs,
    Outputs,
}

/// What the BalanceCell type script does in a transaction.
#[derive(Debug, Clone, Copy, PartialEq, Eq)]
pub struct BalanceCellPlan {
    /// The type script that must stand on a side, where BalanceCells are spent by a
    /// known action.
    pub require: Option<(RequiredTypeScript, CellSide)>,
    /// Whether the das-lock cells of the outputs must be checked to carry a type.
    pub check_outputs_have_type: bool,
    /// Whether the EIP712 library must check the signature of an action it knows.
    pub run_eip712_lib: bool,
}

/// The type script that an action spending BalanceCells needs, or `None` for an action
/// that the BalanceCell type script does not know.
pub open spec fn spec_required_type_script(action: Seq<u8>) -> Option<(RequiredTypeScript, CellSide)> {
    if action == "transfer_account".spec_bytes() || action == "edit_manager".spec_bytes() || action
        == "edit_records".spec_bytes() {
        Some((RequiredTypeScript::AccountCellType, CellSide::Inputs))
    } else if action == "start_account_sale".spec_bytes() {
        Some((RequiredTypeScript::AccountSaleCellType, CellSide::Outputs))
    } else if action == "cancel_account_sale".spec_bytes() || action == "buy_account".spec_bytes() || action
        == "edit_account_sale".spec_bytes() {
        Some((RequiredTypeScript::AccountSaleCellType, CellSide::Inputs))
    } else if action == "retract_reverse_record".spec_bytes() {
        Some((RequiredTypeScript::ReverseRecordCellType, CellSide::Inputs))
    } else if action == "make_offer".spec_bytes() || action == "edit_offer".spec_bytes() {
        Some((RequiredTypeScript::OfferCellType, CellSide::Outputs))
    } else if action == "cancel_offer".spec_bytes() || action == "accept_offer".spec_bytes() {
        Some((RequiredTypeScript::OfferCellType, CellSide::Inputs))
    } else if action == "enable_sub_account".spec_bytes() || action == "update_sub_account".spec_bytes() {
        Some((RequiredTypeScript::SubAccountCellType, CellSide::Outputs))
    } else {
        None
    }
}

/// The type script that an action spending BalanceCells needs.
pub fn required_type_script(action: &[u8]) -> (r: Option<(RequiredTypeScript, CellSide)>)
    ensures
        r == spec_required_type_script(action@),
{
    if bytes_eq(action, "transfer_account".as_bytes()) || bytes_eq(action, "edit_manager".as_bytes()) || bytes_eq(
        action,
        "edit_records".as_bytes(),
    ) {
        Some((RequiredTypeScript::AccountCellType, CellSide::Inputs))
    } else if bytes_eq(action, "start_account_sale".as_bytes()) {
        Some((RequiredTypeScript::AccountSaleCellType, CellSide::Outputs))
    } else if bytes_eq(action, "cancel_account_sale".as_bytes()) || bytes_eq(action, "buy_account".as_bytes())
        || bytes_eq(action, "edit_account_sale".as_bytes()) {
        Some((RequiredTypeScript::AccountSaleCellType, CellSide::Inputs))
    } else if bytes_eq(action, "retract_reverse_record".as_bytes()) {
        Some((RequiredTypeScript::ReverseRecordCellType, CellSide::Inputs))
    } else if bytes_eq(action, "make_offer".as_bytes()) || bytes_eq(action, "edit_offer".as_bytes()) {
        Some((RequiredTypeScript::OfferCellType, CellSide::Outputs))
    } else if bytes_eq(action, "cancel_offer".as_bytes()) || bytes_eq(action, "accept_offer".as_bytes()) {
        Some((RequiredTypeScript::OfferCellType, CellSide::Inputs))
    } else if bytes_eq(action, "enable_sub_account".as_bytes()) || bytes_eq(action, "update_sub_account".as_bytes()) {
        Some((RequiredTypeScript::SubAccountCellType, CellSide::Outputs))
    } else {
        None
    }
}

/// What the BalanceCell type script does, given how many BalanceCells the inputs spend,
/// how many das-lock cells the outputs hold, and the action: spent BalanceCells need
/// the type script of their action, or the EIP712 library where the action is unknown
/// to it; new das-lock cells must carry a type.
pub fn plan_balance_cell(input_count: usize, output_count: usize, action: &[u8]) -> (r: BalanceCellPlan)
    ensures
        r.require == (if input_count > 0 {
            spec_required_type_script(action@)
        } else {
            None
        }),
        r.check_outputs_have_type == (output_count > 0),
        r.run_eip712_lib == (input_count > 0 && spec_required_type_script(action@) is None),
{
    let require = if input_count > 0 {
        required_type_script(action)
    } else {
        None
    };
    BalanceCellPlan {
        require,
        check_outputs_have_type: output_count > 0,
        run_eip712_lib: input_count > 0 && require.is_none(),
    }
}

/// WalletCells are created exactly when the wallet maker signs, none is consumed, at
/// least one is created, and every new one uses the always-success lock.
pub proof fn lemma_new_wallets_are_made_by_the_maker(
    has_maker_lock: bool,
    input_count: usize,
    output_lock_hashes: Seq<Seq<u8>>,
    always_success_hash: Seq<u8>,
)
    ensures
        spec_verify_create_wallet(has_maker_lock, input_count, output_lock_hashes, always_success_hash) is Ok
            <==> has_maker_lock && input_count == 0 && output_lock_hashes.len() > 0 && forall|i: int|
            0 <= i < output_lock_hashes.len() ==> output_lock_hashes[i] == always_success_hash,
{
    if has_maker_lock && input_count == 0 && output_lock_hashes.len() > 0 && forall|i: int|
        0 <= i < output_lock_hashes.len() ==> output_lock_hashes[i] == always_success_hash {
        assert(!exists|i: int|
            0 <= i < output_lock_hashes.len() && #[trigger] output_lock_hashes[i] != always_success_hash);
    }
}

/// A withdrawal from a WalletCell is allowed exactly when it spends one WalletCell into
/// one, and the wallet, the OwnerCell and the AccountCell name the same account, whose
/// owner lock locks the OwnerCell.
pub proof fn lemma_only_the_owner_withdraws(
    input_count: usize,
    output_count: usize,
    id_in_wallet: Seq<u8>,
    id_in_ref: Seq<u8>,
    id_in_account: Seq<u8>,
    owner_lock: Seq<u8>,
    ref_cell_lock: Seq<u8>,
)
    ensures
        spec_verify_withdraw(input_count, output_count, id_in_wallet, id_in_ref, id_in_account, owner_lock, ref_cell_lock)
            is Ok <==> input_count == 1 && output_count == 1 && id_in_wallet == id_in_ref && id_in_wallet
            == id_in_account && owner_lock == ref_cell_lock,
{
}

} // verus!
