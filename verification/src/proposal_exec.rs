use vstd::prelude::*;

use crate::bytes::bytes_eq;
use crate::error::ErrorCode;
use crate::types::{AccountStatus, SpecScript, Script, RATE_BASE};

verus! {

/// The shares of the profit of a new account, out of `RATE_BASE`.
pub struct ProfitRates {
    pub inviter: u32,
    pub channel: u32,
    pub proposal_create: u32,
    pub proposal_confirm: u32,
}

/// How the profit of one new account is shared, in shannons.
#[derive(Debug, Clone, Copy, PartialEq, Eq, Structural)]
pub struct ProfitShares {
    pub inviter: u64,
    pub channel: u64,
    pub proposal_create: u64,
    pub proposal_confirm: u64,
    pub das: u64,
}

/// The share of `profit` at `rate` out of `RATE_BASE`, rounded down.
pub open spec fn share_of(profit: u64, rate: u32) -> int {
    profit * rate / (RATE_BASE as int)
}

/// The inviter's share, where there is an inviter.
pub open spec fn inviter_share(profit: u64, rates: ProfitRates, has_inviter: bool) -> int {
    if has_inviter {
        share_of(profit, rates.inviter)
    } else {
        0
    }
}

/// The channel's share, where there is a channel.
pub open spec fn channel_share(profit: u64, rates: ProfitRates, has_channel: bool) -> int {
    if has_channel {
        share_of(profit, rates.channel)
    } else {
        0
    }
}

/// Whether the shares other than that of DAS fit in the profit, so that DAS gets the
/// rest (the contract aborts otherwise).
pub open spec fn shares_fit(profit: u64, rates: ProfitRates, has_inviter: bool, has_channel: bool) -> bool {
    inviter_share(profit, rates, has_inviter) + channel_share(profit, rates, has_channel) + share_of(
        profit,
        rates.proposal_create,
    ) + share_of(profit, rates.proposal_confirm) <= profit
}

/// The shares of the profit of a new account: the inviter and the channel, where the
/// account has them, the creator and the confirmer of the proposal each get their rate
/// of the profit, rounded down, and DAS gets the rest.
pub open spec fn spec_split_profit(profit: u64, rates: ProfitRates, has_inviter: bool, has_channel: bool) -> ProfitShares {
    let inviter = inviter_share(profit, rates, has_inviter);
    let channel = channel_share(profit, rates, has_channel);
    let create = share_of(profit, rates.proposal_create);
    let confirm = share_of(profit, rates.proposal_confirm);
    ProfitShares {
        inviter: inviter as u64,
        channel: channel as u64,
        proposal_create: create as u64,
        proposal_confirm: confirm as u64,
        das: (profit - inviter - channel - create - confirm) as u64,
    }
}

proof fn lemma_share_bounds(profit: u64, rate: u32)
    requires
        profit * rate <= u64::MAX,
    ensures
        0 <= share_of(profit, rate) <= u64::MAX,
{
    assert(0 <= profit * rate) by (nonlinear_arith);
}

/// Shares the profit of a new account between its inviter, its channel, the creator
/// and the confirmer of the proposal, and DAS.
pub fn split_new_account_profit(profit: u64, rates: &ProfitRates, has_inviter: bool, has_channel: bool) -> (r:
    ProfitShares)
    requires
        profit * rates.inviter <= u64::MAX,
        profit * rates.channel <= u64::MAX,
        profit * rates.proposal_create <= u64::MAX,
        profit * rates.proposal_confirm <= u64::MAX,
        shares_fit(profit, *rates, has_inviter, has_channel),
    ensures
        r == spec_split_profit(profit, *rates, has_inviter, has_channel),
{
    proof {
        lemma_share_bounds(profit, rates.inviter);
        lemma_share_bounds(profit, rates.channel);
        lemma_share_bounds(profit, rates.proposal_create);
        lemma_share_bounds(profit, rates.proposal_confirm);
    }
    let inviter: u64 = if has_inviter {
        profit * (rates.inviter as u64) / RATE_BASE
    } else {
        0
    };
    let channel: u64 = if has_channel {
        profit * (rates.channel as u64) / RATE_BASE
    } else {
        0
    };
    let create: u64 = profit * (rates.proposal_create as u64) / RATE_BASE;
    let confirm: u64 = profit * (rates.proposal_confirm as u64) / RATE_BASE;
    let das = profit - inviter - channel - create - confirm;
    ProfitShares { inviter, channel, proposal_create: create, proposal_confirm: confirm, das }
}

/// The shares of the profit of a new account add up to the profit: nothing is lost or
/// made in the split.
pub proof fn lemma_profit_shares_sum(profit: u64, rates: ProfitRates, has_inviter: bool, has_channel: bool)
    requires
        profit * rates.inviter <= u64::MAX,
        profit * rates.channel <= u64::MAX,
        profit * rates.proposal_create <= u64::MAX,
        profit * rates.proposal_confirm <= u64::MAX,
        shares_fit(profit, rates, has_inviter, has_channel),
    ensures
        ({
            let s = spec_split_profit(profit, rates, has_inviter, has_channel);
            s.inviter + s.channel + s.proposal_create + s.proposal_confirm + s.das == profit
        }),
{
    lemma_share_bounds(profit, rates.inviter);
    lemma_share_bounds(profit, rates.channel);
    lemma_share_bounds(profit, rates.proposal_create);
    lemma_share_bounds(profit, rates.proposal_confirm);
}

/// What checking that a proposal waited long enough gives: the current height is at
/// least the height the proposal was created at plus the interval.
pub open spec fn waited_long_enough(height: u64, created_at_height: u64, interval: u8) -> bool {
    height >= created_at_height + interval
}

/// Checks that a proposal has waited long enough to be confirmed.
pub fn verify_confirm_height(height: u64, created_at_height: u64, min_confirm_interval: u8) -> (r: Result<
    (),
    ErrorCode,
>)
    ensures
        r is Ok <==> waited_long_enough(height, created_at_height, min_confirm_interval),
        r matches Err(e) ==> e == ErrorCode::ProposalConfirmNeedWaitLonger,
{
    if (height as u128) >= (created_at_height as u128) + (min_confirm_interval as u128) {
        Ok(())
    } else {
        Err(ErrorCode::ProposalConfirmNeedWaitLonger)
    }
}

/// Checks that a proposal has waited long enough to be recycled.
pub fn verify_recycle_height(height: u64, created_at_height: u64, min_recycle_interval: u8) -> (r: Result<
    (),
    ErrorCode,
>)
    ensures
        r is Ok <==> waited_long_enough(height, created_at_height, min_recycle_interval),
        r matches Err(e) ==> e == ErrorCode::ProposalRecycleNeedWaitLonger,
{
    if (height as u128) >= (created_at_height as u128) + (min_recycle_interval as u128) {
        Ok(())
    } else {
        Err(ErrorCode::ProposalRecycleNeedWaitLonger)
    }
}

/// The sum of a list of capacities.
pub open spec fn capacity_sum(caps: Seq<u64>) -> int
    decreases caps.len(),
{
    if caps.len() == 0 {
        0
    } else {
        capacity_sum(caps.drop_last()) + caps.last()
    }
}

proof fn lemma_capacity_sum_prefix(caps: Seq<u64>, i: int)
    requires
        0 <= i <= caps.len(),
    ensures
        0 <= capacity_sum(caps.take(i)) <= capacity_sum(caps),
    decreases caps.len() - i,
{
    if i < caps.len() {
        lemma_capacity_sum_prefix(caps, i + 1);
        assert(caps.take(i + 1).drop_last() =~= caps.take(i));
    } else {
        assert(caps.take(i) =~= caps);
    }
    lemma_capacity_sum_nonneg(caps.take(i));
}

proof fn lemma_capacity_sum_nonneg(caps: Seq<u64>)
    ensures
        capacity_sum(caps) >= 0,
    decreases caps.len(),
{
    if caps.len() > 0 {
        lemma_capacity_sum_nonneg(caps.drop_last());
    }
}

/// The sum of a list of capacities, where the sum fits in a `u64`.
pub fn sum_capacities(caps: &Vec<u64>) -> (r: u64)
    requires
        capacity_sum(caps@) <= u64::MAX,
    ensures
        r == capacity_sum(caps@),
{
    let mut sum: u64 = 0;
    let mut i: usize = 0;
    while i < caps.len()
        invariant
            i <= caps@.len(),
            capacity_sum(caps@) <= u64::MAX,
            sum == capacity_sum(caps@.take(i as int)),
        decreases caps@.len() - i,
    {
        proof {
            assert(caps@.take(i as int + 1).drop_last() =~= caps@.take(i as int));
            lemma_capacity_sum_prefix(caps@, i as int + 1);
        }
        sum = sum + caps[i];
        i = i + 1;
    }
    assert(caps@.take(caps@.len() as int) =~= caps@);
    sum
}

/// What checking the refund of a ProposalCell gives: at least one output goes to the
/// proposer, and those outputs carry the capacity of the ProposalCell, less at most
/// what the transaction may spend on its fee.
pub open spec fn spec_verify_proposal_refund(
    proposal_capacity: u64,
    refund_capacities: Seq<u64>,
    available_for_fee: u64,
) -> Result<(), ErrorCode> {
    if refund_capacities.len() < 1 {
        Err(ErrorCode::ProposalConfirmRefundError)
    } else if !(proposal_capacity <= capacity_sum(refund_capacities) + available_for_fee) {
        Err(ErrorCode::ProposalConfirmRefundError)
    } else {
        Ok(())
    }
}

/// Checks that the proposer gets the capacity of the ProposalCell back.
/// `refund_capacities` are the capacities of the outputs locked by the proposer lock.
pub fn verify_proposal_refund(
    proposal_capacity: u64,
    refund_capacities: &Vec<u64>,
    available_for_fee: u64,
) -> (r: Result<(), ErrorCode>)
    requires
        capacity_sum(refund_capacities@) + available_for_fee <= u64::MAX,
    ensures
        r == spec_verify_proposal_refund(proposal_capacity, refund_capacities@, available_for_fee),
{
    if refund_capacities.len() < 1 {
        return Err(ErrorCode::ProposalConfirmRefundError);
    }
    proof {
        lemma_capacity_sum_nonneg(refund_capacities@);
    }
    let refund = sum_capacities(refund_capacities);
    if !(proposal_capacity <= refund + available_for_fee) {
        return Err(ErrorCode::ProposalConfirmRefundError);
    }
    Ok(())
}

/// What the cells of an item that already existed show: the type code hashes of the
/// cell in the inputs and in the outputs (`None` without a type), the fields of their
/// data, and what the checks that the cell keeps its capacity and lock, and its
/// witness, gave.
pub struct ExistingItemFacts {
    pub capacity_and_lock_kept: Result<(), ErrorCode>,
    pub witness_kept: Result<(), ErrorCode>,
    pub input_type: Option<Vec<u8>>,
    pub output_type: Option<Vec<u8>>,
    pub input_id: Vec<u8>,
    pub output_id: Vec<u8>,
    pub input_next: Vec<u8>,
    pub output_next: Vec<u8>,
    pub input_account: Vec<u8>,
    pub output_account: Vec<u8>,
    pub input_expired_at: u64,
    pub output_expired_at: u64,
}

/// What checking the type of a related cell gives.
pub open spec fn spec_verify_cell_type(cell_type: Option<Seq<u8>>, expected: Seq<u8>) -> Result<(), ErrorCode> {
    match cell_type {
        None => Err(ErrorCode::ProposalSliceRelatedCellNotFound),
        Some(t) => if t == expected {
            Ok(())
        } else {
            Err(ErrorCode::ProposalCellTypeError)
        },
    }
}

/// Checks that a related cell has the expected type.
pub fn verify_cell_type_id(cell_type: &Option<Vec<u8>>, expected: &[u8]) -> (r: Result<(), ErrorCode>)
    ensures
        r == spec_verify_cell_type(
            match cell_type {
                Some(t) => Some(t@),
                None => None,
            },
            expected@,
        ),
{
    match cell_type {
        None => Err(ErrorCode::ProposalSliceRelatedCellNotFound),
        Some(t) => if bytes_eq(t.as_slice(), expected) {
            Ok(())
        } else {
            Err(ErrorCode::ProposalCellTypeError)
        },
    }
}

/// The code hash of a type, where there is one.
pub open spec fn opt_view(t: Option<Vec<u8>>) -> Option<Seq<u8>> {
    match t {
        Some(v) => Some(v@),
        None => None,
    }
}

/// What checking an AccountCell that a proposal only relinks gives: both cells are
/// AccountCells; the one in the inputs still points where the last item of its slice
/// pointed; both carry the ID of the item; it keeps its capacity and lock; its ID,
/// account and expiry are unchanged; it now points where the item says; and it keeps
/// its witness.
pub open spec fn spec_verify_existing_item(
    f: ExistingItemFacts,
    account_type_id: Seq<u8>,
    original_next: Seq<u8>,
    item_id: Seq<u8>,
    item_next: Seq<u8>,
) -> Result<(), ErrorCode> {
    if spec_verify_cell_type(opt_view(f.input_type), account_type_id) is Err {
        spec_verify_cell_type(opt_view(f.input_type), account_type_id)
    } else if spec_verify_cell_type(opt_view(f.output_type), account_type_id) is Err {
        spec_verify_cell_type(opt_view(f.output_type), account_type_id)
    } else if f.input_next@ != original_next {
        Err(ErrorCode::ProposalCellNextError)
    } else if f.input_id@ != item_id || f.output_id@ != item_id {
        Err(ErrorCode::ProposalCellAccountIdError)
    } else if f.capacity_and_lock_kept is Err {
        f.capacity_and_lock_kept
    } else if f.output_id@ != f.input_id@ || f.output_account@ != f.input_account@ || f.output_expired_at
        != f.input_expired_at {
        Err(ErrorCode::ProposalFieldCanNotBeModified)
    } else if f.output_next@ != item_next {
        Err(ErrorCode::ProposalConfirmNewAccountCellDataError)
    } else {
        f.witness_kept
    }
}

/// Checks an AccountCell that a confirmed proposal relinks.
pub fn verify_existing_item(
    f: &ExistingItemFacts,
    account_type_id: &[u8],
    original_next: &[u8],
    item_id: &[u8],
    item_next: &[u8],
) -> (r: Result<(), ErrorCode>)
    ensures
        r == spec_verify_existing_item(*f, account_type_id@, original_next@, item_id@, item_next@),
{
    let checked = verify_cell_type_id(&f.input_type, account_type_id);
    if checked.is_err() {
        return checked;
    }
    let checked = verify_cell_type_id(&f.output_type, account_type_id);
    if checked.is_err() {
        return checked;
    }
    if !bytes_eq(f.input_next.as_slice(), original_next) {
        return Err(ErrorCode::ProposalCellNextError);
    }
    if !bytes_eq(f.input_id.as_slice(), item_id) || !bytes_eq(f.output_id.as_slice(), item_id) {
        return Err(ErrorCode::ProposalCellAccountIdError);
    }
    if f.capacity_and_lock_kept.is_err() {
        return f.capacity_and_lock_kept;
    }
    if !bytes_eq(f.output_id.as_slice(), f.input_id.as_slice()) || !bytes_eq(
        f.output_account.as_slice(),
        f.input_account.as_slice(),
    ) || f.output_expired_at != f.input_expired_at {
        return Err(ErrorCode::ProposalFieldCanNotBeModified);
    }
    if !bytes_eq(f.output_next.as_slice(), item_next) {
        return Err(ErrorCode::ProposalConfirmNewAccountCellDataError);
    }
    f.witness_kept
}

/// The suffix of every account name.
pub open spec fn account_suffix() -> Seq<u8> {
    seq![46u8, 98u8, 105u8, 116u8]
}

/// What the cells of an item that becomes a new account show: the PreAccountCell in
/// the inputs and the new AccountCell in the outputs, their data and witnesses, and
/// the values that the storage and price rules compute for them.
pub struct NewItemFacts {
    pub input_type: Option<Vec<u8>>,
    pub output_type: Option<Vec<u8>>,
    /// The account ID in the data of the PreAccountCell.
    pub pre_account_id: Vec<u8>,
    /// The account ID in the data of the new AccountCell.
    pub output_id: Vec<u8>,
    /// Whether the witness of the new AccountCell has the latest layout.
    pub output_is_latest: bool,
    /// The capacity of the PreAccountCell.
    pub total_capacity: u64,
    /// The capacity that the new AccountCell must hold for storage.
    pub storage_capacity: u64,
    pub output_capacity: u64,
    pub output_lock: Script,
    /// The owner lock arguments in the witness of the PreAccountCell.
    pub owner_lock_args: Vec<u8>,
    /// The first 20 bytes of the data of the PreAccountCell, read as an account ID.
    pub input_data_id: Vec<u8>,
    /// The first 20 bytes of the hash of the account name in the new AccountCell.
    pub account_hash_id: Vec<u8>,
    pub output_next: Vec<u8>,
    /// How long the profit buys at the price, quote and discount of the PreAccountCell.
    pub duration: u64,
    pub output_expired_at: u64,
    pub witness_id: Vec<u8>,
    /// The account of the witness, without its suffix.
    pub witness_account: Vec<u8>,
    pub output_account: Vec<u8>,
    pub registered_at: u64,
    pub last_transfer_account_at: u64,
    pub last_edit_manager_at: u64,
    pub last_edit_records_at: u64,
    pub enable_sub_account: u8,
    pub renew_sub_account_price: u64,
    pub pre_version: u32,
    /// The initial records of the PreAccountCell, where its version carries them in a
    /// layout that is read.
    pub initial_records: Option<Vec<u8>>,
    /// The records of the new AccountCell, serialized, and how many there are.
    pub records: Vec<u8>,
    pub records_count: usize,
    /// The `checked` flag of the initial cross chain setting, where the version of the
    /// PreAccountCell carries it in a layout that is read.
    pub initial_cross_chain_checked: Option<u8>,
    pub status: AccountStatus,
}

/// The lock that a new AccountCell must have: das-lock with the owner lock arguments.
pub open spec fn expected_new_lock(das_lock: SpecScript, owner_lock_args: Seq<u8>) -> SpecScript {
    SpecScript { code_hash: das_lock.code_hash, hash_type: das_lock.hash_type, args: owner_lock_args }
}

/// What checking the records of a new AccountCell gives: PreAccountCells of version 2
/// or later carry initial records that the AccountCell takes over; older ones leave
/// the AccountCell without records.
pub open spec fn spec_verify_initial_records(f: NewItemFacts) -> Result<(), ErrorCode> {
    if f.pre_version >= 2 {
        match f.initial_records {
            None => Err(ErrorCode::HardCodedError),
            Some(r) => if r@ == f.records@ {
                Ok(())
            } else {
                Err(ErrorCode::ProposalConfirmInitialRecordsMismatch)
            },
        }
    } else if f.records_count != 0 {
        Err(ErrorCode::ProposalConfirmInitialRecordsMismatch)
    } else {
        Ok(())
    }
}

/// What checking the status of a new AccountCell gives: PreAccountCells of version 3
/// or later may ask for the account to start locked for cross chain; otherwise it
/// starts Normal.
pub open spec fn spec_verify_initial_status(f: NewItemFacts) -> Result<(), ErrorCode> {
    if f.pre_version >= 3 {
        match f.initial_cross_chain_checked {
            None => Err(ErrorCode::HardCodedError),
            Some(c) => if c == 1 {
                if f.status == AccountStatus::LockedForCrossChain {
                    Ok(())
                } else {
                    Err(ErrorCode::ProposalConfirmNewAccountWitnessError)
                }
            } else if f.status == AccountStatus::Normal {
                Ok(())
            } else {
                Err(ErrorCode::ProposalConfirmNewAccountWitnessError)
            },
        }
    } else if f.status == AccountStatus::Normal {
        Ok(())
    } else {
        Err(ErrorCode::ProposalConfirmNewAccountWitnessError)
    }
}

/// What checking a PreAccountCell that a confirmed proposal turns into an AccountCell
/// gives; the result is the profit that the PreAccountCell carries beyond storage.
pub open spec fn spec_verify_new_item(
    f: NewItemFacts,
    account_type_id: Seq<u8>,
    pre_account_type_id: Seq<u8>,
    item_id: Seq<u8>,
    item_next: Seq<u8>,
    das_lock: SpecScript,
    timestamp: u64,
) -> Result<u64, ErrorCode> {
    let witness_error = ErrorCode::ProposalConfirmNewAccountWitnessError;
    let data_error = ErrorCode::ProposalConfirmNewAccountCellDataError;
    if spec_verify_cell_type(opt_view(f.input_type), pre_account_type_id) is Err {
        Err(spec_verify_cell_type(opt_view(f.input_type), pre_account_type_id)->Err_0)
    } else if spec_verify_cell_type(opt_view(f.output_type), account_type_id) is Err {
        Err(spec_verify_cell_type(opt_view(f.output_type), account_type_id)->Err_0)
    } else if f.pre_account_id@ != item_id || f.output_id@ != item_id {
        Err(ErrorCode::ProposalCellAccountIdError)
    } else if !f.output_is_latest {
        Err(ErrorCode::InvalidTransactionStructure)
    } else if f.output_capacity != f.storage_capacity {
        Err(ErrorCode::ProposalConfirmNewAccountCellCapacityError)
    } else if f.output_lock@ != expected_new_lock(das_lock, f.owner_lock_args@) {
        Err(ErrorCode::ProposalConfirmAccountLockArgsIsInvalid)
    } else if f.output_id@ != f.input_data_id@ || f.account_hash_id@ != f.output_id@ || f.output_next@
        != item_next || f.output_expired_at != timestamp + f.duration {
        Err(data_error)
    } else if f.witness_id@ != f.output_id@ || f.witness_account@ + account_suffix() != f.output_account@
        || f.registered_at != timestamp || !(f.last_transfer_account_at == 0 && f.last_edit_manager_at == 0
        && f.last_edit_records_at == 0) || f.enable_sub_account != 0 || f.renew_sub_account_price != 0 {
        Err(witness_error)
    } else if spec_verify_initial_records(f) is Err {
        Err(spec_verify_initial_records(f)->Err_0)
    } else if spec_verify_initial_status(f) is Err {
        Err(spec_verify_initial_status(f)->Err_0)
    } else {
        Ok((f.total_capacity - f.storage_capacity) as u64)
    }
}

fn verify_initial_records(f: &NewItemFacts) -> (r: Result<(), ErrorCode>)
    ensures
        r == spec_verify_initial_records(*f),
{
    if f.pre_version >= 2 {
        match &f.initial_records {
            None => Err(ErrorCode::HardCodedError),
            Some(r) => if bytes_eq(r.as_slice(), f.records.as_slice()) {
                Ok(())
            } else {
                Err(ErrorCode::ProposalConfirmInitialRecordsMismatch)
            },
        }
    } else if f.records_count != 0 {
        Err(ErrorCode::ProposalConfirmInitialRecordsMismatch)
    } else {
        Ok(())
    }
}

fn verify_initial_status(f: &NewItemFacts) -> (r: Result<(), ErrorCode>)
    ensures
        r == spec_verify_initial_status(*f),
{
    if f.pre_version >= 3 {
        match f.initial_cross_chain_checked {
            None => Err(ErrorCode::HardCodedError),
            Some(c) => if c == 1 {
                if f.status == AccountStatus::LockedForCrossChain {
                    Ok(())
                } else {
                    Err(ErrorCode::ProposalConfirmNewAccountWitnessError)
                }
            } else if f.status == AccountStatus::Normal {
                Ok(())
            } else {
                Err(ErrorCode::ProposalConfirmNewAccountWitnessError)
            },
        }
    } else if f.status == AccountStatus::Normal {
        Ok(())
    } else {
        Err(ErrorCode::ProposalConfirmNewAccountWitnessError)
    }
}

fn ends_with_suffix(account: &[u8], readable: &[u8]) -> (r: bool)
    ensures
        r == (readable@ + account_suffix() == account@),
{
    let n = readable.len();
    if account.len() < 4 || account.len() - 4 != n {
        assert((readable@ + account_suffix()).len() != account@.len());
        return false;
    }
    let suffix: [u8; 4] = [46, 98, 105, 116];
    let head = vstd::slice::slice_subrange(account, 0, n);
    let tail = vstd::slice::slice_subrange(account, n, n + 4);
    let r = bytes_eq(head, readable) && bytes_eq(tail, &suffix);
    proof {
        assert(suffix@ =~= account_suffix());
        if r {
            assert(readable@ + account_suffix() =~= account@);
        } else if readable@ + account_suffix() == account@ {
            assert(head@ =~= readable@);
            assert(tail@ =~= account_suffix());
        }
    }
    r
}

/// Whether the check of a new item gets as far as computing its profit: both cells
/// have the right types and IDs and the new AccountCell has the latest witness.
pub open spec fn reaches_profit(
    f: NewItemFacts,
    account_type_id: Seq<u8>,
    pre_account_type_id: Seq<u8>,
    item_id: Seq<u8>,
) -> bool {
    &&& spec_verify_cell_type(opt_view(f.input_type), pre_account_type_id) is Ok
    &&& spec_verify_cell_type(opt_view(f.output_type), account_type_id) is Ok
    &&& f.pre_account_id@ == item_id && f.output_id@ == item_id
    &&& f.output_is_latest
}

/// Checks a PreAccountCell that a confirmed proposal turns into an AccountCell, and
/// gives the profit it carries beyond storage. A PreAccountCell with less capacity
/// than the storage of the new AccountCell makes the contract abort once the cells are
/// known to be the right ones, so that case is left out.
pub fn verify_new_item(
    f: &NewItemFacts,
    account_type_id: &[u8],
    pre_account_type_id: &[u8],
    item_id: &[u8],
    item_next: &[u8],
    das_lock: &Script,
    timestamp: u64,
) -> (r: Result<u64, ErrorCode>)
    requires
        reaches_profit(*f, account_type_id@, pre_account_type_id@, item_id@) ==> f.total_capacity
            >= f.storage_capacity,
    ensures
        r == spec_verify_new_item(
            *f,
            account_type_id@,
            pre_account_type_id@,
            item_id@,
            item_next@,
            das_lock@,
            timestamp,
        ),
{
    let checked = verify_cell_type_id(&f.input_type, pre_account_type_id);
    if let Err(e) = checked {
        return Err(e);
    }
    let checked = verify_cell_type_id(&f.output_type, account_type_id);
    if let Err(e) = checked {
        return Err(e);
    }
    if !bytes_eq(f.pre_account_id.as_slice(), item_id) || !bytes_eq(f.output_id.as_slice(), item_id) {
        return Err(ErrorCode::ProposalCellAccountIdError);
    }
    if !f.output_is_latest {
        return Err(ErrorCode::InvalidTransactionStructure);
    }
    let profit = f.total_capacity - f.storage_capacity;
    if f.output_capacity != f.storage_capacity {
        return Err(ErrorCode::ProposalConfirmNewAccountCellCapacityError);
    }
    let lock_ok = bytes_eq(f.output_lock.code_hash.as_slice(), das_lock.code_hash.as_slice())
        && f.output_lock.hash_type == das_lock.hash_type && bytes_eq(
        f.output_lock.args.as_slice(),
        f.owner_lock_args.as_slice(),
    );
    if !lock_ok {
        return Err(ErrorCode::ProposalConfirmAccountLockArgsIsInvalid);
    }
    if !bytes_eq(f.output_id.as_slice(), f.input_data_id.as_slice()) || !bytes_eq(
        f.account_hash_id.as_slice(),
        f.output_id.as_slice(),
    ) || !bytes_eq(f.output_next.as_slice(), item_next) || f.output_expired_at as u128 != timestamp as u128
        + f.duration as u128 {
        return Err(ErrorCode::ProposalConfirmNewAccountCellDataError);
    }
    if !bytes_eq(f.witness_id.as_slice(), f.output_id.as_slice()) || !ends_with_suffix(
        f.output_account.as_slice(),
        f.witness_account.as_slice(),
    ) || f.registered_at != timestamp || !(f.last_transfer_account_at == 0 && f.last_edit_manager_at == 0
        && f.last_edit_records_at == 0) || f.enable_sub_account != 0 || f.renew_sub_account_price != 0 {
        return Err(ErrorCode::ProposalConfirmNewAccountWitnessError);
    }
    let checked = verify_initial_records(f);
    if let Err(e) = checked {
        return Err(e);
    }
    let checked = verify_initial_status(f);
    if let Err(e) = checked {
        return Err(e);
    }
    Ok(profit)
}

} // verus!
