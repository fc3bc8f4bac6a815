use vstd::prelude::*;
use vstd::string::StringSliceAdditionalSpecFns;

use crate::error::{AccountCellErrorCode, DasError, ErrorCode};
use crate::profit_map::ProfitMap;
use crate::proposal_confirm::{add_entries, add_owed, owed_to, owed_view, owed_locks, Owed};

verus! {

/// The message that asks the owner to sign a transfer of an account.
pub open spec fn transfer_account_message(account: Seq<u8>, to_address: Seq<u8>) -> Seq<u8> {
    "TRANSFER THE ACCOUNT ".spec_bytes() + account + " TO ".spec_bytes() + to_address
}

fn append(out: &mut Vec<u8>, s: &[u8])
    ensures
        final(out)@ == old(out)@ + s@,
{
    let mut i: usize = 0;
    let ghost start = out@;
    while i < s.len()
        invariant
            i <= s@.len(),
            out@ == start + s@.take(i as int),
        decreases s@.len() - i,
    {
        out.push(s[i]);
        i = i + 1;
        assert(out@ =~= start + s@.take(i as int));
    }
    assert(s@.take(s@.len() as int) =~= s@);
}

/// The message that asks the owner to sign a transfer of an account.
pub fn transfer_account_to_semantic(account: &[u8], to_address: &[u8]) -> (r: Vec<u8>)
    ensures
        r@ == transfer_account_message(account@, to_address@),
{
    let mut r: Vec<u8> = Vec::new();
    append(&mut r, "TRANSFER THE ACCOUNT ".as_bytes());
    append(&mut r, account);
    append(&mut r, " TO ".as_bytes());
    append(&mut r, to_address);
    assert(r@ =~= transfer_account_message(account@, to_address@));
    r
}

/// The message that asks to sign the manager of an account.
pub open spec fn edit_manager_message(account: Seq<u8>) -> Seq<u8> {
    "EDIT MANAGER OF ACCOUNT ".spec_bytes() + account
}

/// The message that asks to sign the manager of an account.
pub fn edit_manager_to_semantic(account: &[u8]) -> (r: Vec<u8>)
    ensures
        r@ == edit_manager_message(account@),
{
    let mut r: Vec<u8> = Vec::new();
    append(&mut r, "EDIT MANAGER OF ACCOUNT ".as_bytes());
    append(&mut r, account);
    assert(r@ =~= edit_manager_message(account@));
    r
}

/// The message that asks to sign the records of an account.
pub open spec fn edit_records_message(account: Seq<u8>) -> Seq<u8> {
    "EDIT RECORDS OF ACCOUNT ".spec_bytes() + account
}

/// The message that asks to sign the records of an account.
pub fn edit_records_to_semantic(account: &[u8]) -> (r: Vec<u8>)
    ensures
        r@ == edit_records_message(account@),
{
    let mut r: Vec<u8> = Vec::new();
    append(&mut r, "EDIT RECORDS OF ACCOUNT ".as_bytes());
    append(&mut r, account);
    assert(r@ =~= edit_records_message(account@));
    r
}

/// The message that asks to sign putting an account on sale.
pub open spec fn start_account_sale_message(account: Seq<u8>, price: Seq<u8>) -> Seq<u8> {
    "SELL ".spec_bytes() + account + " FOR ".spec_bytes() + price
}

/// The message that asks to sign putting an account on sale.
pub fn start_account_sale_to_semantic(account: &[u8], price: &[u8]) -> (r: Vec<u8>)
    ensures
        r@ == start_account_sale_message(account@, price@),
{
    let mut r: Vec<u8> = Vec::new();
    append(&mut r, "SELL ".as_bytes());
    append(&mut r, account);
    append(&mut r, " FOR ".as_bytes());
    append(&mut r, price);
    assert(r@ =~= start_account_sale_message(account@, price@));
    r
}

/// The message that asks to sign an edit of a sale.
pub open spec fn edit_account_sale_message(price: Seq<u8>) -> Seq<u8> {
    "EDIT SALE INFO, CURRENT PRICE IS ".spec_bytes() + price
}

/// The message that asks to sign an edit of a sale.
pub fn edit_account_sale_to_semantic(price: &[u8]) -> (r: Vec<u8>)
    ensures
        r@ == edit_account_sale_message(price@),
{
    let mut r: Vec<u8> = Vec::new();
    append(&mut r, "EDIT SALE INFO, CURRENT PRICE IS ".as_bytes());
    append(&mut r, price);
    assert(r@ =~= edit_account_sale_message(price@));
    r
}

/// The message that asks to sign cancelling a sale.
pub open spec fn cancel_account_sale_message(account: Seq<u8>) -> Seq<u8> {
    "CANCEL SALE OF ".spec_bytes() + account
}

/// The message that asks to sign cancelling a sale.
pub fn cancel_account_sale_to_semantic(account: &[u8]) -> (r: Vec<u8>)
    ensures
        r@ == cancel_account_sale_message(account@),
{
    let mut r: Vec<u8> = Vec::new();
    append(&mut r, "CANCEL SALE OF ".as_bytes());
    append(&mut r, account);
    assert(r@ =~= cancel_account_sale_message(account@));
    r
}

/// The message that asks to sign buying an account.
pub open spec fn buy_account_message(account: Seq<u8>, price: Seq<u8>) -> Seq<u8> {
    "BUY ".spec_bytes() + account + " WITH ".spec_bytes() + price
}

/// The message that asks to sign buying an account.
pub fn buy_account_to_semantic(account: &[u8], price: &[u8]) -> (r: Vec<u8>)
    ensures
        r@ == buy_account_message(account@, price@),
{
    let mut r: Vec<u8> = Vec::new();
    append(&mut r, "BUY ".as_bytes());
    append(&mut r, account);
    append(&mut r, " WITH ".as_bytes());
    append(&mut r, price);
    assert(r@ =~= buy_account_message(account@, price@));
    r
}

/// The message that asks to sign making an offer.
pub open spec fn make_offer_message(account: Seq<u8>, amount: Seq<u8>) -> Seq<u8> {
    "MAKE AN OFFER ON ".spec_bytes() + account + " WITH ".spec_bytes() + amount
}

/// The message that asks to sign making an offer.
pub fn make_offer_to_semantic(account: &[u8], amount: &[u8]) -> (r: Vec<u8>)
    ensures
        r@ == make_offer_message(account@, amount@),
{
    let mut r: Vec<u8> = Vec::new();
    append(&mut r, "MAKE AN OFFER ON ".as_bytes());
    append(&mut r, account);
    append(&mut r, " WITH ".as_bytes());
    append(&mut r, amount);
    assert(r@ =~= make_offer_message(account@, amount@));
    r
}

/// The message that asks to sign changing an offer.
pub open spec fn edit_offer_message(account: Seq<u8>, old_amount: Seq<u8>, new_amount: Seq<u8>) -> Seq<u8> {
    "CHANGE THE OFFER ON ".spec_bytes() + account + " FROM ".spec_bytes() + old_amount + " TO ".spec_bytes() + new_amount
}

/// The message that asks to sign changing an offer.
pub fn edit_offer_to_semantic(account: &[u8], old_amount: &[u8], new_amount: &[u8]) -> (r: Vec<u8>)
    ensures
        r@ == edit_offer_message(account@, old_amount@, new_amount@),
{
    let mut r: Vec<u8> = Vec::new();
    append(&mut r, "CHANGE THE OFFER ON ".as_bytes());
    append(&mut r, account);
    append(&mut r, " FROM ".as_bytes());
    append(&mut r, old_amount);
    append(&mut r, " TO ".as_bytes());
    append(&mut r, new_amount);
    assert(r@ =~= edit_offer_message(account@, old_amount@, new_amount@));
    r
}

/// The message that asks to sign accepting an offer.
pub open spec fn accept_offer_message(account: Seq<u8>, amount: Seq<u8>) -> Seq<u8> {
    "ACCEPT THE OFFER ON ".spec_bytes() + account + " WITH ".spec_bytes() + amount
}

/// The message that asks to sign accepting an offer.
pub fn accept_offer_to_semantic(account: &[u8], amount: &[u8]) -> (r: Vec<u8>)
    ensures
        r@ == accept_offer_message(account@, amount@),
{
    let mut r: Vec<u8> = Vec::new();
    append(&mut r, "ACCEPT THE OFFER ON ".as_bytes());
    append(&mut r, account);
    append(&mut r, " WITH ".as_bytes());
    append(&mut r, amount);
    assert(r@ =~= accept_offer_message(account@, amount@));
    r
}

/// The message that asks to sign retracting reverse records.
pub open spec fn retract_reverse_record_message(address: Seq<u8>) -> Seq<u8> {
    "RETRACT REVERSE RECORDS ON ".spec_bytes() + address
}

/// The message that asks to sign retracting reverse records.
pub fn retract_reverse_record_to_semantic(address: &[u8]) -> (r: Vec<u8>)
    ensures
        r@ == retract_reverse_record_message(address@),
{
    let mut r: Vec<u8> = Vec::new();
    append(&mut r, "RETRACT REVERSE RECORDS ON ".as_bytes());
    append(&mut r, address);
    assert(r@ =~= retract_reverse_record_message(address@));
    r
}

/// The message that asks to sign locking an account for cross chain.
pub open spec fn lock_account_for_cross_chain_message(account: Seq<u8>) -> Seq<u8> {
    "LOCK ".spec_bytes() + account + " FOR CROSS CHAIN".spec_bytes()
}

/// The message that asks to sign locking an account for cross chain.
pub fn lock_account_for_cross_chain_to_semantic(account: &[u8]) -> (r: Vec<u8>)
    ensures
        r@ == lock_account_for_cross_chain_message(account@),
{
    let mut r: Vec<u8> = Vec::new();
    append(&mut r, "LOCK ".as_bytes());
    append(&mut r, account);
    append(&mut r, " FOR CROSS CHAIN".as_bytes());
    assert(r@ =~= lock_account_for_cross_chain_message(account@));
    r
}

/// The message that asks to sign a plain transfer.
pub open spec fn transfer_message(inputs: Seq<u8>, outputs: Seq<u8>) -> Seq<u8> {
    "TRANSFER FROM ".spec_bytes() + inputs + " TO ".spec_bytes() + outputs
}

/// The message that asks to sign a plain transfer.
pub fn transfer_to_semantic(inputs: &[u8], outputs: &[u8]) -> (r: Vec<u8>)
    ensures
        r@ == transfer_message(inputs@, outputs@),
{
    let mut r: Vec<u8> = Vec::new();
    append(&mut r, "TRANSFER FROM ".as_bytes());
    append(&mut r, inputs);
    append(&mut r, " TO ".as_bytes());
    append(&mut r, outputs);
    assert(r@ =~= transfer_message(inputs@, outputs@));
    r
}

/// The decimal digits of a number, most significant first.
pub open spec fn dec_string(n: u64) -> Seq<u8>
    decreases n,
{
    if n < 10 {
        seq![(48 + n) as u8]
    } else {
        dec_string(n / 10).push((48 + n % 10) as u8)
    }
}

/// The decimal digits of a number.
pub fn to_dec_str(n: u64) -> (r: Vec<u8>)
    ensures
        r@ == dec_string(n),
    decreases n,
{
    if n < 10 {
        let mut r: Vec<u8> = Vec::new();
        r.push(48 + n as u8);
        assert(r@ =~= dec_string(n));
        r
    } else {
        let mut r = to_dec_str(n / 10);
        r.push(48 + (n % 10) as u8);
        r
    }
}

/// The message that asks to sign cancelling offers.
pub open spec fn cancel_offer_message(count: u64) -> Seq<u8> {
    "CANCEL ".spec_bytes() + dec_string(count) + " OFFER(S)".spec_bytes()
}

/// The message that asks to sign cancelling offers.
pub fn cancel_offer_to_semantic(count: u64) -> (r: Vec<u8>)
    ensures
        r@ == cancel_offer_message(count),
{
    let mut r: Vec<u8> = Vec::new();
    append(&mut r, "CANCEL ".as_bytes());
    let d = to_dec_str(count);
    append(&mut r, d.as_slice());
    append(&mut r, " OFFER(S)".as_bytes());
    assert(r@ =~= cancel_offer_message(count));
    r
}

/// The message that asks the owner to approve a transfer.
pub open spec fn create_approval_message(account: Seq<u8>, to_address: Seq<u8>, sealed_until: u64) -> Seq<u8> {
    "APPROVE TRANSFER ".spec_bytes() + account + " TO ".spec_bytes() + to_address + " AFTER ".spec_bytes()
        + dec_string(sealed_until)
}

/// The message that asks the owner to delay a transfer approval.
pub open spec fn delay_approval_message(account: Seq<u8>, sealed_until: u64) -> Seq<u8> {
    "DELAY THE TRANSFER APPROVAL OF ".spec_bytes() + account + " TO ".spec_bytes() + dec_string(sealed_until)
}

/// What an approval in the witness of an AccountCell in the outputs says, where the
/// witness is of the latest version and its parameters decode.
pub struct ApprovalInfo {
    pub is_latest: bool,
    pub action: Vec<u8>,
    pub params_decode: bool,
    pub to_address: Vec<u8>,
    pub sealed_until: u64,
}

/// What reading an approval for a message gives: the witness is of the latest
/// version, the action is `transfer`, and its parameters decode.
pub open spec fn spec_check_approval_info(info: ApprovalInfo) -> Result<(), DasError> {
    if !info.is_latest {
        Err(DasError::AccountCell(AccountCellErrorCode::WitnessParsingError))
    } else if info.action@ != crate::account_cell::transfer_action_name() {
        Err(DasError::AccountCell(AccountCellErrorCode::ApprovalActionUndefined))
    } else if !info.params_decode {
        Err(DasError::AccountCell(AccountCellErrorCode::WitnessParsingError))
    } else {
        Ok(())
    }
}

fn check_approval_info(info: &ApprovalInfo) -> (r: Result<(), DasError>)
    ensures
        r == spec_check_approval_info(*info),
{
    if !info.is_latest {
        return Err(DasError::AccountCell(AccountCellErrorCode::WitnessParsingError));
    }
    let name: [u8; 8] = [116, 114, 97, 110, 115, 102, 101, 114];
    assert(name@ =~= crate::account_cell::transfer_action_name());
    if !crate::bytes::bytes_eq(info.action.as_slice(), &name) {
        return Err(DasError::AccountCell(AccountCellErrorCode::ApprovalActionUndefined));
    }
    if !info.params_decode {
        return Err(DasError::AccountCell(AccountCellErrorCode::WitnessParsingError));
    }
    Ok(())
}

/// The message that asks the owner to approve a transfer of an account.
pub fn create_approval_to_semantic(account: &[u8], info: &ApprovalInfo) -> (r: Result<Vec<u8>, DasError>)
    ensures
        spec_check_approval_info(*info) is Err ==> r == Err::<Vec<u8>, DasError>(spec_check_approval_info(*info)->Err_0),
        r matches Ok(m) ==> spec_check_approval_info(*info) is Ok && m@ == create_approval_message(
            account@,
            info.to_address@,
            info.sealed_until,
        ),
        spec_check_approval_info(*info) is Ok ==> r is Ok,
{
    if let Err(e) = check_approval_info(info) {
        return Err(e);
    }
    let mut r: Vec<u8> = Vec::new();
    append(&mut r, "APPROVE TRANSFER ".as_bytes());
    append(&mut r, account);
    append(&mut r, " TO ".as_bytes());
    append(&mut r, info.to_address.as_slice());
    append(&mut r, " AFTER ".as_bytes());
    let d = to_dec_str(info.sealed_until);
    append(&mut r, d.as_slice());
    assert(r@ =~= create_approval_message(account@, info.to_address@, info.sealed_until));
    Ok(r)
}

/// The message that asks the owner to delay a transfer approval of an account.
pub fn delay_approval_to_semantic(account: &[u8], info: &ApprovalInfo) -> (r: Result<Vec<u8>, DasError>)
    ensures
        spec_check_approval_info(*info) is Err ==> r == Err::<Vec<u8>, DasError>(spec_check_approval_info(*info)->Err_0),
        r matches Ok(m) ==> spec_check_approval_info(*info) is Ok && m@ == delay_approval_message(
            account@,
            info.sealed_until,
        ),
        spec_check_approval_info(*info) is Ok ==> r is Ok,
{
    if let Err(e) = check_approval_info(info) {
        return Err(e);
    }
    let mut r: Vec<u8> = Vec::new();
    append(&mut r, "DELAY THE TRANSFER APPROVAL OF ".as_bytes());
    append(&mut r, account);
    append(&mut r, " TO ".as_bytes());
    let d = to_dec_str(info.sealed_until);
    append(&mut r, d.as_slice());
    assert(r@ =~= delay_approval_message(account@, info.sealed_until));
    Ok(r)
}

/// One address of a plain transfer with the capacity it holds, already written out.
pub struct AddressCapacity {
    pub address: Vec<u8>,
    pub capacity: Vec<u8>,
}

/// The addresses of one side of a plain transfer with their capacities, as
/// `address(capacity)`, separated by `, `.
pub open spec fn capacity_list(items: Seq<AddressCapacity>) -> Seq<u8>
    decreases items.len(),
{
    if items.len() == 0 {
        Seq::empty()
    } else if items.len() == 1 {
        items[0].address@ + "(".spec_bytes() + items[0].capacity@ + ")".spec_bytes()
    } else {
        capacity_list(items.drop_last()) + ", ".spec_bytes() + items.last().address@ + "(".spec_bytes()
            + items.last().capacity@ + ")".spec_bytes()
    }
}

/// Sums the capacities of the cells of one side of a plain transfer by address, the
/// addresses in the order in which they first appear. Each cell is given as the amount
/// it holds for its address.
pub fn sum_cells(cells: &Vec<Owed>) -> (r: ProfitMap)
    requires
        forall|k: Seq<u8>| owed_to(owed_view(cells@), k) <= u64::MAX,
    ensures
        r.wf(),
        r.entries() == add_entries(Seq::empty(), owed_view(cells@)),
        r.spec_map().dom() == owed_locks(owed_view(cells@)),
        forall|k: Seq<u8>| #[trigger] r.spec_map().contains_key(k) ==> r.spec_map()[k] == owed_to(owed_view(cells@), k),
{
    let mut map = ProfitMap::new();
    add_owed(&mut map, cells);
    assert(map.spec_map().dom() =~= owed_locks(owed_view(cells@)));
    map
}

/// Writes out the addresses of one side of a plain transfer with their capacities.
pub fn join_capacities(items: &Vec<AddressCapacity>) -> (r: Vec<u8>)
    ensures
        r@ == capacity_list(items@),
{
    let mut r: Vec<u8> = Vec::new();
    let mut i: usize = 0;
    assert(items@.take(0) =~= Seq::<AddressCapacity>::empty());
    while i < items.len()
        invariant
            i <= items@.len(),
            r@ == capacity_list(items@.take(i as int)),
        decreases items@.len() - i,
    {
        let ghost before = r@;
        if i > 0 {
            append(&mut r, ", ".as_bytes());
        }
        append(&mut r, items[i].address.as_slice());
        append(&mut r, "(".as_bytes());
        append(&mut r, items[i].capacity.as_slice());
        append(&mut r, ")".as_bytes());
        proof {
            let t = items@.take(i as int + 1);
            assert(t.drop_last() =~= items@.take(i as int));
            assert(t.last() == items@[i as int]);
            if i == 0 {
                assert(t.len() == 1);
                assert(before =~= Seq::<u8>::empty());
            }
            assert(r@ =~= capacity_list(t));
        }
        i = i + 1;
    }
    assert(items@.take(items@.len() as int) =~= items@);
    r
}

/// The actions that a message is made for.
#[derive(Debug, Clone, Copy, PartialEq, Eq, Structural)]
pub enum SemanticAction {
    TransferAccount,
    EditManager,
    EditRecords,
    StartAccountSale,
    CancelAccountSale,
    BuyAccount,
    EditAccountSale,
    MakeOffer,
    EditOffer,
    CancelOffer,
    AcceptOffer,
    RetractReverseRecord,
    LockAccountForCrossChain,
    CreateApproval,
    DelayApproval,
    Transfer,
}

/// The action whose message a transaction signs: each named action has its own, and
/// any other action is signed as a plain transfer.
pub open spec fn spec_semantic_action(action: Seq<u8>) -> SemanticAction {
    if action == "transfer_account".spec_bytes() {
        SemanticAction::TransferAccount
    } else if action == "edit_manager".spec_bytes() {
        SemanticAction::EditManager
    } else if action == "edit_records".spec_bytes() {
        SemanticAction::EditRecords
    } else if action == "start_account_sale".spec_bytes() {
        SemanticAction::StartAccountSale
    } else if action == "cancel_account_sale".spec_bytes() {
        SemanticAction::CancelAccountSale
    } else if action == "buy_account".spec_bytes() {
        SemanticAction::BuyAccount
    } else if action == "edit_account_sale".spec_bytes() {
        SemanticAction::EditAccountSale
    } else if action == "make_offer".spec_bytes() {
        SemanticAction::MakeOffer
    } else if action == "edit_offer".spec_bytes() {
        SemanticAction::EditOffer
    } else if action == "cancel_offer".spec_bytes() {
        SemanticAction::CancelOffer
    } else if action == "accept_offer".spec_bytes() {
        SemanticAction::AcceptOffer
    } else if action == "retract_reverse_record".spec_bytes() {
        SemanticAction::RetractReverseRecord
    } else if action == "lock_account_for_cross_chain".spec_bytes() {
        SemanticAction::LockAccountForCrossChain
    } else if action == "create_approval".spec_bytes() {
        SemanticAction::CreateApproval
    } else if action == "delay_approval".spec_bytes() {
        SemanticAction::DelayApproval
    } else {
        SemanticAction::Transfer
    }
}

/// The action whose message a transaction signs.
pub fn semantic_action(action: &[u8]) -> (r: SemanticAction)
    ensures
        r == spec_semantic_action(action@),
{
    if crate::bytes::bytes_eq(action, "transfer_account".as_bytes()) {
        SemanticAction::TransferAccount
    } else if crate::bytes::bytes_eq(action, "edit_manager".as_bytes()) {
        SemanticAction::EditManager
    } else if crate::bytes::bytes_eq(action, "edit_records".as_bytes()) {
        SemanticAction::EditRecords
    } else if crate::bytes::bytes_eq(action, "start_account_sale".as_bytes()) {
        SemanticAction::StartAccountSale
    } else if crate::bytes::bytes_eq(action, "cancel_account_sale".as_bytes()) {
        SemanticAction::CancelAccountSale
    } else if crate::bytes::bytes_eq(action, "buy_account".as_bytes()) {
        SemanticAction::BuyAccount
    } else if crate::bytes::bytes_eq(action, "edit_account_sale".as_bytes()) {
        SemanticAction::EditAccountSale
    } else if crate::bytes::bytes_eq(action, "make_offer".as_bytes()) {
        SemanticAction::MakeOffer
    } else if crate::bytes::bytes_eq(action, "edit_offer".as_bytes()) {
        SemanticAction::EditOffer
    } else if crate::bytes::bytes_eq(action, "cancel_offer".as_bytes()) {
        SemanticAction::CancelOffer
    } else if crate::bytes::bytes_eq(action, "accept_offer".as_bytes()) {
        SemanticAction::AcceptOffer
    } else if crate::bytes::bytes_eq(action, "retract_reverse_record".as_bytes()) {
        SemanticAction::RetractReverseRecord
    } else if crate::bytes::bytes_eq(action, "lock_account_for_cross_chain".as_bytes()) {
        SemanticAction::LockAccountForCrossChain
    } else if crate::bytes::bytes_eq(action, "create_approval".as_bytes()) {
        SemanticAction::CreateApproval
    } else if crate::bytes::bytes_eq(action, "delay_approval".as_bytes()) {
        SemanticAction::DelayApproval
    } else {
        SemanticAction::Transfer
    }
}

/// Checks that an offer message has an OfferCell to speak of.
pub fn verify_offer_cells_found(count: usize) -> (r: Result<(), ErrorCode>)
    ensures
        r is Ok <==> count > 0,
        r matches Err(e) ==> e == ErrorCode::InvalidTransactionStructure,
{
    if count > 0 {
        Ok(())
    } else {
        Err(ErrorCode::InvalidTransactionStructure)
    }
}

} // verus!
