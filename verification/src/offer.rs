use vstd::prelude::*;

use crate::bytes::bytes_eq;
use crate::error::ErrorCode;
use crate::types::{same_type_id, Script, is_type_id_equal};

verus! {

/// The limits of ConfigCellSecondaryMarket that an OfferCell must respect.
pub struct OfferConfig {
    pub offer_cell_basic_capacity: u64,
    pub offer_cell_prepared_fee_capacity: u64,
    pub offer_message_bytes_limit: u32,
    pub common_fee: u64,
}

/// What checking the price of an OfferCell gives: the price is at least the basic
/// capacity of an OfferCell, and the cell holds the price and the fee (the prepared
/// fee for a new offer, what was left of the fee for an edited one).
pub open spec fn spec_verify_offer_price(config: OfferConfig, exist_fee: Option<u64>, price: u64, capacity: u64) -> Result<
    (),
    ErrorCode,
> {
    let fee = match exist_fee {
        Some(f) => f,
        None => config.offer_cell_prepared_fee_capacity,
    };
    if price < config.offer_cell_basic_capacity {
        Err(ErrorCode::OfferCellCapacityError)
    } else if capacity != price + fee {
        Err(ErrorCode::OfferCellCapacityError)
    } else {
        Ok(())
    }
}

/// Checks the price and the capacity of an OfferCell.
pub fn verify_offer_price(config: &OfferConfig, exist_fee: Option<u64>, price: u64, capacity: u64) -> (r: Result<
    (),
    ErrorCode,
>)
    ensures
        r == spec_verify_offer_price(*config, exist_fee, price, capacity),
{
    let fee = match exist_fee {
        Some(f) => f,
        None => config.offer_cell_prepared_fee_capacity,
    };
    if price < config.offer_cell_basic_capacity {
        return Err(ErrorCode::OfferCellCapacityError);
    }
    if capacity as u128 != price as u128 + fee as u128 {
        return Err(ErrorCode::OfferCellCapacityError);
    }
    Ok(())
}

/// What checking the message of an OfferCell gives.
pub open spec fn spec_verify_message_length(config: OfferConfig, message_length: usize) -> Result<(), ErrorCode> {
    if message_length > config.offer_message_bytes_limit {
        Err(ErrorCode::OfferCellMessageTooLong)
    } else {
        Ok(())
    }
}

/// Checks that the message of an OfferCell is not too long.
pub fn verify_message_length(config: &OfferConfig, message_length: usize) -> (r: Result<(), ErrorCode>)
    ensures
        r == spec_verify_message_length(*config, message_length),
{
    if message_length as u64 > config.offer_message_bytes_limit as u64 {
        return Err(ErrorCode::OfferCellMessageTooLong);
    }
    Ok(())
}

/// The change owed to the buyer who makes or edits an offer: what the inputs carry
/// beyond the OfferCell and the fee, where there is any.
pub open spec fn spec_offer_change(total_input: u64, offer_capacity: u64, common_fee: u64) -> Option<u64> {
    if total_input > offer_capacity + common_fee {
        Some((total_input - offer_capacity - common_fee) as u64)
    } else {
        None
    }
}

/// The change owed to the buyer who makes or edits an offer.
pub fn offer_change(total_input: u64, offer_capacity: u64, common_fee: u64) -> (r: Option<u64>)
    ensures
        r == spec_offer_change(total_input, offer_capacity, common_fee),
{
    if total_input as u128 > offer_capacity as u128 + common_fee as u128 {
        Some(total_input - offer_capacity - common_fee)
    } else {
        None
    }
}

/// What checking the lock of an OfferCell gives: it is a das-lock, and the same lock
/// as the first input's.
pub open spec fn spec_verify_offer_lock(
    das_lock: crate::types::SpecScript,
    first_input_lock: crate::types::SpecScript,
    offer_lock: crate::types::SpecScript,
) -> Result<(), ErrorCode> {
    if !same_type_id(das_lock, offer_lock) {
        Err(ErrorCode::OfferCellLockError)
    } else if !crate::types::same_script(first_input_lock, offer_lock) {
        Err(ErrorCode::OfferCellLockError)
    } else {
        Ok(())
    }
}

/// Checks the lock of a new or edited OfferCell.
pub fn verify_offer_lock(das_lock: &Script, first_input_lock: &Script, offer_lock: &Script) -> (r: Result<
    (),
    ErrorCode,
>)
    ensures
        r == spec_verify_offer_lock(das_lock@, first_input_lock@, offer_lock@),
{
    if !is_type_id_equal(das_lock, offer_lock) {
        return Err(ErrorCode::OfferCellLockError);
    }
    if !crate::types::is_script_eq(first_input_lock, offer_lock) {
        return Err(ErrorCode::OfferCellLockError);
    }
    Ok(())
}

/// What an OfferCell witness says, with the inviter and channel locks serialized.
pub struct OfferWitness {
    pub account: Vec<u8>,
    pub price: u64,
    pub message: Vec<u8>,
    pub inviter_lock: Vec<u8>,
    pub channel_lock: Vec<u8>,
}

/// What checking an edited offer gives: the account, inviter and channel stay; the
/// cell spends at most the common fee of what was left of its fee; the new price is
/// checked against what is left; and the price or the message (then checked) changes.
pub open spec fn spec_verify_offer_edit(
    config: OfferConfig,
    input: OfferWitness,
    output: OfferWitness,
    input_capacity: u64,
    output_capacity: u64,
) -> Result<(), ErrorCode> {
    let old_fee = input_capacity - input.price;
    let new_fee = output_capacity - output.price;
    if input.account@ != output.account@ || input.inviter_lock@ != output.inviter_lock@ || input.channel_lock@
        != output.channel_lock@ {
        Err(ErrorCode::OfferCellFieldCanNotModified)
    } else if !(old_fee - new_fee <= config.common_fee) {
        Err(ErrorCode::OfferCellCapacityError)
    } else if spec_verify_offer_price(config, Some(new_fee as u64), output.price, output_capacity) is Err {
        spec_verify_offer_price(config, Some(new_fee as u64), output.price, output_capacity)
    } else if input.message@ != output.message@ && spec_verify_message_length(config, output.message@.len() as usize)
        is Err {
        spec_verify_message_length(config, output.message@.len() as usize)
    } else if input.price == output.price && input.message@ == output.message@ {
        Err(ErrorCode::InvalidTransactionStructure)
    } else {
        Ok(())
    }
}

/// Checks an edited OfferCell. A cell whose capacity is below its price, or whose fee
/// grows, makes the contract abort once the fields are known to stay, so those are
/// left out.
pub fn verify_offer_edit(
    config: &OfferConfig,
    input: &OfferWitness,
    output: &OfferWitness,
    input_capacity: u64,
    output_capacity: u64,
) -> (r: Result<(), ErrorCode>)
    requires
        input.account@ == output.account@ && input.inviter_lock@ == output.inviter_lock@ && input.channel_lock@
            == output.channel_lock@ ==> input.price <= input_capacity && output.price <= output_capacity
            && output_capacity - output.price <= input_capacity - input.price,
    ensures
        r == spec_verify_offer_edit(*config, *input, *output, input_capacity, output_capacity),
{
    if !bytes_eq(input.account.as_slice(), output.account.as_slice()) || !bytes_eq(
        input.inviter_lock.as_slice(),
        output.inviter_lock.as_slice(),
    ) || !bytes_eq(input.channel_lock.as_slice(), output.channel_lock.as_slice()) {
        return Err(ErrorCode::OfferCellFieldCanNotModified);
    }
    let old_fee = input_capacity - input.price;
    let new_fee = output_capacity - output.price;
    if !(old_fee - new_fee <= config.common_fee) {
        return Err(ErrorCode::OfferCellCapacityError);
    }
    let c = verify_offer_price(config, Some(new_fee), output.price, output_capacity);
    if c.is_err() {
        return c;
    }
    let mut changed = input.price != output.price;
    if !bytes_eq(input.message.as_slice(), output.message.as_slice()) {
        let c = verify_message_length(config, output.message.len());
        if c.is_err() {
            return c;
        }
        changed = true;
    }
    if !changed {
        return Err(ErrorCode::InvalidTransactionStructure);
    }
    Ok(())
}

/// What checking a cancellation gives: every OfferCell has the lock of the first, and
/// the change owed to that lock is what they hold, less the fee.
pub open spec fn spec_cancel_offers(lock_hashes: Seq<Seq<u8>>, total_capacity: u64, common_fee: u64) -> Result<
    u64,
    ErrorCode,
> {
    if lock_hashes.len() < 1 {
        Err(ErrorCode::InvalidTransactionStructure)
    } else if exists|i: int| 0 <= i < lock_hashes.len() && #[trigger] lock_hashes[i] != lock_hashes[0] {
        Err(ErrorCode::InvalidTransactionStructure)
    } else {
        Ok((total_capacity - common_fee) as u64)
    }
}

/// Checks the OfferCells that a cancellation spends, given the hashes of their locks
/// and their total capacity, and gives the change owed. OfferCells holding less than
/// the fee make the contract abort, so that is left out.
pub fn cancel_offers(lock_hashes: &Vec<Vec<u8>>, total_capacity: u64, common_fee: u64) -> (r: Result<u64, ErrorCode>)
    requires
        total_capacity >= common_fee,
    ensures
        r == spec_cancel_offers(crate::bytes::bytes_list_view(lock_hashes@), total_capacity, common_fee),
{
    let ghost v = crate::bytes::bytes_list_view(lock_hashes@);
    if lock_hashes.len() < 1 {
        return Err(ErrorCode::InvalidTransactionStructure);
    }
    let mut i: usize = 0;
    while i < lock_hashes.len()
        invariant
            v == crate::bytes::bytes_list_view(lock_hashes@),
            lock_hashes@.len() >= 1,
            i <= lock_hashes@.len(),
            forall|j: int| 0 <= j < i ==> #[trigger] v[j] == v[0],
        decreases lock_hashes@.len() - i,
    {
        if !bytes_eq(lock_hashes[i].as_slice(), lock_hashes[0].as_slice()) {
            assert(v[i as int] != v[0]);
            return Err(ErrorCode::InvalidTransactionStructure);
        }
        i = i + 1;
    }
    Ok(total_capacity - common_fee)
}

/// What checking the account side of an accepted offer gives: the AccountCell goes to
/// the buyer, and it is the account that the offer names.
pub open spec fn spec_verify_accept_offer(
    buyer_lock: Seq<u8>,
    new_owner_lock: Seq<u8>,
    offer_account: Seq<u8>,
    account: Seq<u8>,
) -> Result<(), ErrorCode> {
    if buyer_lock != new_owner_lock {
        Err(ErrorCode::OfferCellNewOwnerError)
    } else if offer_account != account {
        Err(ErrorCode::OfferCellAccountMismatch)
    } else {
        Ok(())
    }
}

/// Checks that accepting an offer gives the buyer the account it names.
pub fn verify_accept_offer(buyer_lock: &[u8], new_owner_lock: &[u8], offer_account: &[u8], account: &[u8]) -> (r:
    Result<(), ErrorCode>)
    ensures
        r == spec_verify_accept_offer(buyer_lock@, new_owner_lock@, offer_account@, account@),
{
    if !bytes_eq(buyer_lock, new_owner_lock) {
        return Err(ErrorCode::OfferCellNewOwnerError);
    }
    if !bytes_eq(offer_account, account) {
        return Err(ErrorCode::OfferCellAccountMismatch);
    }
    Ok(())
}

/// What the seller is owed when an offer is accepted: their share of the price, less
/// the fee where the OfferCell did not carry it on top of the price.
pub open spec fn spec_offer_seller_change(seller_profit: u64, offer_capacity: u64, price: u64, common_fee: u64) -> int {
    if offer_capacity > price + common_fee {
        seller_profit as int
    } else {
        seller_profit - common_fee
    }
}

/// What the seller is owed when an offer is accepted. A share smaller than the fee
/// makes the contract abort where the fee comes out of it, so that is left out.
pub fn offer_seller_change(seller_profit: u64, offer_capacity: u64, price: u64, common_fee: u64) -> (r: u64)
    requires
        offer_capacity <= price + common_fee ==> seller_profit >= common_fee,
    ensures
        r == spec_offer_seller_change(seller_profit, offer_capacity, price, common_fee),
{
    if offer_capacity as u128 > price as u128 + common_fee as u128 {
        seller_profit
    } else {
        seller_profit - common_fee
    }
}

/// An edit of an offer is accepted exactly when it keeps the account, the inviter and
/// the channel, spends at most the common fee, passes the price check, keeps a changed
/// message within the limit, and changes the price or the message.
pub proof fn lemma_offer_edit_accepted_when_something_changes(
    config: OfferConfig,
    input: OfferWitness,
    output: OfferWitness,
    input_capacity: u64,
    output_capacity: u64,
)
    ensures
        spec_verify_offer_edit(config, input, output, input_capacity, output_capacity) is Ok <==> {
            &&& input.account@ == output.account@
            &&& input.inviter_lock@ == output.inviter_lock@
            &&& input.channel_lock@ == output.channel_lock@
            &&& (input_capacity - input.price) - (output_capacity - output.price) <= config.common_fee
            &&& spec_verify_offer_price(
                config,
                Some((output_capacity - output.price) as u64),
                output.price,
                output_capacity,
            ) is Ok
            &&& input.message@ != output.message@ ==> output.message@.len() <= config.offer_message_bytes_limit
            &&& (input.price != output.price || input.message@ != output.message@)
        },
{
    assert(output.message@.len() == output.message.len());
}

/// The price of an OfferCell is accepted exactly when it is at least the basic capacity
/// of an OfferCell and the cell holds the price plus the fee: the fee that was left
/// where one is given, the prepared fee for a new offer.
pub proof fn lemma_offer_price_covers_price_and_fee(config: OfferConfig, exist_fee: Option<u64>, price: u64, capacity: u64)
    ensures
        spec_verify_offer_price(config, exist_fee, price, capacity) is Ok <==> price
            >= config.offer_cell_basic_capacity && capacity == price + match exist_fee {
            Some(f) => f,
            None => config.offer_cell_prepared_fee_capacity,
        },
        spec_verify_offer_price(config, exist_fee, price, capacity) is Err ==> spec_verify_offer_price(
            config,
            exist_fee,
            price,
            capacity,
        ) == Err::<(), ErrorCode>(ErrorCode::OfferCellCapacityError),
        spec_verify_message_length(config, 0) is Ok,
{
}

/// The buyer who makes or edits an offer gets back exactly what the inputs carry
/// beyond the OfferCell and the fee, and nothing where they carry no more.
pub proof fn lemma_offer_change_returns_the_rest(total_input: u64, offer_capacity: u64, common_fee: u64)
    ensures
        spec_offer_change(total_input, offer_capacity, common_fee) matches Some(c) ==> c + offer_capacity
            + common_fee == total_input && c > 0,
        spec_offer_change(total_input, offer_capacity, common_fee) is None <==> total_input <= offer_capacity
            + common_fee,
{
}

/// A cancellation is accepted exactly when it spends at least one OfferCell and all of
/// them have one lock; that lock is then owed what they hold, less the fee.
pub proof fn lemma_cancelled_offers_return_their_capacity(
    lock_hashes: Seq<Seq<u8>>,
    total_capacity: u64,
    common_fee: u64,
)
    requires
        total_capacity >= common_fee,
    ensures
        spec_cancel_offers(lock_hashes, total_capacity, common_fee) is Ok <==> lock_hashes.len() >= 1 && forall|
            i: int,
            j: int,
        | 0 <= i < lock_hashes.len() && 0 <= j < lock_hashes.len() ==> lock_hashes[i] == lock_hashes[j],
        spec_cancel_offers(lock_hashes, total_capacity, common_fee) matches Ok(c) ==> c + common_fee
            == total_capacity,
{
    if spec_cancel_offers(lock_hashes, total_capacity, common_fee) is Ok {
        assert forall|i: int, j: int|
            0 <= i < lock_hashes.len() && 0 <= j < lock_hashes.len() implies lock_hashes[i] == lock_hashes[j] by {
            assert(lock_hashes[i] == lock_hashes[0]);
            assert(lock_hashes[j] == lock_hashes[0]);
        }
    }
    if lock_hashes.len() >= 1 && forall|i: int, j: int|
        0 <= i < lock_hashes.len() && 0 <= j < lock_hashes.len() ==> lock_hashes[i] == lock_hashes[j] {
        assert(forall|i: int| 0 <= i < lock_hashes.len() ==> #[trigger] lock_hashes[i] == lock_hashes[0]);
    }
}

/// Accepting an offer is allowed exactly when the account goes to the buyer and is the
/// account that the offer names; the seller then gets their share, less the fee where
/// the OfferCell did not carry it on top of the price.
pub proof fn lemma_accepted_offer_goes_to_the_buyer(
    buyer_lock: Seq<u8>,
    new_owner_lock: Seq<u8>,
    offer_account: Seq<u8>,
    account: Seq<u8>,
    seller_profit: u64,
    offer_capacity: u64,
    price: u64,
    common_fee: u64,
)
    ensures
        spec_verify_accept_offer(buyer_lock, new_owner_lock, offer_account, account) is Ok <==> buyer_lock
            == new_owner_lock && offer_account == account,
        spec_offer_seller_change(seller_profit, offer_capacity, price, common_fee) + (if offer_capacity > price
            + common_fee {
            0
        } else {
            common_fee as int
        }) == seller_profit,
{
}

} // verus!
