use vstd::prelude::*;

use crate::bytes::bytes_eq;
use crate::error::ErrorCode;
use crate::types::RATE_BASE;

verus! {

/// The limits of ConfigCellSecondaryMarket that an AccountSaleCell must respect.
pub struct SaleConfig {
    pub sale_cell_basic_capacity: u64,
    pub sale_cell_prepared_fee_capacity: u64,
    pub sale_min_price: u64,
    pub sale_description_bytes_limit: u32,
    pub common_fee: u64,
}

/// What an AccountSaleCell witness says.
pub struct SaleWitness {
    pub version: u32,
    pub account_id: Vec<u8>,
    pub account: Vec<u8>,
    pub price: u64,
    pub description: Vec<u8>,
    pub started_at: u64,
    /// The share of the buyer's inviter, out of `RATE_BASE`; witnesses of version 2
    /// carry it.
    pub buyer_inviter_profit_rate: Option<u32>,
}

/// The latest version of the AccountSaleCell witness.
pub const ACCOUNT_SALE_CELL_LATEST_VERSION: u32 = 2;

/// What checking the capacity of a new AccountSaleCell gives: exactly its basic
/// capacity and its prepared fee.
pub open spec fn spec_verify_sale_cell_capacity(config: SaleConfig, capacity: u64) -> Result<(), ErrorCode> {
    if capacity != config.sale_cell_basic_capacity + config.sale_cell_prepared_fee_capacity {
        Err(ErrorCode::AccountSaleCellCapacityError)
    } else {
        Ok(())
    }
}

/// Checks the capacity of a new AccountSaleCell.
pub fn verify_sale_cell_capacity(config: &SaleConfig, capacity: u64) -> (r: Result<(), ErrorCode>)
    ensures
        r == spec_verify_sale_cell_capacity(*config, capacity),
{
    if capacity as u128 != config.sale_cell_basic_capacity as u128 + config.sale_cell_prepared_fee_capacity as u128 {
        return Err(ErrorCode::AccountSaleCellCapacityError);
    }
    Ok(())
}

/// What checking the account of an AccountSaleCell gives: it names the account ID
/// and the account of the AccountCell for sale.
pub open spec fn spec_verify_sale_cell_account(
    account_cell_id: Seq<u8>,
    account_cell_account: Seq<u8>,
    w: SaleWitness,
) -> Result<(), ErrorCode> {
    if account_cell_id != w.account_id@ {
        Err(ErrorCode::AccountSaleCellAccountIdInvalid)
    } else if account_cell_account != w.account@ {
        Err(ErrorCode::AccountSaleCellAccountIdInvalid)
    } else {
        Ok(())
    }
}

/// Checks that an AccountSaleCell sells the AccountCell next to it.
pub fn verify_sale_cell_account_and_id(
    account_cell_id: &[u8],
    account_cell_account: &[u8],
    w: &SaleWitness,
) -> (r: Result<(), ErrorCode>)
    ensures
        r == spec_verify_sale_cell_account(account_cell_id@, account_cell_account@, *w),
{
    if !bytes_eq(account_cell_id, w.account_id.as_slice()) {
        return Err(ErrorCode::AccountSaleCellAccountIdInvalid);
    }
    if !bytes_eq(account_cell_account, w.account.as_slice()) {
        return Err(ErrorCode::AccountSaleCellAccountIdInvalid);
    }
    Ok(())
}

/// What checking the price of an AccountSaleCell gives.
pub open spec fn spec_verify_sale_price(config: SaleConfig, w: SaleWitness) -> Result<(), ErrorCode> {
    if w.price < config.sale_min_price {
        Err(ErrorCode::AccountSaleCellPriceTooSmall)
    } else {
        Ok(())
    }
}

/// Checks that an account is not offered below the least price.
pub fn verify_sale_price(config: &SaleConfig, w: &SaleWitness) -> (r: Result<(), ErrorCode>)
    ensures
        r == spec_verify_sale_price(*config, *w),
{
    if w.price < config.sale_min_price {
        return Err(ErrorCode::AccountSaleCellPriceTooSmall);
    }
    Ok(())
}

/// What checking the description of an AccountSaleCell gives.
pub open spec fn spec_verify_description(config: SaleConfig, w: SaleWitness) -> Result<(), ErrorCode> {
    if w.description@.len() > config.sale_description_bytes_limit {
        Err(ErrorCode::AccountSaleCellDescriptionTooLarge)
    } else {
        Ok(())
    }
}

/// Checks that the description of an AccountSaleCell is not too long.
pub fn verify_description(config: &SaleConfig, w: &SaleWitness) -> (r: Result<(), ErrorCode>)
    ensures
        r == spec_verify_description(*config, *w),
{
    if w.description.len() as u64 > config.sale_description_bytes_limit as u64 {
        return Err(ErrorCode::AccountSaleCellDescriptionTooLarge);
    }
    Ok(())
}

/// What checking the buyer inviter's share of an AccountSaleCell gives: only witnesses
/// of the latest version are accepted, and the share is at most the whole.
pub open spec fn spec_verify_buyer_inviter_profit_rate(w: SaleWitness) -> Result<(), ErrorCode> {
    if w.version != ACCOUNT_SALE_CELL_LATEST_VERSION {
        Err(ErrorCode::InvalidTransactionStructure)
    } else if w.buyer_inviter_profit_rate->Some_0 > RATE_BASE {
        Err(ErrorCode::AccountSaleCellProfitRateError)
    } else {
        Ok(())
    }
}

/// Checks the buyer inviter's share of an AccountSaleCell. A witness of the latest
/// version always carries the share.
pub fn verify_buyer_inviter_profit_rate(w: &SaleWitness) -> (r: Result<(), ErrorCode>)
    requires
        w.version == ACCOUNT_SALE_CELL_LATEST_VERSION ==> w.buyer_inviter_profit_rate is Some,
    ensures
        r == spec_verify_buyer_inviter_profit_rate(*w),
{
    if w.version != ACCOUNT_SALE_CELL_LATEST_VERSION {
        return Err(ErrorCode::InvalidTransactionStructure);
    }
    let rate = match w.buyer_inviter_profit_rate {
        Some(r) => r,
        None => 0,
    };
    if rate as u64 > RATE_BASE {
        return Err(ErrorCode::AccountSaleCellProfitRateError);
    }
    Ok(())
}

/// What checking when a sale started gives: it starts at the time of the TimeCell.
pub open spec fn spec_verify_started_at(timestamp: u64, w: SaleWitness) -> Result<(), ErrorCode> {
    if timestamp != w.started_at {
        Err(ErrorCode::AccountSaleCellStartedAtInvalid)
    } else {
        Ok(())
    }
}

/// Checks that a sale starts now.
pub fn verify_started_at(timestamp: u64, w: &SaleWitness) -> (r: Result<(), ErrorCode>)
    ensures
        r == spec_verify_started_at(timestamp, *w),
{
    if timestamp != w.started_at {
        return Err(ErrorCode::AccountSaleCellStartedAtInvalid);
    }
    Ok(())
}

/// What checking a new AccountSaleCell gives: its capacity, the account it sells, its
/// price, its description, the buyer inviter's share and its start, in that order.
pub open spec fn spec_verify_new_sale_cell(
    config: SaleConfig,
    capacity: u64,
    account_cell_id: Seq<u8>,
    account_cell_account: Seq<u8>,
    w: SaleWitness,
    timestamp: u64,
) -> Result<(), ErrorCode> {
    if spec_verify_sale_cell_capacity(config, capacity) is Err {
        spec_verify_sale_cell_capacity(config, capacity)
    } else if spec_verify_sale_cell_account(account_cell_id, account_cell_account, w) is Err {
        spec_verify_sale_cell_account(account_cell_id, account_cell_account, w)
    } else if spec_verify_sale_price(config, w) is Err {
        spec_verify_sale_price(config, w)
    } else if spec_verify_description(config, w) is Err {
        spec_verify_description(config, w)
    } else if spec_verify_buyer_inviter_profit_rate(w) is Err {
        spec_verify_buyer_inviter_profit_rate(w)
    } else {
        spec_verify_started_at(timestamp, w)
    }
}

/// Checks the AccountSaleCell that starting a sale creates.
pub fn verify_new_sale_cell(
    config: &SaleConfig,
    capacity: u64,
    account_cell_id: &[u8],
    account_cell_account: &[u8],
    w: &SaleWitness,
    timestamp: u64,
) -> (r: Result<(), ErrorCode>)
    requires
        w.version == ACCOUNT_SALE_CELL_LATEST_VERSION ==> w.buyer_inviter_profit_rate is Some,
    ensures
        r == spec_verify_new_sale_cell(*config, capacity, account_cell_id@, account_cell_account@, *w, timestamp),
{
    let c = verify_sale_cell_capacity(config, capacity);
    if c.is_err() {
        return c;
    }
    let c = verify_sale_cell_account_and_id(account_cell_id, account_cell_account, w);
    if c.is_err() {
        return c;
    }
    let c = verify_sale_price(config, w);
    if c.is_err() {
        return c;
    }
    let c = verify_description(config, w);
    if c.is_err() {
        return c;
    }
    let c = verify_buyer_inviter_profit_rate(w);
    if c.is_err() {
        return c;
    }
    verify_started_at(timestamp, w)
}

/// What checking the funds of a new sale gives: the balance cells pay for the
/// AccountSaleCell and the fee, and the rest is change owed to the seller.
pub open spec fn spec_start_sale_change(total_input: u64, sale_capacity: u64, common_fee: u64) -> Result<
    u64,
    ErrorCode,
> {
    if !(total_input >= sale_capacity + common_fee) {
        Err(ErrorCode::InvalidTransactionStructure)
    } else {
        Ok((total_input - sale_capacity - common_fee) as u64)
    }
}

/// Checks that the seller pays for the AccountSaleCell and gives the change owed.
pub fn start_sale_change(total_input: u64, sale_capacity: u64, common_fee: u64) -> (r: Result<u64, ErrorCode>)
    ensures
        r == spec_start_sale_change(total_input, sale_capacity, common_fee),
{
    if !(total_input as u128 >= sale_capacity as u128 + common_fee as u128) {
        return Err(ErrorCode::InvalidTransactionStructure);
    }
    Ok(total_input - sale_capacity - common_fee)
}

/// What checking an edited AccountSaleCell against the old one gives: same lock,
/// account ID, account and start.
pub open spec fn spec_verify_sale_cell_consistent(
    input_lock: Seq<u8>,
    output_lock: Seq<u8>,
    input: SaleWitness,
    output: SaleWitness,
) -> Result<(), ErrorCode> {
    if input_lock != output_lock {
        Err(ErrorCode::InvalidTransactionStructure)
    } else if input.account_id@ != output.account_id@ || input.account@ != output.account@ {
        Err(ErrorCode::AccountSaleCellAccountIdInvalid)
    } else if input.started_at != output.started_at {
        Err(ErrorCode::AccountSaleCellStartedAtInvalid)
    } else {
        Ok(())
    }
}

/// Checks that editing an AccountSaleCell keeps what may not change.
pub fn verify_account_sale_cell_consistent(
    input_lock: &[u8],
    output_lock: &[u8],
    input: &SaleWitness,
    output: &SaleWitness,
) -> (r: Result<(), ErrorCode>)
    ensures
        r == spec_verify_sale_cell_consistent(input_lock@, output_lock@, *input, *output),
{
    if !bytes_eq(input_lock, output_lock) {
        return Err(ErrorCode::InvalidTransactionStructure);
    }
    if !bytes_eq(input.account_id.as_slice(), output.account_id.as_slice()) || !bytes_eq(
        input.account.as_slice(),
        output.account.as_slice(),
    ) {
        return Err(ErrorCode::AccountSaleCellAccountIdInvalid);
    }
    if input.started_at != output.started_at {
        return Err(ErrorCode::AccountSaleCellStartedAtInvalid);
    }
    Ok(())
}

/// What checking the edited fields of an AccountSaleCell gives: a new price is
/// checked, a new description is checked, a cell of version 1 is upgraded to the
/// latest version with a valid share for the buyer's inviter, and a new share is
/// checked; at least one of these must happen.
pub open spec fn spec_verify_sale_edit(config: SaleConfig, input: SaleWitness, output: SaleWitness) -> Result<
    (),
    ErrorCode,
> {
    let price_changed = input.price != output.price;
    let description_changed = input.description@ != output.description@;
    let rate_changed = input.version == 1 || input.buyer_inviter_profit_rate != output.buyer_inviter_profit_rate;
    if price_changed && spec_verify_sale_price(config, output) is Err {
        spec_verify_sale_price(config, output)
    } else if description_changed && spec_verify_description(config, output) is Err {
        spec_verify_description(config, output)
    } else if input.version == 1 && output.version != ACCOUNT_SALE_CELL_LATEST_VERSION {
        Err(ErrorCode::InvalidTransactionStructure)
    } else if rate_changed && spec_verify_buyer_inviter_profit_rate(output) is Err {
        spec_verify_buyer_inviter_profit_rate(output)
    } else if !(price_changed || description_changed || rate_changed) {
        Err(ErrorCode::InvalidTransactionStructure)
    } else {
        Ok(())
    }
}

/// Checks what editing an AccountSaleCell changes. Cells of the latest version carry
/// the buyer inviter's share; an old cell of the latest version edited into an older
/// one makes the contract abort, so that is left out.
pub fn verify_sale_edit(config: &SaleConfig, input: &SaleWitness, output: &SaleWitness) -> (r: Result<(), ErrorCode>)
    requires
        input.version == ACCOUNT_SALE_CELL_LATEST_VERSION ==> input.buyer_inviter_profit_rate is Some,
        output.version == ACCOUNT_SALE_CELL_LATEST_VERSION ==> output.buyer_inviter_profit_rate is Some,
        input.version != 1 ==> input.version == ACCOUNT_SALE_CELL_LATEST_VERSION && output.version
            == ACCOUNT_SALE_CELL_LATEST_VERSION,
    ensures
        r == spec_verify_sale_edit(*config, *input, *output),
{
    let mut changed = false;
    if input.price != output.price {
        let c = verify_sale_price(config, output);
        if c.is_err() {
            return c;
        }
        changed = true;
    }
    if !bytes_eq(input.description.as_slice(), output.description.as_slice()) {
        let c = verify_description(config, output);
        if c.is_err() {
            return c;
        }
        changed = true;
    }
    if input.version == 1 {
        if output.version != ACCOUNT_SALE_CELL_LATEST_VERSION {
            return Err(ErrorCode::InvalidTransactionStructure);
        }
        let c = verify_buyer_inviter_profit_rate(output);
        if c.is_err() {
            return c;
        }
        changed = true;
    } else if input.buyer_inviter_profit_rate != output.buyer_inviter_profit_rate {
        let c = verify_buyer_inviter_profit_rate(output);
        if c.is_err() {
            return c;
        }
        changed = true;
    }
    if !changed {
        return Err(ErrorCode::InvalidTransactionStructure);
    }
    Ok(())
}

/// What checking a purchase gives: the AccountCell goes to the buyer's lock, and the
/// buyer's balance cells pay the price; the rest is change owed to the buyer.
pub open spec fn spec_verify_purchase(
    buyer_lock: Seq<u8>,
    new_owner_lock: Seq<u8>,
    total_input: u64,
    price: u64,
) -> Result<u64, ErrorCode> {
    if buyer_lock != new_owner_lock {
        Err(ErrorCode::AccountSaleCellNewOwnerError)
    } else if total_input < price {
        Err(ErrorCode::InvalidTransactionStructure)
    } else {
        Ok((total_input - price) as u64)
    }
}

/// Checks the buyer's side of a purchase and gives the change owed to the buyer.
pub fn verify_purchase(buyer_lock: &[u8], new_owner_lock: &[u8], total_input: u64, price: u64) -> (r: Result<
    u64,
    ErrorCode,
>)
    ensures
        r == spec_verify_purchase(buyer_lock@, new_owner_lock@, total_input, price),
{
    if !bytes_eq(buyer_lock, new_owner_lock) {
        return Err(ErrorCode::AccountSaleCellNewOwnerError);
    }
    if total_input < price {
        return Err(ErrorCode::InvalidTransactionStructure);
    }
    Ok(total_input - price)
}

/// The shares of a sale that ConfigCellProfitRate sets, out of `RATE_BASE`.
pub struct SaleProfitRates {
    pub sale_das: u32,
    pub sale_buyer_inviter: u32,
    pub sale_buyer_channel: u32,
}

/// Who gets what of the price of a sold account.
#[derive(Debug, Clone, Copy, PartialEq, Eq, Structural)]
pub struct SaleProfit {
    /// The buyer's inviter, where the buyer has one.
    pub inviter: Option<u64>,
    /// The buyer's channel, where the buyer has one.
    pub channel: Option<u64>,
    pub das: u64,
    pub seller: u64,
}

/// The share of `price` at `rate`: the price is first divided by `RATE_BASE`,
/// rounding down, then multiplied by the rate.
pub open spec fn sale_share(price: u64, rate: int) -> int {
    (price / RATE_BASE) as int * rate
}

/// How the price of a sold account is shared. The buyer's inviter gets the share in
/// the AccountSaleCell (the configured one for cells of version 1) and the buyer's
/// channel the configured one; where either is missing, DAS gets that share instead,
/// on top of its own. The seller gets the rest.
pub open spec fn spec_sale_profit(
    price: u64,
    rates: SaleProfitRates,
    cell_inviter_rate: Option<u32>,
    has_inviter: bool,
    has_channel: bool,
) -> SaleProfit {
    let inviter_rate: int = match cell_inviter_rate {
        Some(r) => r as int,
        None => rates.sale_buyer_inviter as int,
    };
    let inviter = if has_inviter {
        sale_share(price, inviter_rate)
    } else {
        0
    };
    let channel = if has_channel {
        sale_share(price, rates.sale_buyer_channel as int)
    } else {
        0
    };
    let das_rate = rates.sale_das + (if has_inviter {
        0
    } else {
        rates.sale_buyer_inviter as int
    }) + (if has_channel {
        0
    } else {
        rates.sale_buyer_channel as int
    });
    let das = sale_share(price, das_rate);
    SaleProfit {
        inviter: if has_inviter {
            Some(inviter as u64)
        } else {
            None
        },
        channel: if has_channel {
            Some(channel as u64)
        } else {
            None
        },
        das: das as u64,
        seller: (price - inviter - channel - das) as u64,
    }
}

/// Whether the shares other than the seller's fit in the price (the contract aborts
/// otherwise).
pub open spec fn sale_shares_fit(
    price: u64,
    rates: SaleProfitRates,
    cell_inviter_rate: Option<u32>,
    has_inviter: bool,
    has_channel: bool,
) -> bool {
    let inviter_rate: int = match cell_inviter_rate {
        Some(r) => r as int,
        None => rates.sale_buyer_inviter as int,
    };
    let das_rate = rates.sale_das + (if has_inviter {
        0
    } else {
        rates.sale_buyer_inviter as int
    }) + (if has_channel {
        0
    } else {
        rates.sale_buyer_channel as int
    });
    (if has_inviter {
        sale_share(price, inviter_rate)
    } else {
        0
    }) + (if has_channel {
        sale_share(price, rates.sale_buyer_channel as int)
    } else {
        0
    }) + sale_share(price, das_rate) <= price
}

/// Shares the price of a sold account between the buyer's inviter and channel, DAS
/// and the seller.
pub fn sale_profit_distribution(
    price: u64,
    rates: &SaleProfitRates,
    cell_inviter_rate: Option<u32>,
    has_inviter: bool,
    has_channel: bool,
) -> (r: SaleProfit)
    requires
        sale_shares_fit(price, *rates, cell_inviter_rate, has_inviter, has_channel),
    ensures
        r == spec_sale_profit(price, *rates, cell_inviter_rate, has_inviter, has_channel),
{
    let unit: u64 = price / RATE_BASE;
    let inviter_rate: u64 = match cell_inviter_rate {
        Some(r) => r as u64,
        None => rates.sale_buyer_inviter as u64,
    };
    let mut das_rate: u64 = rates.sale_das as u64;
    let mut seller: u64 = price;
    let ghost gi: int = if has_inviter { sale_share(price, inviter_rate as int) } else { 0 };
    let ghost gc: int = if has_channel { sale_share(price, rates.sale_buyer_channel as int) } else { 0 };
    proof {
        assert(unit as int * inviter_rate >= 0) by (nonlinear_arith);
        assert(unit as int * rates.sale_buyer_channel >= 0) by (nonlinear_arith);
    }
    let ghost das_rate_total: int = rates.sale_das + (if has_inviter { 0 } else { rates.sale_buyer_inviter as int })
        + (if has_channel { 0 } else { rates.sale_buyer_channel as int });
    proof {
        assert(unit as int * das_rate_total >= 0) by (nonlinear_arith)
            requires
                das_rate_total >= 0,
        ;
    }
    let inviter = if has_inviter {
        let p = unit * inviter_rate;
        seller = seller - p;
        Some(p)
    } else {
        das_rate = das_rate + rates.sale_buyer_inviter as u64;
        None
    };
    let channel = if has_channel {
        let p = unit * (rates.sale_buyer_channel as u64);
        seller = seller - p;
        Some(p)
    } else {
        das_rate = das_rate + rates.sale_buyer_channel as u64;
        None
    };
    assert(das_rate == das_rate_total);
    let das = unit * das_rate;
    seller = seller - das;
    SaleProfit { inviter, channel, das, seller }
}

/// The shares of a sold account add up to its price: nothing is lost or made.
pub proof fn lemma_sale_profit_sum(
    price: u64,
    rates: SaleProfitRates,
    cell_inviter_rate: Option<u32>,
    has_inviter: bool,
    has_channel: bool,
)
    requires
        sale_shares_fit(price, rates, cell_inviter_rate, has_inviter, has_channel),
    ensures
        ({
            let p = spec_sale_profit(price, rates, cell_inviter_rate, has_inviter, has_channel);
            (match p.inviter {
                Some(v) => v as int,
                None => 0,
            }) + (match p.channel {
                Some(v) => v as int,
                None => 0,
            }) + p.das + p.seller == price
        }),
{
    let inviter_rate: int = match cell_inviter_rate {
        Some(r) => r as int,
        None => rates.sale_buyer_inviter as int,
    };
    let das_rate = rates.sale_das + (if has_inviter { 0 } else { rates.sale_buyer_inviter as int }) + (if has_channel {
        0
    } else {
        rates.sale_buyer_channel as int
    });
    let unit = (price / RATE_BASE) as int;
    assert(unit * inviter_rate >= 0) by (nonlinear_arith)
        requires
            unit >= 0,
            inviter_rate >= 0,
    ;
    assert(unit * rates.sale_buyer_channel >= 0) by (nonlinear_arith)
        requires
            unit >= 0,
    ;
    assert(unit * das_rate >= 0) by (nonlinear_arith)
        requires
            unit >= 0,
            das_rate >= 0,
    ;
}

/// What the seller is owed after a sale: their share of the price and the capacity of
/// the AccountSaleCell, less the fee.
pub open spec fn spec_seller_change(seller_profit: u64, sale_cell_capacity: u64, common_fee: u64) -> int {
    seller_profit + sale_cell_capacity - common_fee
}

/// What the seller is owed after a sale.
pub fn seller_change(seller_profit: u64, sale_cell_capacity: u64, common_fee: u64) -> (r: u64)
    requires
        common_fee <= seller_profit + sale_cell_capacity <= u64::MAX,
    ensures
        r == spec_seller_change(seller_profit, sale_cell_capacity, common_fee),
{
    seller_profit + sale_cell_capacity - common_fee
}

/// A new AccountSaleCell is accepted exactly when it holds its basic capacity and its
/// prepared fee, sells the AccountCell next to it, asks at least the least price, keeps
/// its description within the limit, is of the latest version with a buyer inviter's
/// share of at most the whole, and starts now.
pub proof fn lemma_new_sale_meets_the_market_rules(
    config: SaleConfig,
    capacity: u64,
    account_cell_id: Seq<u8>,
    account_cell_account: Seq<u8>,
    w: SaleWitness,
    timestamp: u64,
)
    requires
        w.version == ACCOUNT_SALE_CELL_LATEST_VERSION ==> w.buyer_inviter_profit_rate is Some,
    ensures
        spec_verify_new_sale_cell(config, capacity, account_cell_id, account_cell_account, w, timestamp) is Ok
            <==> {
            &&& capacity == config.sale_cell_basic_capacity + config.sale_cell_prepared_fee_capacity
            &&& account_cell_id == w.account_id@
            &&& account_cell_account == w.account@
            &&& w.price >= config.sale_min_price
            &&& w.description@.len() <= config.sale_description_bytes_limit
            &&& w.version == 2
            &&& w.buyer_inviter_profit_rate matches Some(rate) && rate <= RATE_BASE
            &&& w.started_at == timestamp
        },
{
}

/// The seller of a new sale pays for the AccountSaleCell and the fee, and gets back
/// exactly the rest; a seller who cannot pay is refused.
pub proof fn lemma_sale_change_returns_the_rest(total_input: u64, sale_capacity: u64, common_fee: u64)
    ensures
        spec_start_sale_change(total_input, sale_capacity, common_fee) is Ok <==> total_input >= sale_capacity
            + common_fee,
        spec_start_sale_change(total_input, sale_capacity, common_fee) matches Ok(c) ==> c + sale_capacity
            + common_fee == total_input,
        spec_seller_change(total_input, sale_capacity, common_fee) + common_fee == total_input + sale_capacity,
{
}

/// An edited AccountSaleCell keeps its lock, account and start, and is accepted exactly
/// when every changed field passes its check (a new price at least the least price, a
/// new description within the limit, an upgrade from the first version to the latest,
/// a new share of the buyer's inviter at most the whole) and something changes.
pub proof fn lemma_sale_edit_changes_something_valid(
    config: SaleConfig,
    input_lock: Seq<u8>,
    output_lock: Seq<u8>,
    input: SaleWitness,
    output: SaleWitness,
)
    requires
        input.version == ACCOUNT_SALE_CELL_LATEST_VERSION ==> input.buyer_inviter_profit_rate is Some,
        output.version == ACCOUNT_SALE_CELL_LATEST_VERSION ==> output.buyer_inviter_profit_rate is Some,
        input.version != 1 ==> input.version == ACCOUNT_SALE_CELL_LATEST_VERSION && output.version
            == ACCOUNT_SALE_CELL_LATEST_VERSION,
    ensures
        spec_verify_sale_cell_consistent(input_lock, output_lock, input, output) is Ok <==> input_lock == output_lock
            && input.account_id@ == output.account_id@ && input.account@ == output.account@ && input.started_at
            == output.started_at,
        spec_verify_sale_edit(config, input, output) is Ok <==> {
            let rate_changed = input.version == 1 || input.buyer_inviter_profit_rate
                != output.buyer_inviter_profit_rate;
            &&& input.price != output.price ==> output.price >= config.sale_min_price
            &&& input.description@ != output.description@ ==> output.description@.len()
                <= config.sale_description_bytes_limit
            &&& input.version == 1 ==> output.version == 2
            &&& rate_changed ==> output.version == 2 && output.buyer_inviter_profit_rate->Some_0 <= RATE_BASE
            &&& (input.price != output.price || input.description@ != output.description@ || rate_changed)
        },
{
}

/// A purchase is accepted exactly when the account goes to the buyer and the buyer's
/// balance cells cover the price; the buyer then gets back exactly the rest.
pub proof fn lemma_purchase_pays_the_price(buyer_lock: Seq<u8>, new_owner_lock: Seq<u8>, total_input: u64, price: u64)
    ensures
        spec_verify_purchase(buyer_lock, new_owner_lock, total_input, price) is Ok <==> buyer_lock == new_owner_lock
            && total_input >= price,
        spec_verify_purchase(buyer_lock, new_owner_lock, total_input, price) matches Ok(c) ==> c + price
            == total_input,
{
}

} // verus!
