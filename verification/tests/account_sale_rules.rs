use did_contracts::account_sale::{
    sale_profit_distribution, seller_change, start_sale_change, verify_account_sale_cell_consistent,
    verify_buyer_inviter_profit_rate, verify_description, verify_new_sale_cell, verify_purchase,
    verify_sale_cell_account_and_id, verify_sale_cell_capacity, verify_sale_edit, verify_sale_price,
    verify_started_at, SaleConfig, SaleProfit, SaleProfitRates, SaleWitness,
};
use did_contracts::error::ErrorCode;

fn config() -> SaleConfig {
    SaleConfig {
        sale_cell_basic_capacity: 20_000_000_000,
        sale_cell_prepared_fee_capacity: 100_000_000,
        sale_min_price: 20_000_000_000,
        sale_description_bytes_limit: 5,
        common_fee: 10_000,
    }
}

fn witness(version: u32, price: u64, description: &[u8], rate: Option<u32>) -> SaleWitness {
    SaleWitness {
        version,
        account_id: vec![1, 2, 3],
        account: b"abc.bit".to_vec(),
        price,
        description: description.to_vec(),
        started_at: 1000,
        buyer_inviter_profit_rate: rate,
    }
}

#[test]
fn sale_cell_capacity_is_basic_plus_fee() {
    assert_eq!(verify_sale_cell_capacity(&config(), 20_100_000_000), Ok(()));
    assert_eq!(verify_sale_cell_capacity(&config(), 20_100_000_001), Err(ErrorCode::AccountSaleCellCapacityError));
}

#[test]
fn sale_cell_names_the_account_cell() {
    let w = witness(2, 20_000_000_000, b"", Some(100));
    assert_eq!(verify_sale_cell_account_and_id(&[1, 2, 3], b"abc.bit", &w), Ok(()));
    assert_eq!(verify_sale_cell_account_and_id(&[1, 2, 4], b"abc.bit", &w), Err(ErrorCode::AccountSaleCellAccountIdInvalid));
    assert_eq!(verify_sale_cell_account_and_id(&[1, 2, 3], b"abd.bit", &w), Err(ErrorCode::AccountSaleCellAccountIdInvalid));
}

#[test]
fn sale_fields_are_checked_one_by_one() {
    assert_eq!(verify_sale_price(&config(), &witness(2, 20_000_000_000, b"", Some(1))), Ok(()));
    assert_eq!(
        verify_sale_price(&config(), &witness(2, 19_999_999_999, b"", Some(1))),
        Err(ErrorCode::AccountSaleCellPriceTooSmall)
    );
    assert_eq!(verify_description(&config(), &witness(2, 1, b"hello", Some(1))), Ok(()));
    assert_eq!(
        verify_description(&config(), &witness(2, 1, b"hello!", Some(1))),
        Err(ErrorCode::AccountSaleCellDescriptionTooLarge)
    );
    assert_eq!(verify_buyer_inviter_profit_rate(&witness(2, 1, b"", Some(10_000))), Ok(()));
    assert_eq!(
        verify_buyer_inviter_profit_rate(&witness(2, 1, b"", Some(10_001))),
        Err(ErrorCode::AccountSaleCellProfitRateError)
    );
    assert_eq!(verify_buyer_inviter_profit_rate(&witness(1, 1, b"", None)), Err(ErrorCode::InvalidTransactionStructure));
    assert_eq!(verify_started_at(1000, &witness(2, 1, b"", Some(1))), Ok(()));
    assert_eq!(verify_started_at(1001, &witness(2, 1, b"", Some(1))), Err(ErrorCode::AccountSaleCellStartedAtInvalid));
}

#[test]
fn new_sale_cell_reports_the_first_failure() {
    let good = witness(2, 20_000_000_000, b"hi", Some(100));
    assert_eq!(verify_new_sale_cell(&config(), 20_100_000_000, &[1, 2, 3], b"abc.bit", &good, 1000), Ok(()));
    assert_eq!(
        verify_new_sale_cell(&config(), 1, &[9], b"x", &witness(2, 1, b"too long", Some(1)), 0),
        Err(ErrorCode::AccountSaleCellCapacityError)
    );
    assert_eq!(
        verify_new_sale_cell(&config(), 20_100_000_000, &[1, 2, 3], b"abc.bit", &witness(2, 1, b"too long", Some(1)), 0),
        Err(ErrorCode::AccountSaleCellPriceTooSmall)
    );
    assert_eq!(
        verify_new_sale_cell(&config(), 20_100_000_000, &[1, 2, 3], b"abc.bit", &good, 999),
        Err(ErrorCode::AccountSaleCellStartedAtInvalid)
    );
}

#[test]
fn start_sale_change_is_what_remains() {
    assert_eq!(start_sale_change(30_000, 20_000, 1_000), Ok(9_000));
    assert_eq!(start_sale_change(20_999, 20_000, 1_000), Err(ErrorCode::InvalidTransactionStructure));
}

#[test]
fn sale_cell_keeps_its_lock_account_and_start() {
    let a = witness(2, 1, b"", Some(1));
    let b = witness(2, 2, b"", Some(1));
    assert_eq!(verify_account_sale_cell_consistent(&[1], &[1], &a, &b), Ok(()));
    assert_eq!(verify_account_sale_cell_consistent(&[1], &[2], &a, &b), Err(ErrorCode::InvalidTransactionStructure));
    let mut c = witness(2, 2, b"", Some(1));
    c.started_at = 5;
    assert_eq!(verify_account_sale_cell_consistent(&[1], &[1], &a, &c), Err(ErrorCode::AccountSaleCellStartedAtInvalid));
    let mut d = witness(2, 2, b"", Some(1));
    d.account = b"zzz.bit".to_vec();
    assert_eq!(verify_account_sale_cell_consistent(&[1], &[1], &a, &d), Err(ErrorCode::AccountSaleCellAccountIdInvalid));
}

#[test]
fn sale_edit_must_change_something_valid() {
    let input = witness(2, 20_000_000_000, b"a", Some(100));
    assert_eq!(verify_sale_edit(&config(), &input, &witness(2, 30_000_000_000, b"a", Some(100))), Ok(()));
    assert_eq!(
        verify_sale_edit(&config(), &input, &witness(2, 20_000_000_000, b"a", Some(100))),
        Err(ErrorCode::InvalidTransactionStructure)
    );
    assert_eq!(
        verify_sale_edit(&config(), &input, &witness(2, 1, b"a", Some(100))),
        Err(ErrorCode::AccountSaleCellPriceTooSmall)
    );
    assert_eq!(
        verify_sale_edit(&config(), &input, &witness(2, 20_000_000_000, b"abcdef", Some(100))),
        Err(ErrorCode::AccountSaleCellDescriptionTooLarge)
    );
    assert_eq!(
        verify_sale_edit(&config(), &input, &witness(2, 20_000_000_000, b"a", Some(20_000))),
        Err(ErrorCode::AccountSaleCellProfitRateError)
    );
    let old = witness(1, 20_000_000_000, b"a", None);
    assert_eq!(verify_sale_edit(&config(), &old, &witness(2, 20_000_000_000, b"a", Some(100))), Ok(()));
    assert_eq!(
        verify_sale_edit(&config(), &old, &witness(1, 20_000_000_000, b"a", None)),
        Err(ErrorCode::InvalidTransactionStructure)
    );
}

#[test]
fn purchase_gives_the_buyer_the_account() {
    assert_eq!(verify_purchase(&[1], &[1], 500, 300), Ok(200));
    assert_eq!(verify_purchase(&[1], &[2], 500, 300), Err(ErrorCode::AccountSaleCellNewOwnerError));
    assert_eq!(verify_purchase(&[1], &[1], 299, 300), Err(ErrorCode::InvalidTransactionStructure));
}

#[test]
fn sale_profit_is_shared_and_adds_up_to_the_price() {
    let rates = SaleProfitRates { sale_das: 100, sale_buyer_inviter: 100, sale_buyer_channel: 100 };
    let price = 1_000_000;
    let p = sale_profit_distribution(price, &rates, Some(200), true, true);
    assert_eq!(p, SaleProfit { inviter: Some(20_000), channel: Some(10_000), das: 10_000, seller: 960_000 });
    let p = sale_profit_distribution(price, &rates, None, false, false);
    assert_eq!(p, SaleProfit { inviter: None, channel: None, das: 30_000, seller: 970_000 });
    let p = sale_profit_distribution(price, &rates, None, true, false);
    assert_eq!(p.inviter, Some(10_000));
    assert_eq!(p.das, 20_000);
    assert_eq!(p.inviter.unwrap() + p.das + p.seller, price);
}

#[test]
fn seller_change_adds_the_sale_cell_and_takes_the_fee() {
    assert_eq!(seller_change(960_000, 20_100_000_000, 10_000), 960_000 + 20_100_000_000 - 10_000);
}
