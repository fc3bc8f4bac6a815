use did_contracts::error::{DasError, ErrorCode, PreAccountCellErrorCode};
use did_contracts::profit_map::ProfitMap;
use did_contracts::refund::{
    collect_pre_account_refunds, find_capacities_by_lock, verify_pre_account_refunds, verify_recycle_wallet,
    AccountOwner, OutputCell, PreAccountRefund, WalletCellRefund,
};

#[test]
fn profit_map_adds_up_per_lock_in_first_seen_order() {
    let mut m = ProfitMap::new();
    assert_eq!(m.len(), 0);
    m.add(&[2], 10);
    m.add(&[1], 5);
    m.add(&[2], 7);
    assert_eq!(m.len(), 2);
    assert_eq!(m.get(&[2]), 17);
    assert_eq!(m.get(&[1]), 5);
    assert_eq!(m.get(&[3]), 0);
    assert_eq!(m.key_at(0), &vec![2u8]);
    assert_eq!(m.amount_at(0), 17);
    assert_eq!(m.key_at(1), &vec![1u8]);
    assert_eq!(m.amount_at(1), 5);
}

fn out(lock: u8, capacity: u64) -> OutputCell {
    OutputCell { lock: vec![lock], capacity }
}

#[test]
fn capacities_are_found_by_lock() {
    let outputs = vec![out(1, 10), out(2, 20), out(1, 30)];
    assert_eq!(find_capacities_by_lock(&outputs, &[1]), vec![10, 30]);
    assert_eq!(find_capacities_by_lock(&outputs, &[3]), Vec::<u64>::new());
}

fn pre(lock: u8, capacity: u64, created_at: u64) -> PreAccountRefund {
    PreAccountRefund { refund_lock: vec![lock], capacity, created_at }
}

#[test]
fn timed_out_pre_accounts_are_refunded_per_lock() {
    let cells = vec![pre(1, 100, 0), pre(2, 50, 10), pre(1, 25, 20)];
    let m = collect_pre_account_refunds(&cells, 0, 86_420).unwrap();
    assert_eq!(m.len(), 2);
    assert_eq!(m.get(&[1]), 125);
    assert_eq!(m.get(&[2]), 50);
    assert_eq!(
        collect_pre_account_refunds(&cells, 0, 86_419).err(),
        Some(DasError::PreAccountCell(PreAccountCellErrorCode::PreAccountCellIsNotTimeout))
    );
    assert_eq!(
        collect_pre_account_refunds(&cells, 1, 86_420).err(),
        Some(DasError::Common(ErrorCode::InvalidTransactionStructure))
    );
    assert_eq!(
        collect_pre_account_refunds(&vec![], 0, 86_420).err(),
        Some(DasError::Common(ErrorCode::InvalidTransactionStructure))
    );
}

#[test]
fn each_lock_gets_one_refund_of_what_it_is_owed() {
    let mut m = ProfitMap::new();
    m.add(&[1], 100_000);
    m.add(&[2], 50_000);
    assert_eq!(verify_pre_account_refunds(&m, &vec![out(1, 90_000), out(2, 40_000)]), Ok(()));
    assert_eq!(
        verify_pre_account_refunds(&m, &vec![out(1, 89_999), out(2, 40_000)]),
        Err(DasError::PreAccountCell(PreAccountCellErrorCode::RefundCapacityError))
    );
    assert_eq!(
        verify_pre_account_refunds(&m, &vec![out(1, 90_000), out(2, 40_000), out(2, 1)]),
        Err(DasError::Common(ErrorCode::InvalidTransactionStructure))
    );
}

#[test]
fn the_smallest_failing_lock_decides_the_error() {
    let mut m = ProfitMap::new();
    m.add(&[2], 100_000);
    m.add(&[1], 100_000);
    // Lock [2] has too little, lock [1] has no refund at all: [1] comes first.
    assert_eq!(
        verify_pre_account_refunds(&m, &vec![out(2, 1)]),
        Err(DasError::Common(ErrorCode::InvalidTransactionStructure))
    );
}

fn wallet(id: u8, total: u64, occupied: u64) -> WalletCellRefund {
    WalletCellRefund { id: vec![id], total_capacity: total, occupied_capacity: occupied }
}

#[test]
fn recycled_wallets_refund_their_owners() {
    let accounts = vec![AccountOwner { id: vec![1], owner_lock: vec![0xa1] }];
    let wallets = vec![wallet(1, 20_000_000_000, 10_000_000_000)];
    let outputs = vec![OutputCell { lock: vec![0xa1], capacity: 10_000_000_000 }];
    assert_eq!(verify_recycle_wallet(true, 1, 0, &wallets, &accounts, &outputs), Ok(()));
    assert_eq!(
        verify_recycle_wallet(false, 1, 0, &wallets, &accounts, &outputs),
        Err(ErrorCode::WalletRequireWalletMakerLock)
    );
    assert_eq!(
        verify_recycle_wallet(true, 1, 1, &wallets, &accounts, &outputs),
        Err(ErrorCode::WalletFoundInvalidTransaction)
    );
    let wrong = vec![OutputCell { lock: vec![0xa1], capacity: 9_000_000_000 }];
    assert_eq!(verify_recycle_wallet(true, 1, 0, &wallets, &accounts, &wrong), Err(ErrorCode::WalletRefundError));
    assert_eq!(
        verify_recycle_wallet(true, 1, 0, &wallets, &vec![], &outputs),
        Err(ErrorCode::WalletFoundInvalidTransaction)
    );
    let dust = vec![wallet(1, 16_000_000_000, 10_000_000_000)];
    assert_eq!(verify_recycle_wallet(true, 1, 0, &dust, &vec![], &vec![]), Ok(()));
}
