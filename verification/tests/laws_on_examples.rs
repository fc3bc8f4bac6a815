use did_contracts::account_sale::{sale_profit_distribution, SaleProfitRates};
use did_contracts::approval::{
    transfer_approval_create, transfer_approval_delay, AccountApproval, AccountApprovalWitness, TransferApproval,
};
use did_contracts::device_key_list::verify_key_list_update;
use did_contracts::error::AccountCellErrorCode;
use did_contracts::proposal_exec::{split_new_account_profit, ProfitRates};
use did_contracts::sub_account::{create_step, CreateFacts, ProfitTally, RuleMatch, SubAccountConfigFlag};
use did_contracts::types::{AccountStatus, Script, DAY_SEC, YEAR_SEC};

const NOW: u64 = 1_700_000_000;

fn lock(args: &[u8]) -> Script {
    Script { code_hash: vec![0xda; 32], hash_type: 1, args: args.to_vec() }
}

fn approved(sealed_until: u64, delay: u8) -> AccountApprovalWitness {
    AccountApprovalWitness {
        version: 4,
        status: AccountStatus::ApprovedTransfer,
        approval: AccountApproval::Transfer(TransferApproval {
            platform_lock: lock(&[3, 1]),
            protected_until: NOW + 10 * DAY_SEC,
            sealed_until,
            delay_count_remain: delay,
            to_lock: lock(&[5, 2]),
        }),
    }
}

#[test]
fn an_approval_is_sealed_at_most_thirty_days() {
    let input = AccountApprovalWitness { version: 4, status: AccountStatus::Normal, approval: AccountApproval::Empty };
    let created = approved(NOW + 20 * DAY_SEC, 1);
    assert_eq!(transfer_approval_create(NOW, &lock(&[]), &input, &created, NOW + 365 * DAY_SEC), Ok(()));
    assert_eq!(transfer_approval_delay(&created, &approved(NOW + 30 * DAY_SEC, 0)), Ok(()));
    assert_eq!(
        transfer_approval_delay(&created, &approved(NOW + 30 * DAY_SEC + 1, 0)),
        Err(AccountCellErrorCode::ApprovalParamsSealedUntilIncrementError)
    );
    // Once delayed, never again.
    assert_eq!(
        transfer_approval_delay(&approved(NOW + 30 * DAY_SEC, 0), &approved(NOW + 31 * DAY_SEC, 0)),
        Err(AccountCellErrorCode::ApprovalParamsDelayCountNotEnough)
    );
}

#[test]
fn profit_splits_add_up_to_the_profit() {
    let rates = ProfitRates { inviter: 1500, channel: 1500, proposal_create: 1000, proposal_confirm: 1000 };
    for profit in [0u64, 1, 9_999, 123_456_789, 80_000_000_000] {
        for (inviter, channel) in [(true, true), (true, false), (false, true), (false, false)] {
            let s = split_new_account_profit(profit, &rates, inviter, channel);
            assert_eq!(s.inviter + s.channel + s.proposal_create + s.proposal_confirm + s.das, profit);
        }
    }
    let sale_rates = SaleProfitRates { sale_das: 500, sale_buyer_inviter: 100, sale_buyer_channel: 100 };
    for price in [0u64, 10_000, 20_000_000_001, 99_999_999_999] {
        let p = sale_profit_distribution(price, &sale_rates, Some(300), true, true);
        assert_eq!(p.inviter.unwrap() + p.channel.unwrap() + p.das + p.seller, price);
    }
}

#[test]
fn the_tally_stays_consistent() {
    let mut t = ProfitTally {
        minimal_required_das_profit: 0,
        profit_total: 0,
        profit_from_manual_mint: 0,
        profit_from_manual_renew: 0,
        profit_from_manual_renew_by_other: 0,
    };
    for i in 0..5u64 {
        let f = CreateFacts {
            old_sub_account_version: 2,
            new_sub_account_version: 2,
            account_chars_check: Ok(()),
            min_length_check: Ok(()),
            max_length_check: Ok(()),
            initial_properties_check: Ok(()),
            registered_at: 0,
            expired_at: (i + 1) * YEAR_SEC,
            manual_requested: i % 2 == 0,
            edit_value_is_proof: false,
            has_mint_list: true,
            in_mint_list: true,
            flag: SubAccountConfigFlag::CustomRule,
            custom_rule_on: true,
            preserved: RuleMatch::NoRules,
            price: RuleMatch::Matched(2_000_000),
            new_sub_account_price: 1_000_000,
            basic_yearly_capacity: 70,
            rule_yearly_capacity: 140,
        };
        t = create_step(t, f).unwrap();
        assert!(t.minimal_required_das_profit <= t.profit_total);
        assert_eq!(
            t.profit_from_manual_mint + t.profit_from_manual_renew + t.profit_from_manual_renew_by_other,
            t.minimal_required_das_profit
        );
    }
    assert_eq!(t.profit_from_manual_mint, 70 * (1 + 3 + 5));
    assert_eq!(t.profit_total, 70 * (1 + 3 + 5) + 140 * (2 + 4));
}

#[test]
fn accepted_key_list_updates_never_repeat_a_key() {
    let lists: Vec<Vec<Vec<u8>>> = vec![
        vec![vec![1]],
        vec![vec![1], vec![2]],
        vec![vec![1], vec![2], vec![3]],
        vec![vec![3], vec![1]],
        vec![vec![3], vec![1], vec![4]],
    ];
    for w in lists.windows(2) {
        assert_eq!(verify_key_list_update(&w[0], &w[1]), Ok(()));
        let mut seen = w[1].clone();
        seen.sort();
        seen.dedup();
        assert_eq!(seen.len(), w[1].len());
    }
    assert!(verify_key_list_update(&lists[2], &vec![vec![1], vec![1]]).is_err());
}
