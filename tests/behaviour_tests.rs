use referral_sale::account::{Account, AccountOld};
use referral_sale::contract::Contract;
use referral_sale::error::ContractError;
use referral_sale::migration::OldContract;
use referral_sale::sale::{page_end, SaleInput, SaleMetadata, SaleType};
use referral_sale::token_receiver::{compute_fee_share, DepositOutcome, SaleDeposit};

const OPEN: u64 = 1_000_000_000_100_000_000;
const CLOSE: u64 = 1_000_000_000_500_000_000;
const DURING: u64 = 1_000_000_000_300_000_000;

fn id(s: &str) -> String {
    s.to_string()
}

fn metadata() -> SaleMetadata {
    SaleMetadata {
        name: "sale".to_string(),
        symbol: "SALE".to_string(),
        description: "".to_string(),
        smart_contract_url: "".to_string(),
        logo_url: "".to_string(),
        output_ticker: "".to_string(),
        project_telegram: None,
        project_medium: None,
        project_twitter: None,
        reward_timestamp: None,
        reward_description: None,
    }
}

fn input(max_amount: u128, staked: bool) -> SaleInput {
    SaleInput {
        metadata: metadata(),
        staking_contracts: if staked { vec![id("pool.staking")] } else { vec![] },
        min_near_deposit: if staked { 100 } else { 0 },
        deposit_token_id: id("token"),
        distribute_token_id: Some(id("reward.token")),
        distribute_token_decimals: Some(18),
        min_buy: 1,
        max_buy: max_amount,
        max_amount,
        start_date: OPEN,
        end_date: CLOSE,
        price: 1000,
        whitelist_hash: None,
        limit_per_transaction: max_amount,
        sale_type: SaleType::ByAmount,
    }
}

fn contract_with(max_amount: u128, staked: bool) -> Contract {
    let mut c = Contract::new(id("root"), 5, vec![10, 20, 30]);
    assert_eq!(c.create_sale(&id("root"), input(max_amount, staked)), Ok(0));
    c
}

fn deposit(c: &mut Contract, who: &str, amount: u128, pool: Option<&str>, now: u64) -> Result<DepositOutcome, ContractError> {
    c.internal_ft_on_transfer(
        id("token"),
        id(who),
        amount,
        SaleDeposit { sale_id: 0, staking_contract: pool.map(id) },
        now,
    )
}

fn level_len(c: &Contract, who: &str, level: u8) -> usize {
    let i = c.find_account(&id(who)).unwrap();
    let account: &Account = c.accounts[i].account();
    account.affiliates.get(&level).map(|v| v.len()).unwrap_or(0)
}

fn level_has(c: &Contract, who: &str, level: u8, member: &str) -> bool {
    let i = c.find_account(&id(who)).unwrap();
    let account: &Account = c.accounts[i].account();
    account.affiliates.get(&level).map(|v| v.contains(&id(member))).unwrap_or(false)
}

/// root <- bob <- charlie <- danny <- eugene
fn chain() -> Contract {
    let mut c = contract_with(1_000_000, false);
    assert_eq!(c.join(&id("bob"), None, 5), Ok(()));
    assert_eq!(c.join(&id("charlie"), Some(id("bob")), 5), Ok(()));
    assert_eq!(c.join(&id("danny"), Some(id("charlie")), 5), Ok(()));
    assert_eq!(c.join(&id("eugene"), Some(id("danny")), 5), Ok(()));
    c
}

#[test]
fn end_to_end_deposit_without_stake() {
    let mut c = Contract::new(id("root"), 5, vec![10, 20, 30]);
    let mut sale = input(10000, false);
    sale.price = 1000;
    assert_eq!(c.create_sale(&id("root"), sale), Ok(0));
    assert_eq!(c.join(&id("x"), None, 5), Ok(()));
    let r = deposit(&mut c, "x", 100, None, DURING);
    assert!(matches!(r, Ok(DepositOutcome::Value(0))));
    assert_eq!(c.get_sale(0).collected_amount, 100);
    assert_eq!(c.get_sale(0).num_account_sales, 1);
    assert_eq!(c.get_sale(0).get_contribution(&id("x")), 100);
    assert_eq!(c.get_account(&id("x")).referrer, id("root"));
}

#[test]
fn staked_deposit_commits_once_on_success() {
    let mut c = contract_with(10000, true);
    assert_eq!(c.join(&id("r"), None, 5), Ok(()));
    assert_eq!(c.join(&id("x"), Some(id("r")), 5), Ok(()));
    let r = deposit(&mut c, "x", 100, Some("pool.staking"), DURING);
    let check = match r {
        Ok(DepositOutcome::CheckStake(check)) => check,
        _ => panic!("expected a staking check"),
    };
    assert_eq!(check.staking_contract, id("pool.staking"));
    assert_eq!(c.get_sale(0).collected_amount, 0);
    let unused = c.on_get_account_staked_balance(
        Some(500),
        check.sale_id,
        check.token_id,
        check.sender_id,
        check.deposit_amount,
    );
    assert_eq!(unused, Ok(0));
    assert_eq!(c.get_sale(0).collected_amount, 100);
    assert_eq!(c.get_sale(0).num_account_sales, 1);
    assert_eq!(c.get_sale(0).get_contribution(&id("x")), 100);
}

#[test]
fn staked_deposit_returned_when_pool_call_fails() {
    let mut c = contract_with(10000, true);
    assert_eq!(c.join(&id("r"), None, 5), Ok(()));
    assert_eq!(c.join(&id("x"), Some(id("r")), 5), Ok(()));
    assert!(matches!(deposit(&mut c, "x", 100, Some("pool.staking"), DURING), Ok(DepositOutcome::CheckStake(_))));
    let unused = c.on_get_account_staked_balance(None, 0, id("token"), id("x"), 100);
    assert_eq!(unused, Ok(100));
    assert_eq!(c.get_sale(0).collected_amount, 0);
    assert_eq!(c.get_sale(0).num_account_sales, 0);
}

#[test]
fn staked_deposit_returned_when_stake_too_small() {
    let mut c = contract_with(10000, true);
    assert_eq!(c.join(&id("x"), None, 5), Ok(()));
    let unused = c.on_get_account_staked_balance(Some(99), 0, id("token"), id("x"), 100);
    assert_eq!(unused, Ok(100));
    assert_eq!(c.get_sale(0).collected_amount, 0);
    let unused = c.on_get_account_staked_balance(Some(100), 0, id("token"), id("x"), 100);
    assert_eq!(unused, Ok(0));
    assert_eq!(c.get_sale(0).collected_amount, 100);
}

#[test]
fn deposit_not_whitelisted_pool() {
    let mut c = contract_with(10000, true);
    assert_eq!(c.join(&id("x"), None, 5), Ok(()));
    let r = deposit(&mut c, "x", 100, Some("other.staking"), DURING);
    assert!(matches!(r, Err(ContractError::NotWhitelistedStakingContract)));
    let r = deposit(&mut c, "x", 100, None, DURING);
    assert!(matches!(r, Err(ContractError::MustHaveStakingContract)));
    assert_eq!(c.get_sale(0).collected_amount, 0);
}

#[test]
fn deposit_ignores_pool_without_staking_gate() {
    let mut c = contract_with(10000, false);
    assert_eq!(c.join(&id("x"), None, 5), Ok(()));
    let r = deposit(&mut c, "x", 100, Some("any.staking"), DURING);
    assert!(matches!(r, Ok(DepositOutcome::Value(0))));
}

#[test]
fn deposit_wrong_token() {
    let mut c = contract_with(10000, false);
    assert_eq!(c.join(&id("x"), None, 5), Ok(()));
    let r = c.internal_ft_on_transfer(id("other"), id("x"), 100, SaleDeposit { sale_id: 0, staking_contract: None }, DURING);
    assert!(matches!(r, Err(ContractError::WrongToken)));
}

#[test]
fn deposit_over_cap_is_refused() {
    let mut c = contract_with(150, false);
    assert_eq!(c.join(&id("x"), None, 5), Ok(()));
    assert!(matches!(deposit(&mut c, "x", 100, None, DURING), Ok(DepositOutcome::Value(0))));
    assert!(matches!(deposit(&mut c, "x", 100, None, DURING), Err(ContractError::SaleDone)));
    assert_eq!(c.get_sale(0).collected_amount, 100);
    assert!(matches!(deposit(&mut c, "x", 50, None, DURING), Ok(DepositOutcome::Value(0))));
    assert_eq!(c.get_sale(0).collected_amount, 150);
    assert_eq!(c.get_sale(0).num_account_sales, 1);
    assert!(matches!(deposit(&mut c, "x", 1, None, DURING), Err(ContractError::SaleDone)));
    assert_eq!(c.get_sale(0).collected_amount, 150);
}

#[test]
fn deposit_window_edges() {
    let mut c = contract_with(10000, false);
    assert_eq!(c.join(&id("x"), None, 5), Ok(()));
    assert!(matches!(deposit(&mut c, "x", 1, None, OPEN - 1), Err(ContractError::SaleNotStarted)));
    assert!(matches!(deposit(&mut c, "x", 1, None, CLOSE + 1), Err(ContractError::SaleDone)));
    assert_eq!(c.get_sale(0).collected_amount, 0);
    assert!(matches!(deposit(&mut c, "x", 1, None, OPEN), Ok(DepositOutcome::Value(0))));
    assert!(matches!(deposit(&mut c, "x", 1, None, CLOSE), Ok(DepositOutcome::Value(0))));
    assert_eq!(c.get_sale(0).collected_amount, 2);
}

#[test]
fn join_errors() {
    let mut c = contract_with(10000, false);
    assert_eq!(c.join(&id("x"), Some(id("x")), 5), Err(ContractError::SelfReferrer));
    assert_eq!(c.join(&id("x"), None, 4), Err(ContractError::WrongJoinFee));
    assert_eq!(c.get_num_accounts(), 1);
    assert_eq!(c.join(&id("x"), Some(id("nobody")), 5), Ok(()));
    assert_eq!(c.get_account(&id("x")).referrer, id("root"));
    assert_eq!(c.join(&id("x"), None, 5), Err(ContractError::AccountExists));
    assert_eq!(c.join(&id("x"), Some(id("x")), 5), Err(ContractError::AccountExists));
    assert_eq!(c.join(&id("x"), Some(id("root")), 0), Err(ContractError::AccountExists));
    assert_eq!(c.join(&id("root"), None, 5), Err(ContractError::AccountExists));
    assert_eq!(c.get_num_accounts(), 2);
}

#[test]
fn join_fills_three_levels() {
    let c = chain();
    assert!(level_has(&c, "danny", 0, "eugene"));
    assert!(level_has(&c, "charlie", 1, "eugene"));
    assert!(level_has(&c, "bob", 2, "eugene"));
    assert_eq!(level_len(&c, "bob", 0), 1);
    assert_eq!(level_len(&c, "bob", 1), 1);
    assert_eq!(level_len(&c, "bob", 2), 1);
    assert_eq!(level_len(&c, "bob", 3), 0);
    assert_eq!(level_len(&c, "root", 0), 0);
    assert_eq!(level_len(&c, "eugene", 0), 0);
    assert_eq!(c.get_account(&id("bob")).affiliates_num, 3);
    assert_eq!(c.get_account(&id("charlie")).affiliates_num, 2);
    assert_eq!(c.get_account(&id("danny")).affiliates_num, 1);
    assert_eq!(c.get_account(&id("root")).affiliates_num, 0);
}

#[test]
fn affiliate_count_grows_with_joins() {
    let mut c = chain();
    let before = c.get_account(&id("bob")).affiliates_num;
    assert_eq!(c.join(&id("fargo"), Some(id("charlie")), 5), Ok(()));
    let after = c.get_account(&id("bob")).affiliates_num;
    assert_eq!(before, 3);
    assert_eq!(after, 4);
    assert_eq!(c.get_account(&id("charlie")).affiliates_num, 3);
    assert_eq!(c.get_account(&id("danny")).affiliates_num, 1);
}

#[test]
fn update_sale_price_by_non_owner_is_refused() {
    let mut c = contract_with(10000, false);
    assert_eq!(c.update_sale_price(&id("bob"), 0, 1, 2), Err(ContractError::MustBeOwner));
    assert_eq!(c.get_sale(0).price, 1000);
    assert_eq!(c.get_sale(0).max_amount, 10000);
    assert_eq!(c.update_sale_price(&id("root"), 3, 1, 2), Err(ContractError::NoSale));
}

#[test]
fn referral_fees_go_to_three_levels() {
    let mut c = chain();
    assert!(matches!(deposit(&mut c, "eugene", 10000, None, DURING), Ok(DepositOutcome::Value(0))));
    let sale = c.get_sale(0);
    assert_eq!(sale.get_reward(&id("danny")), 10);
    assert_eq!(sale.get_reward(&id("charlie")), 20);
    assert_eq!(sale.get_reward(&id("bob")), 30);
    assert_eq!(sale.get_reward(&id("root")), 0);
    assert_eq!(sale.get_reward(&id("eugene")), 0);
}

#[test]
fn referral_fees_stop_at_the_owner() {
    let mut c = chain();
    assert!(matches!(deposit(&mut c, "charlie", 10000, None, DURING), Ok(DepositOutcome::Value(0))));
    let sale = c.get_sale(0);
    assert_eq!(sale.get_reward(&id("bob")), 10);
    assert_eq!(sale.get_reward(&id("root")), 0);
    assert!(matches!(deposit(&mut c, "bob", 10000, None, DURING), Ok(DepositOutcome::Value(0))));
    assert_eq!(c.get_sale(0).get_reward(&id("root")), 0);
}

#[test]
fn fee_share_values() {
    assert_eq!(compute_fee_share(12345, 10), 12);
    assert_eq!(compute_fee_share(10000, 30), 30);
    assert_eq!(compute_fee_share(9999, 1), 0);
    assert_eq!(compute_fee_share(u128::MAX, 10000), u128::MAX);
    assert_eq!(compute_fee_share(u128::MAX, 0), 0);
}

#[test]
fn affiliate_reward_payout_cycle() {
    let mut c = chain();
    assert!(matches!(deposit(&mut c, "eugene", 10000, None, DURING), Ok(DepositOutcome::Value(0))));
    let t = c.withdraw_affiliate_reward(&id("charlie"), 0).unwrap();
    assert_eq!(t.amount, 20);
    assert_eq!(t.receiver_id, id("charlie"));
    assert_eq!(t.token_id, id("token"));
    assert!(matches!(c.withdraw_affiliate_reward(&id("charlie"), 0), Err(ContractError::RewardTransferPending)));
    // the transfer failed: the reward stays
    assert_eq!(c.after_withdraw_affiliate_reward(&id("charlie"), 20, 0, false), false);
    assert_eq!(c.get_sale(0).get_reward(&id("charlie")), 20);
    let t = c.withdraw_affiliate_reward(&id("charlie"), 0).unwrap();
    assert_eq!(t.amount, 20);
    // a report for another amount matches nothing
    assert_eq!(c.after_withdraw_affiliate_reward(&id("charlie"), 19, 0, true), false);
    assert_eq!(c.after_withdraw_affiliate_reward(&id("charlie"), 20, 0, true), true);
    assert_eq!(c.get_sale(0).get_reward(&id("charlie")), 0);
    assert!(matches!(c.withdraw_affiliate_reward(&id("charlie"), 0), Err(ContractError::NoAffiliateReward)));
    assert!(matches!(c.withdraw_affiliate_reward(&id("root"), 0), Err(ContractError::NoAffiliateReward)));
    assert!(matches!(c.withdraw_affiliate_reward(&id("bob"), 7), Err(ContractError::NoSale)));
}

#[test]
fn accounts_paging() {
    let c = chain();
    assert_eq!(c.get_accounts(0, 10).len(), 5);
    let page = c.get_accounts(1, 2);
    assert_eq!(page.len(), 2);
    assert_eq!(page[0].0, id("bob"));
    assert_eq!(page[0].1.referrer, id("root"));
    assert_eq!(page[0].1.affiliates_num, 3);
    assert_eq!(page[1].0, id("charlie"));
    assert_eq!(c.get_accounts(5, 10).len(), 0);
    assert_eq!(c.get_accounts(3, u64::MAX).len(), 2);
    assert_eq!(page_end(3, u64::MAX, 5), 5);
    assert_eq!(page_end(1, 2, 5), 3);
}

#[test]
fn sales_paging() {
    let mut c = contract_with(100, false);
    assert_eq!(c.create_sale(&id("root"), input(200, false)), Ok(1));
    assert_eq!(c.get_num_sales(), 2);
    assert_eq!(c.get_sales(1, 10).len(), 1);
    assert_eq!(c.get_sales(1, 10)[0].max_amount, 200);
    assert_eq!(c.get_sales(2, 10).len(), 0);
}

#[test]
fn create_sale_date_bounds() {
    let mut c = Contract::new(id("root"), 5, vec![10, 20, 30]);
    let mut s = input(100, false);
    s.start_date = 999_999_999_999_999_999;
    assert_eq!(c.create_sale(&id("root"), s), Err(ContractError::StartDateTooSmall));
    let mut s = input(100, false);
    s.end_date = 10_000_000_000_000_000_001;
    assert_eq!(c.create_sale(&id("root"), s), Err(ContractError::EndDateTooBig));
    let mut s = input(100, false);
    s.start_date = 10_000_000_000_000_000_001;
    s.end_date = 10_000_000_000_000_000_002;
    assert_eq!(c.create_sale(&id("root"), s), Err(ContractError::StartDateTooBig));
    let mut s = input(100, false);
    s.start_date = 1;
    s.end_date = 2;
    assert_eq!(c.create_sale(&id("root"), s), Err(ContractError::StartDateTooSmall));
    let mut s = input(100, false);
    s.start_date = 1_000_000_000_000_000_000;
    s.end_date = 10_000_000_000_000_000_000;
    assert_eq!(c.create_sale(&id("root"), s), Ok(0));
}

#[test]
fn create_sale_min_buy_above_max_buy() {
    let mut c = Contract::new(id("root"), 5, vec![10, 20, 30]);
    let mut s = input(100, false);
    s.min_buy = 60;
    s.max_buy = 50;
    s.limit_per_transaction = 80;
    assert_eq!(c.create_sale(&id("root"), s), Err(ContractError::MaxBuyLessThanMinBuy));
}

#[test]
fn error_codes() {
    assert_eq!(ContractError::SaleDone.code(), "ERR_SALE_DONE");
    assert_eq!(ContractError::NotRegisteredAccount.code(), "ERR_NOT_REGISTERED_ACCOUNT");
    assert_eq!(ContractError::LimitPerTransactionTooBig.code(), "LIMIT_PER_TRANSACTION_IS_TO_BIG");
}

#[test]
fn migration_moves_old_accounts() {
    let old = OldContract {
        owner_id: id("root"),
        join_fee: 5,
        referral_fees: vec![10, 20, 30],
        accounts: vec![
            (id("root"), AccountOld { referrer: id("root"), links: vec![] }),
            (id("bob"), AccountOld { referrer: id("root"), links: vec![vec![1, 2, 3]] }),
            (id("charlie"), AccountOld { referrer: id("bob"), links: vec![] }),
        ],
        sales: vec![],
        links: vec![(vec![1, 2, 3], id("bob"))],
        num_sales: 0,
    };
    let mut c = Contract::migrate_a0(old);
    assert_eq!(c.account_ids.len(), 0);
    assert_eq!(c.accounts_old.len(), 3);
    assert_eq!(c.get_num_sales(), 0);
    c.migrate_a1(2);
    assert_eq!(c.account_ids, vec![id("root"), id("bob")]);
    assert_eq!(c.accounts_old.len(), 1);
    c.migrate_a1(10);
    assert_eq!(c.accounts_old.len(), 0);
    assert_eq!(c.account_ids, vec![id("root"), id("bob"), id("charlie")]);
    // the records come over as they were: same referrer, no affiliates
    let charlie = c.accounts[2].account();
    assert_eq!(charlie.referrer, id("bob"));
    assert!(charlie.affiliates.is_empty());
    assert!(c.accounts[1].account().affiliates.is_empty());
}

#[test]
fn migrated_state_is_rebuilt() {
    let old = OldContract {
        owner_id: id("root"),
        join_fee: 5,
        referral_fees: vec![10, 20, 30],
        accounts: vec![
            (id("root"), AccountOld { referrer: id("root"), links: vec![] }),
            (id("bob"), AccountOld { referrer: id("root"), links: vec![] }),
            (id("charlie"), AccountOld { referrer: id("bob"), links: vec![] }),
            (id("eve"), AccountOld { referrer: id("zed"), links: vec![] }),
            (id("zed"), AccountOld { referrer: id("root"), links: vec![] }),
        ],
        sales: vec![],
        links: vec![],
        num_sales: 0,
    };
    let mut c = Contract::migrate_a0(old);
    c.migrate_a1(u64::MAX);
    let mut c = c.into_consistent();
    assert_eq!(c.account_ids, vec![id("root"), id("bob"), id("charlie"), id("eve"), id("zed")]);
    assert_eq!(c.get_account(&id("charlie")).referrer, id("bob"));
    // eve's referrer came after it, so eve goes under the owner
    assert_eq!(c.get_account(&id("eve")).referrer, id("root"));
    assert_eq!(c.get_account(&id("bob")).affiliates_num, 1);
    assert_eq!(c.join(&id("danny"), Some(id("charlie")), 5), Ok(()));
    assert_eq!(c.get_account(&id("bob")).affiliates_num, 2);
    assert_eq!(c.get_account(&id("charlie")).affiliates_num, 1);
    assert_eq!(c.get_account(&id("root")).affiliates_num, 0);
}
