use referral_sale::contract::Contract;
use referral_sale::error::ContractError;
use referral_sale::sale::{SaleInput, SaleMetadata, SaleType};
use referral_sale::token_receiver::{DepositOutcome, SaleDeposit};

fn accounts(i: usize) -> String {
    ["alice", "bob", "charlie", "danny", "eugene", "fargo"][i].to_string()
}

fn metadata() -> SaleMetadata {
    SaleMetadata {
        name: "test".to_string(),
        symbol: "TEST".to_string(),
        description: "".to_string(),
        smart_contract_url: "".to_string(),
        logo_url: "".to_string(),
        output_ticker: "".to_string(),
        project_telegram: None,
        project_medium: None,
        project_twitter: None,
        reward_timestamp: None,
        reward_description: None,
    }
}

fn sale_input(max_amount: u128, start_date: u64, end_date: u64) -> SaleInput {
    SaleInput {
        metadata: metadata(),
        staking_contracts: vec!["test.staking".to_string()],
        min_near_deposit: 100,
        deposit_token_id: accounts(1),
        distribute_token_id: None,
        distribute_token_decimals: Some(8),
        min_buy: 10,
        max_buy: max_amount,
        max_amount,
        start_date,
        end_date,
        price: 1000,
        whitelist_hash: None,
        limit_per_transaction: max_amount,
        sale_type: SaleType::ByAmount,
    }
}

fn contract_with_sale_info(max_amount: u128, start_date: u64, end_date: u64) -> Contract {
    let referral_fees = vec![10, 20, 30];
    let mut contract = Contract::new(accounts(0), 1_000_000, referral_fees.clone());
    let id = contract.create_sale(&accounts(0), sale_input(max_amount, start_date, end_date));
    assert_eq!(id, Ok(0));
    assert_eq!(contract.get_referral_fees(), referral_fees);
    assert_eq!(contract.get_join_fee(), 1_000_000);
    contract
}

fn contract_with_sale() -> Contract {
    contract_with_sale_info(10000, 1_000_000_000_000_100_000, 9_999_999_999_500_000_000)
}

fn correct_input_sale() -> SaleInput {
    SaleInput {
        metadata: metadata(),
        staking_contracts: vec!["test.staking".to_string()],
        min_near_deposit: 100,
        deposit_token_id: accounts(1),
        distribute_token_id: None,
        distribute_token_decimals: Some(8),
        min_buy: 10,
        max_buy: 100,
        max_amount: 1000,
        start_date: 1_000_000_000_100_000_000,
        end_date: 1_000_000_000_200_000_000,
        price: 1000,
        whitelist_hash: None,
        limit_per_transaction: 100,
        sale_type: SaleType::ByAmount,
    }
}

fn contract_without_sale() -> Contract {
    Contract::new(accounts(0), 1_000_000, vec![10, 20, 30])
}

fn register_account(contract: &mut Contract, account_id: String) {
    assert_eq!(contract.join(&account_id, None, 1000000), Ok(()));
}

fn deposit_at(contract: &mut Contract, account_id: String, now: u64) -> Result<DepositOutcome, ContractError> {
    contract.internal_ft_on_transfer(
        accounts(1),
        account_id,
        100,
        SaleDeposit { sale_id: 0, staking_contract: None },
        now,
    )
}

#[test]
fn test_basics() {
    let mut contract = contract_with_sale();
    assert_eq!(contract.get_num_sales(), 1);
    assert_eq!(contract.get_sale(0).price, 1000);
    assert_eq!(contract.get_sales(0, 10).len(), 1);

    assert_eq!(contract.join(&accounts(2), None, 1000000), Ok(()));
    assert_eq!(contract.get_account(&accounts(2)).referrer, accounts(0));

    let now = 1_000_000_000_600_000_000;
    let outcome = contract.internal_ft_on_transfer(
        accounts(1),
        accounts(2),
        100,
        SaleDeposit { sale_id: 0, staking_contract: Some("test.staking".to_string()) },
        now,
    );
    match outcome {
        Ok(DepositOutcome::CheckStake(check)) => {
            assert_eq!(check.staking_contract, "test.staking");
            assert_eq!(check.sale_id, 0);
            assert_eq!(check.sender_id, accounts(2));
            assert_eq!(check.deposit_amount, 100);
        }
        _ => panic!("expected a staking check"),
    }
    assert_eq!(contract.get_sale(0).collected_amount, 0);

    let unused = contract.on_get_account_staked_balance(Some(1000), 0, accounts(1), accounts(2), 100);
    assert_eq!(unused, Ok(0));

    assert_eq!(contract.get_sale(0).num_account_sales, 1);
    assert_eq!(contract.get_sale(0).collected_amount, 100);

    assert_eq!(contract.get_num_accounts(), 2);
    assert_eq!(contract.get_accounts(0, 10).len(), 2);
    assert_eq!(contract.get_account(&accounts(2)).referrer, accounts(0));
}

#[test]
fn test_not_registered() {
    let mut contract = contract_with_sale();
    let r = deposit_at(&mut contract, accounts(2), 0);
    assert!(matches!(r, Err(ContractError::NotRegisteredAccount)));
}

#[test]
fn test_no_sale() {
    let mut contract = contract_with_sale();
    register_account(&mut contract, accounts(2));
    let r = contract.internal_ft_on_transfer(
        accounts(1),
        accounts(2),
        100,
        SaleDeposit { sale_id: 1, staking_contract: None },
        0,
    );
    assert!(matches!(r, Err(ContractError::NoSale)));
}

#[test]
fn test_sale_too_early() {
    let mut contract =
        contract_with_sale_info(100, 1_000_000_000_100_000_000, 1_000_000_000_500_000_000);
    register_account(&mut contract, accounts(2));
    let r = deposit_at(&mut contract, accounts(2), 0);
    assert!(matches!(r, Err(ContractError::SaleNotStarted)));
    assert_eq!(contract.get_sale(0).collected_amount, 0);
    assert_eq!(contract.get_sale(0).num_account_sales, 0);
}

#[test]
fn test_sale_too_late() {
    let mut contract =
        contract_with_sale_info(100, 1_000_000_000_100_000_000, 1_000_000_000_500_000_000);
    register_account(&mut contract, accounts(2));
    let r = deposit_at(&mut contract, accounts(2), 1_000_000_000_600_000_000);
    assert!(matches!(r, Err(ContractError::SaleDone)));
    assert_eq!(contract.get_sale(0).collected_amount, 0);
    assert_eq!(contract.get_sale(0).num_account_sales, 0);
}

#[test]
fn test_update_sale_price() {
    let mut contract = contract_with_sale();
    assert_eq!(contract.update_sale_price(&accounts(0), 0, 1234, 12345), Ok(()));
    assert_eq!(contract.get_sale(0).price, 1234);
    assert_eq!(contract.get_sale(0).max_amount, 12345);
}

#[test]
fn test_claim_and_refund_available_is_false_by_default() {
    let contract = contract_with_sale();
    let sale = contract.get_sale(0);
    assert_eq!(sale.refund_available, false);
    assert_eq!(sale.claim_available, false);
}

#[test]
fn create_sale_not_from_owner() {
    let mut contract = Contract::new(accounts(0), 1_000_000, vec![10, 20, 30]);
    let r = contract.create_sale(&accounts(1), correct_input_sale());
    assert_eq!(r, Err(ContractError::MustBeOwner));
    assert_eq!(contract.get_num_sales(), 0);
}

#[test]
fn create_sale_by_amount_with_zero_max_amount() {
    let mut contract = contract_without_sale();
    let mut sale = correct_input_sale();
    sale.max_amount = 0;
    assert_eq!(contract.create_sale(&accounts(0), sale), Err(ContractError::MustHaveMaxAmount));
}

#[test]
fn create_sale_by_subscription_with_zero_max_amount() {
    let mut contract = contract_without_sale();
    let mut sale = correct_input_sale();
    sale.max_amount = 0;
    sale.sale_type = SaleType::BySubscription;
    assert_eq!(contract.create_sale(&accounts(0), sale), Ok(0));
}

#[test]
fn create_sale_by_amount_with_big_limit_per_transaction() {
    let mut contract = contract_without_sale();
    let mut sale = correct_input_sale();
    sale.limit_per_transaction = sale.max_amount + 100;
    assert_eq!(
        contract.create_sale(&accounts(0), sale),
        Err(ContractError::LimitPerTransactionTooBig)
    );
}

#[test]
fn create_sale_by_subscription_with_big_limit_per_transaction() {
    let mut contract = contract_without_sale();
    let mut sale = correct_input_sale();
    sale.sale_type = SaleType::BySubscription;
    sale.limit_per_transaction = sale.max_amount + 100;
    assert_eq!(contract.create_sale(&accounts(0), sale), Ok(0));
}

#[test]
fn create_sale_with_small_limit_per_transaction() {
    let mut contract = contract_without_sale();
    let mut sale = correct_input_sale();
    sale.limit_per_transaction = sale.min_buy - 1;
    assert_eq!(
        contract.create_sale(&accounts(0), sale),
        Err(ContractError::LimitPerTransactionTooSmall)
    );
}

#[test]
fn create_sale_with_no_decimals() {
    let mut contract = contract_without_sale();
    let mut sale = correct_input_sale();
    sale.distribute_token_decimals = None;
    assert_eq!(contract.create_sale(&accounts(0), sale), Err(ContractError::NoTokenDecimals));
}

#[test]
fn create_sale_with_zero_decimals() {
    let mut contract = contract_without_sale();
    let mut sale = correct_input_sale();
    sale.distribute_token_decimals = Some(0);
    assert_eq!(contract.create_sale(&accounts(0), sale), Err(ContractError::WrongDecimals));
}

#[test]
fn create_sale_with_wrong_dates() {
    let mut contract = contract_without_sale();
    let mut sale = correct_input_sale();
    sale.end_date = sale.start_date - 100;
    assert_eq!(contract.create_sale(&accounts(0), sale), Err(ContractError::WrongDates));
}

#[test]
fn create_sale_with_big_stat_date() {
    let mut contract = contract_without_sale();
    let mut sale = correct_input_sale();
    sale.start_date = sale.start_date * 10;
    // the start now lies after the end, which is checked before the bounds
    assert_eq!(contract.create_sale(&accounts(0), sale), Err(ContractError::WrongDates));
}

#[test]
fn create_sale_with_small_stat_date() {
    let mut contract = contract_without_sale();
    let mut sale = correct_input_sale();
    sale.start_date = sale.start_date / 100;
    assert_eq!(contract.create_sale(&accounts(0), sale), Err(ContractError::StartDateTooSmall));
}

#[test]
fn create_sale_with_big_end_date() {
    let mut contract = contract_without_sale();
    let mut sale = correct_input_sale();
    sale.end_date = sale.end_date * 10;
    assert_eq!(contract.create_sale(&accounts(0), sale), Err(ContractError::EndDateTooBig));
}

#[test]
fn create_sale_with_small_end_date() {
    let mut contract = contract_without_sale();
    let mut sale = correct_input_sale();
    sale.end_date = sale.end_date / 100;
    // the end now lies before the start, which is checked before the bounds
    assert_eq!(contract.create_sale(&accounts(0), sale), Err(ContractError::WrongDates));
}

#[test]
fn create_sale_with_no_min_near_deposit() {
    let mut contract = contract_without_sale();
    let mut sale = correct_input_sale();
    sale.min_near_deposit = 0;
    assert_eq!(contract.create_sale(&accounts(0), sale), Err(ContractError::WrongMinNearDeposit));
}

#[test]
fn create_sale_with_no_staking_contracts() {
    let mut contract = contract_without_sale();
    let mut sale = correct_input_sale();
    sale.staking_contracts.clear();
    assert_eq!(contract.create_sale(&accounts(0), sale), Err(ContractError::NoStakingContracts));
}

#[test]
fn create_sale_without_staking_contracts_and_min_near_deposit() {
    let mut contract = contract_without_sale();
    let mut sale = correct_input_sale();
    sale.min_near_deposit = 0;
    sale.staking_contracts.clear();
    assert_eq!(contract.create_sale(&accounts(0), sale), Ok(0));
}
