use vending_machine::contract::{execute, instantiate, query};
use vending_machine::error::ContractError;
use vending_machine::msg::{ExecuteMsg, InitialBalance, InstantiateMsg, QueryMsg, QueryResponse};
use vending_machine::state::{BeverageStat, VendingMachine};

const CONTRACT_ADDR: &str = "cosmos2contract";

fn do_instantiate() -> VendingMachine {
    let initial_balances = vec![InitialBalance {
        address: "addr0".to_string(),
        amount: 10,
    }];
    let msg = InstantiateMsg {
        admin: "admin".to_string(),
        initial_balances,
    };
    instantiate(CONTRACT_ADDR.to_string(), msg)
}

fn query_balance(m: &VendingMachine, addr: &str) -> u128 {
    match query(
        m,
        QueryMsg::Balance {
            address: addr.to_string(),
        },
    ) {
        Ok(QueryResponse::Balance { balance }) => balance,
        other => panic!("unexpected balance answer: {:?}", other),
    }
}

fn query_stat(m: &VendingMachine, bev_type: &str) -> BeverageStat {
    match query(
        m,
        QueryMsg::BeverageStat {
            bev_type: bev_type.to_string(),
        },
    ) {
        Ok(QueryResponse::BeverageStat { stat }) => stat,
        other => panic!("unexpected stat answer: {:?}", other),
    }
}

#[test]
fn proper_initialization() {
    let m = do_instantiate();
    assert_eq!(10, query_balance(&m, "addr0"));
}

#[test]
fn test_update_beverage() {
    let mut m = do_instantiate();

    execute(
        &mut m,
        &"admin".to_string(),
        ExecuteMsg::UpdateBeverage {
            bev_type: "americano".to_string(),
            price: 2,
        },
    )
    .unwrap();

    let value = query_stat(&m, "americano");
    assert_eq!(2, value.price)
}

#[test]
fn test_refill_beverage() {
    let mut m = do_instantiate();

    execute(
        &mut m,
        &"admin".to_string(),
        ExecuteMsg::UpdateBeverage {
            bev_type: "americano".to_string(),
            price: 2,
        },
    )
    .unwrap();

    execute(
        &mut m,
        &"admin".to_string(),
        ExecuteMsg::RefillBeverage {
            bev_type: "americano".to_string(),
            amount: 20,
        },
    )
    .unwrap();

    let value = query_stat(&m, "americano");
    assert_eq!(2, value.price);
    assert_eq!(20, value.amount);

    // trying to exceed 50 items
    let res = execute(
        &mut m,
        &"admin".to_string(),
        ExecuteMsg::RefillBeverage {
            bev_type: "americano".to_string(),
            amount: 31,
        },
    )
    .unwrap_err();

    assert!(matches!(res, ContractError::BeverageNumberExceed))
}

#[test]
fn test_purchase() {
    let mut m = do_instantiate();

    execute(
        &mut m,
        &"admin".to_string(),
        ExecuteMsg::UpdateBeverage {
            bev_type: "americano".to_string(),
            price: 2,
        },
    )
    .unwrap();

    execute(
        &mut m,
        &"admin".to_string(),
        ExecuteMsg::RefillBeverage {
            bev_type: "americano".to_string(),
            amount: 1,
        },
    )
    .unwrap();

    execute(
        &mut m,
        &"addr0".to_string(),
        ExecuteMsg::Purchase {
            bev_type: "americano".to_string(),
        },
    )
    .unwrap();

    assert_eq!(8, query_balance(&m, "addr0"));
    assert_eq!(2, query_balance(&m, CONTRACT_ADDR));

    // trying to purchase one more americano but it should be over
    let res = execute(
        &mut m,
        &"addr0".to_string(),
        ExecuteMsg::Purchase {
            bev_type: "americano".to_string(),
        },
    )
    .unwrap_err();

    assert!(matches!(res, ContractError::BeverageIsOver));

    // increase the price for americano to 9 coins
    execute(
        &mut m,
        &"admin".to_string(),
        ExecuteMsg::UpdateBeverage {
            bev_type: "americano".to_string(),
            price: 9,
        },
    )
    .unwrap();

    // trying to purchase one more americano with price 9 coins
    let res = execute(
        &mut m,
        &"addr0".to_string(),
        ExecuteMsg::Purchase {
            bev_type: "americano".to_string(),
        },
    )
    .unwrap_err();

    assert!(matches!(res, ContractError::NotEnoughCoins))
}

#[test]
fn test_withraw() {
    let mut m = do_instantiate();

    execute(
        &mut m,
        &"admin".to_string(),
        ExecuteMsg::UpdateBeverage {
            bev_type: "americano".to_string(),
            price: 2,
        },
    )
    .unwrap();

    execute(
        &mut m,
        &"admin".to_string(),
        ExecuteMsg::RefillBeverage {
            bev_type: "americano".to_string(),
            amount: 1,
        },
    )
    .unwrap();

    execute(
        &mut m,
        &"addr0".to_string(),
        ExecuteMsg::Purchase {
            bev_type: "americano".to_string(),
        },
    )
    .unwrap();

    execute(&mut m, &"admin".to_string(), ExecuteMsg::WithdrawIncome {}).unwrap();

    assert_eq!(2, query_balance(&m, "admin"));
    assert_eq!(0, query_balance(&m, CONTRACT_ADDR));

    let res = execute(
        &mut m,
        &"random_user".to_string(),
        ExecuteMsg::WithdrawIncome {},
    )
    .unwrap_err();

    assert!(matches!(res, ContractError::Unauthorized))
}

#[test]
fn test_not_found() {
    let mut m = do_instantiate();

    let res = execute(
        &mut m,
        &"addr0".to_string(),
        ExecuteMsg::Purchase {
            bev_type: "americano".to_string(),
        },
    )
    .unwrap_err();

    assert!(matches!(res, ContractError::NotFound))
}
