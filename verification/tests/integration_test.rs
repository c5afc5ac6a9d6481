use vending_machine::contract::{execute, instantiate, query};
use vending_machine::error::ContractError;
use vending_machine::msg::{new_item_msg, purchase_msg, refill_beverage_msg};
use vending_machine::msg::{ExecuteMsg, InitialBalance, InstantiateMsg, QueryMsg, QueryResponse};
use vending_machine::state::{BeverageStat, VendingMachine};

fn query_bev_stat(m: &VendingMachine, name: &str) -> BeverageStat {
    match query(
        m,
        QueryMsg::BeverageStat {
            bev_type: name.to_string(),
        },
    ) {
        Ok(QueryResponse::BeverageStat { stat }) => stat,
        other => panic!("unexpected stat answer: {:?}", other),
    }
}

fn balance(m: &VendingMachine, addr: &str) -> u128 {
    match query(
        m,
        QueryMsg::Balance {
            address: addr.to_string(),
        },
    ) {
        Ok(QueryResponse::Balance { balance }) => balance,
        other => panic!("unexpected balance answer: {:?}", other),
    }
}

fn create_and_refill(m: &mut VendingMachine, sender: &str, name: &str, price: u16, amount: u8) {
    let new_msg = new_item_msg(name, price);
    execute(m, &sender.to_string(), new_msg).unwrap();
    let refill_msg = refill_beverage_msg(name, amount);
    execute(m, &sender.to_string(), refill_msg).unwrap();
}

#[test]
fn test_vending_machine() {
    let admin = "admin".to_string();
    let customer = "addr0".to_string();
    let cash_addr = "contract0".to_string();

    // set up contract
    let msg = InstantiateMsg {
        admin: admin.clone(),
        initial_balances: vec![InitialBalance {
            address: "addr0".to_string(),
            amount: 10,
        }],
    };
    let mut m = instantiate(cash_addr.clone(), msg);

    // ensure our balance
    assert_eq!(balance(&m, &admin), 0);

    create_and_refill(&mut m, &admin, "americano", 2, 1);
    create_and_refill(&mut m, &admin, "cappuccino", 4, 49);
    create_and_refill(&mut m, &admin, "latte", 5, 2);

    execute(&mut m, &customer, purchase_msg("americano")).unwrap();
    execute(&mut m, &customer, purchase_msg("latte")).unwrap();

    // check errors
    let err = execute(&mut m, &customer, purchase_msg("americano")).unwrap_err();
    assert!(matches!(err, ContractError::BeverageIsOver));

    let err = execute(&mut m, &customer, purchase_msg("cappuccino")).unwrap_err();
    assert!(matches!(err, ContractError::NotEnoughCoins));

    // triggering overflow (above 50) since 49 items are there
    let refill_msg = refill_beverage_msg("cappuccino", 2);
    let err = execute(&mut m, &admin, refill_msg.clone()).unwrap_err();
    assert!(matches!(err, ContractError::BeverageNumberExceed));

    // trying to purchase an item which does not exist
    let err = execute(&mut m, &customer, purchase_msg("water")).unwrap_err();
    assert!(matches!(err, ContractError::NotFound));

    // check protected endpoints
    let err = execute(&mut m, &customer, refill_msg).unwrap_err();
    assert!(matches!(err, ContractError::Unauthorized));

    let beer_msg = new_item_msg("beer", 100);
    let err = execute(&mut m, &customer, beer_msg).unwrap_err();
    assert!(matches!(err, ContractError::Unauthorized));

    let err = execute(&mut m, &customer, ExecuteMsg::WithdrawIncome {}).unwrap_err();
    assert!(matches!(err, ContractError::Unauthorized));

    // ensure balances
    assert_eq!(balance(&m, &admin), 0);
    assert_eq!(balance(&m, &customer), 3);
    assert_eq!(balance(&m, &cash_addr), 7);

    // ensure beverages stats
    let americano = query_bev_stat(&m, "americano");
    assert_eq!(2, americano.price);
    assert_eq!(0, americano.amount);

    let latte = query_bev_stat(&m, "latte");
    assert_eq!(5, latte.price);
    assert_eq!(1, latte.amount);

    let latte = query_bev_stat(&m, "cappuccino");
    assert_eq!(4, latte.price);
    assert_eq!(49, latte.amount);

    // withdraw income and ensure balances again
    execute(&mut m, &admin, ExecuteMsg::WithdrawIncome {}).unwrap();

    assert_eq!(balance(&m, &admin), 7);
    assert_eq!(balance(&m, &customer), 3);
    assert_eq!(balance(&m, &cash_addr), 0);
}
