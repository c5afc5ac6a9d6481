use vending_machine::contract::{execute, instantiate, query};
use vending_machine::msg::{new_item_msg, refill_beverage_msg, InitialBalance, InstantiateMsg};
use vending_machine::msg::{QueryMsg, QueryResponse};
use vending_machine::state::{BeverageStat, VendingMachine, MAX_STOCK};

fn balance(m: &VendingMachine, addr: &str) -> u128 {
    match query(
        m,
        QueryMsg::Balance {
            address: addr.to_string(),
        },
    ) {
        Ok(QueryResponse::Balance { balance }) => balance,
        other => panic!("unexpected balance answer: {:?}", other),
    }
}

#[test]
fn parts_round_trip_preserves_the_machine() {
    let msg = InstantiateMsg {
        admin: "admin".to_string(),
        initial_balances: vec![
            InitialBalance {
                address: "a".to_string(),
                amount: 4,
            },
            InitialBalance {
                address: "b".to_string(),
                amount: 6,
            },
        ],
    };
    let mut m = instantiate("till".to_string(), msg);
    execute(&mut m, &"admin".to_string(), new_item_msg("latte", 5)).unwrap();
    execute(&mut m, &"admin".to_string(), refill_beverage_msg("latte", 3)).unwrap();

    let rebuilt = VendingMachine::from_parts(
        m.admin().clone(),
        m.till().clone(),
        m.balance_entries().clone(),
        m.beverage_entries().clone(),
    )
    .unwrap();

    assert_eq!(rebuilt.admin(), "admin");
    assert_eq!(rebuilt.till(), "till");
    assert_eq!(balance(&rebuilt, "a"), 4);
    assert_eq!(balance(&rebuilt, "b"), 6);
    assert_eq!(balance(&rebuilt, "till"), 0);
    let stat = match query(
        &rebuilt,
        QueryMsg::BeverageStat {
            bev_type: "latte".to_string(),
        },
    ) {
        Ok(QueryResponse::BeverageStat { stat }) => stat,
        other => panic!("unexpected stat answer: {:?}", other),
    };
    assert_eq!(stat.price, 5);
    assert_eq!(stat.amount, 3);
}

#[test]
fn from_parts_rejects_malformed_state() {
    // a repeated account
    let r = VendingMachine::from_parts(
        "admin".to_string(),
        "till".to_string(),
        vec![("a".to_string(), 1), ("a".to_string(), 2)],
        vec![],
    );
    assert!(r.is_none());

    // balances that sum beyond the balance width
    let r = VendingMachine::from_parts(
        "admin".to_string(),
        "till".to_string(),
        vec![("a".to_string(), u128::MAX), ("b".to_string(), 1)],
        vec![],
    );
    assert!(r.is_none());

    // a stock above the capacity
    let r = VendingMachine::from_parts(
        "admin".to_string(),
        "till".to_string(),
        vec![],
        vec![(
            "latte".to_string(),
            BeverageStat {
                price: 1,
                amount: MAX_STOCK + 1,
            },
        )],
    );
    assert!(r.is_none());

    // a repeated item
    let r = VendingMachine::from_parts(
        "admin".to_string(),
        "till".to_string(),
        vec![],
        vec![
            ("latte".to_string(), BeverageStat { price: 1, amount: 0 }),
            ("latte".to_string(), BeverageStat { price: 2, amount: 0 }),
        ],
    );
    assert!(r.is_none());

    // the largest acceptable ledger is accepted
    let r = VendingMachine::from_parts(
        "admin".to_string(),
        "till".to_string(),
        vec![("a".to_string(), u128::MAX)],
        vec![(
            "latte".to_string(),
            BeverageStat {
                price: 1,
                amount: MAX_STOCK,
            },
        )],
    );
    assert!(r.is_some());
}
