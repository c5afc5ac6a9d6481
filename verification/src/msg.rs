use vstd::prelude::*;

verus! {

/// One initial account seed: an account identity and its starting balance.
#[derive(Clone, Debug, PartialEq, Eq)]
pub struct InitialBalance {
    pub address: String,
    pub amount: u128,
}

/// Creation-time parameters: the admin identity and the initial balances.
#[derive(Clone, Debug, PartialEq, Eq)]
pub struct InstantiateMsg {
    pub admin: String,
    pub initial_balances: Vec<InitialBalance>,
}

/// The mutating operations of the core.
#[derive(Clone, Debug, PartialEq, Eq)]
pub enum ExecuteMsg {
    UpdateBeverage { bev_type: String, price: u128 },
    RefillBeverage { bev_type: String, amount: u8 },
    Purchase { bev_type: String },
    WithdrawIncome {},
}

/// The read-only queries of the core.
#[derive(Clone, Debug, PartialEq, Eq)]
pub enum QueryMsg {
    Balance { address: String },
    BeverageStat { bev_type: String },
}

/// The answer to a read-only query.
#[derive(Clone, Copy, Debug, PartialEq, Eq, Structural)]
pub enum QueryResponse {
    Balance { balance: u128 },
    BeverageStat { stat: crate::state::BeverageStat },
}

/// Builds the message that creates an item or updates its price.
pub fn new_item_msg(name: &str, price: u16) -> (m: ExecuteMsg)
    ensures
        m matches ExecuteMsg::UpdateBeverage { bev_type, price: p }
            && bev_type@ == name@ && p == price as u128,
{
    ExecuteMsg::UpdateBeverage { bev_type: name.to_owned(), price: price as u128 }
}

/// Builds the message that restocks an item by `amount` units.
pub fn refill_beverage_msg(name: &str, amount: u8) -> (m: ExecuteMsg)
    ensures
        m matches ExecuteMsg::RefillBeverage { bev_type, amount: a }
            && bev_type@ == name@ && a == amount,
{
    ExecuteMsg::RefillBeverage { bev_type: name.to_owned(), amount }
}

/// Builds the message that purchases one unit of an item.
pub fn purchase_msg(name: &str) -> (m: ExecuteMsg)
    ensures
        m matches ExecuteMsg::Purchase { bev_type } && bev_type@ == name@,
{
    ExecuteMsg::Purchase { bev_type: name.to_owned() }
}

} // verus!
