use vstd::prelude::*;

use crate::catalog::Catalog;
use crate::error::ContractError;
use crate::ledger::{balance_or_zero, sum_of, Ledger};
use crate::store::{keys_unique, map_of};

verus! {

/// The largest number of units of one item that the machine can hold.
pub const MAX_STOCK: u8 = 50;

/// The catalog record of one item: its price in ledger units and the
/// number of units currently in stock.
#[derive(Clone, Copy, Debug, PartialEq, Eq, Structural)]
pub struct BeverageStat {
    pub price: u128,
    pub amount: u8,
}

impl Default for BeverageStat {
    /// A fresh record: price zero, nothing in stock.
    fn default() -> (r: Self)
        ensures
            r == (BeverageStat { price: 0, amount: 0 }),
    {
        BeverageStat { price: 0, amount: 0 }
    }
}

impl BeverageStat {
    /// Adds `amount` units of stock; rejected when the result would
    /// exceed the capacity, leaving the record unchanged.
    pub fn refill(self, amount: u8) -> (r: Result<Self, ContractError>)
        ensures
            self.amount + amount <= MAX_STOCK ==> r == Ok::<Self, ContractError>(
                BeverageStat { price: self.price, amount: (self.amount + amount) as u8 },
            ),
            self.amount + amount > MAX_STOCK ==> r == Err::<Self, ContractError>(
                ContractError::BeverageNumberExceed,
            ),
    {
        let total: u16 = self.amount as u16 + amount as u16;
        if total > MAX_STOCK as u16 {
            Err(ContractError::BeverageNumberExceed)
        } else {
            Ok(BeverageStat { price: self.price, amount: total as u8 })
        }
    }

    /// Removes one unit of stock; rejected when the stock is already zero.
    pub fn sell(self) -> (r: Result<Self, ContractError>)
        ensures
            self.amount > 0 ==> r == Ok::<Self, ContractError>(
                BeverageStat { price: self.price, amount: (self.amount - 1) as u8 },
            ),
            self.amount == 0 ==> r == Err::<Self, ContractError>(ContractError::BeverageIsOver),
    {
        if self.amount == 0 {
            Err(ContractError::BeverageIsOver)
        } else {
            Ok(BeverageStat { price: self.price, amount: self.amount - 1 })
        }
    }
}

/// The whole shared state of the machine: the admin identity, the machine's
/// own till account, the balance ledger and the item catalog.
pub struct VendingMachine {
    pub(crate) admin: String,
    pub(crate) till: String,
    pub(crate) ledger: Ledger,
    pub(crate) catalog: Catalog,
}

impl VendingMachine {
    /// The identity that every gated operation is checked against.
    pub open(crate) spec fn admin_id(&self) -> Seq<char> {
        self.admin@
    }

    /// The identity of the machine's own account, where proceeds accumulate.
    pub open(crate) spec fn till_id(&self) -> Seq<char> {
        self.till@
    }

    /// The balance of every account that was ever written.
    pub open(crate) spec fn balances(&self) -> Map<Seq<char>, u128> {
        self.ledger@
    }

    /// The record of every item that was ever created.
    pub open(crate) spec fn beverages(&self) -> Map<Seq<char>, BeverageStat> {
        self.catalog@
    }

    /// The sum of every account's balance, the till included.
    pub open(crate) spec fn total(&self) -> int {
        self.ledger.total()
    }

    /// Well-formed: both stores hold their own invariants.
    pub open(crate) spec fn wf(&self) -> bool {
        self.ledger.wf() && self.catalog.wf()
    }

    /// Every known item's stock lies within the capacity, at all times.
    pub proof fn lemma_stock_capacity(&self)
        requires
            self.wf(),
        ensures
            forall|k: Seq<char>| #[trigger] self.beverages().contains_key(k)
                ==> self.beverages()[k].amount <= MAX_STOCK,
    {
        self.catalog.lemma_stock_capacity();
    }

    /// The sum of all balances is non-negative and fits the balance width.
    pub proof fn lemma_total_bounds(&self)
        requires
            self.wf(),
        ensures
            0 <= self.total() <= u128::MAX,
    {
        self.ledger.lemma_total_bounds();
    }

    /// No single account, the till included, holds more than the total.
    pub proof fn lemma_balance_le_total(&self, k: Seq<char>)
        requires
            self.wf(),
        ensures
            balance_or_zero(self.balances(), k) <= self.total(),
    {
        self.ledger.lemma_balance_le_total(k);
    }

    /// Whether a set of persisted parts describes a well-formed machine:
    /// no account and no item listed twice, the balances sum within the
    /// balance width, and every stock within the capacity.
    pub open spec fn parts_valid(
        balances: Seq<(String, u128)>,
        beverages: Seq<(String, BeverageStat)>,
    ) -> bool {
        &&& keys_unique(balances)
        &&& sum_of(balances) <= u128::MAX
        &&& keys_unique(beverages)
        &&& forall|i: int| 0 <= i < beverages.len() ==> beverages[i].1.amount <= MAX_STOCK
    }

    /// Rebuilds a machine from parts that a host persisted, accepting them
    /// exactly when they describe a well-formed machine.
    pub fn from_parts(
        admin: String,
        till: String,
        balances: Vec<(String, u128)>,
        beverages: Vec<(String, BeverageStat)>,
    ) -> (r: Option<VendingMachine>)
        ensures
            r is Some <==> Self::parts_valid(balances@, beverages@),
            r matches Some(m) ==> m.wf() && m.admin_id() == admin@ && m.till_id() == till@
                && m.balances() == map_of(balances@) && m.beverages() == map_of(beverages@),
    {
        let ledger = match Ledger::try_from_entries(balances) {
            Some(l) => l,
            None => {
                return None;
            },
        };
        let catalog = match Catalog::try_from_entries(beverages) {
            Some(c) => c,
            None => {
                return None;
            },
        };
        Some(VendingMachine { admin, till, ledger, catalog })
    }

    /// The admin identity, as the host stores it.
    pub fn admin(&self) -> (r: &String)
        ensures
            r@ == self.admin_id(),
    {
        &self.admin
    }

    /// The till identity, as the host stores it.
    pub fn till(&self) -> (r: &String)
        ensures
            r@ == self.till_id(),
    {
        &self.till
    }

    /// The ledger entries, for a host that persists the state;
    /// `from_parts` accepts them back.
    pub fn balance_entries(&self) -> (r: &Vec<(String, u128)>)
        requires
            self.wf(),
        ensures
            keys_unique(r@),
            map_of(r@) == self.balances(),
            sum_of(r@) == self.total(),
    {
        self.ledger.entries()
    }

    /// The catalog records, for a host that persists the state;
    /// `from_parts` accepts them back.
    pub fn beverage_entries(&self) -> (r: &Vec<(String, BeverageStat)>)
        requires
            self.wf(),
        ensures
            keys_unique(r@),
            map_of(r@) == self.beverages(),
    {
        self.catalog.entries()
    }
}

} // verus!
