//! The operations of the machine. Each one is a single atomic transition:
//! it either returns `Ok` having applied the whole effect, or returns the
//! specific error with the state exactly as it was. Every transition keeps
//! the sum of all balances (the till included) unchanged, so value is
//! conserved across any sequence of operations; only instantiation creates
//! value.

use vstd::prelude::*;

use crate::catalog::Catalog;
use crate::error::ContractError;
use crate::ledger::{balance_or_zero, Ledger};
use crate::msg::{ExecuteMsg, InitialBalance, InstantiateMsg, QueryMsg, QueryResponse};
use crate::state::{BeverageStat, VendingMachine, MAX_STOCK};

verus! {

/// The sum of the listed seed amounts.
pub open spec fn sum_amounts(s: Seq<InitialBalance>) -> int
    decreases s.len(),
{
    if s.len() == 0 {
        0
    } else {
        sum_amounts(s.drop_last()) + s.last().amount
    }
}

/// The balances after writing each listed seed verbatim, in order.
pub open spec fn seeded(b: Map<Seq<char>, u128>, s: Seq<InitialBalance>) -> Map<Seq<char>, u128>
    decreases s.len(),
{
    if s.len() == 0 {
        b
    } else {
        seeded(b, s.drop_last()).insert(s.last().address@, s.last().amount)
    }
}

/// The balances after moving `amount` units from `from` to `to`:
/// the debit first, then the credit, exactly as the operations apply them.
pub open spec fn transfer(
    b: Map<Seq<char>, u128>,
    from: Seq<char>,
    to: Seq<char>,
    amount: u128,
) -> Map<Seq<char>, u128> {
    let mid = b.insert(from, (balance_or_zero(b, from) - amount) as u128);
    mid.insert(to, (balance_or_zero(mid, to) + amount) as u128)
}

/// The record after an upsert: the new price, with the stock kept when the
/// item exists and zero when it is being created.
pub open spec fn upserted(
    bevs: Map<Seq<char>, BeverageStat>,
    k: Seq<char>,
    price: u128,
) -> BeverageStat {
    if bevs.contains_key(k) {
        BeverageStat { price, amount: bevs[k].amount }
    } else {
        BeverageStat { price, amount: 0 }
    }
}

proof fn lemma_sum_amounts_take_step(s: Seq<InitialBalance>, i: int)
    requires
        0 <= i < s.len(),
    ensures
        sum_amounts(s.take(i + 1)) == sum_amounts(s.take(i)) + s[i].amount,
        seeded(Map::<Seq<char>, u128>::empty(), s.take(i + 1)) == seeded(
            Map::<Seq<char>, u128>::empty(),
            s.take(i),
        ).insert(s[i].address@, s[i].amount),
{
    assert(s.take(i + 1).drop_last() =~= s.take(i));
    assert(s.take(i + 1).last() == s[i]);
}

proof fn lemma_sum_amounts_take_le(s: Seq<InitialBalance>, i: int)
    requires
        0 <= i <= s.len(),
    ensures
        sum_amounts(s.take(i)) <= sum_amounts(s),
    decreases s.len() - i,
{
    if i == s.len() {
        assert(s.take(i) =~= s);
    } else {
        lemma_sum_amounts_take_step(s, i);
        lemma_sum_amounts_take_le(s, i + 1);
    }
}

/// Writes each listed seed balance verbatim, in order; a later seed for the
/// same account overrides an earlier one. The total grows by at most the
/// sum of the listed amounts.
pub fn create_accounts(ledger: &mut Ledger, accounts: &Vec<InitialBalance>)
    requires
        old(ledger).wf(),
        old(ledger).total() + sum_amounts(accounts@) <= u128::MAX,
    ensures
        final(ledger).wf(),
        final(ledger)@ == seeded(old(ledger)@, accounts@),
        final(ledger).total() <= old(ledger).total() + sum_amounts(accounts@),
{
    let ghost ledger0 = *ledger;
    let n = accounts.len();
    let mut i: usize = 0;
    proof {
        assert(accounts@.take(0) =~= Seq::<InitialBalance>::empty());
    }
    while i < n
        invariant
            n == accounts@.len(),
            i <= n,
            ledger0.wf(),
            ledger0.total() + sum_amounts(accounts@) <= u128::MAX,
            ledger.wf(),
            ledger@ == seeded(ledger0@, accounts@.take(i as int)),
            ledger.total() <= ledger0.total() + sum_amounts(accounts@.take(i as int)),
        decreases n - i,
    {
        let row = &accounts[i];
        proof {
            lemma_sum_amounts_take_step(accounts@, i as int);
            lemma_sum_amounts_take_le(accounts@, i as int + 1);
        }
        ledger.set(&row.address, row.amount);
        proof {
            assert(accounts@.take(i as int + 1).drop_last() =~= accounts@.take(i as int));
            assert(accounts@.take(i as int + 1).last() == accounts@[i as int]);
        }
        i += 1;
    }
    proof {
        assert(accounts@.take(n as int) =~= accounts@);
    }
}

/// Creates the machine: writes every seed balance, then the machine's own
/// till at zero, and fixes the admin identity once and for all.
pub fn instantiate(contract_addr: String, msg: InstantiateMsg) -> (m: VendingMachine)
    requires
        sum_amounts(msg.initial_balances@) <= u128::MAX,
    ensures
        m.wf(),
        m.admin_id() == msg.admin@,
        m.till_id() == contract_addr@,
        m.balances() == seeded(Map::<Seq<char>, u128>::empty(), msg.initial_balances@).insert(
            contract_addr@,
            0u128,
        ),
        m.beverages() == Map::<Seq<char>, BeverageStat>::empty(),
        m.total() <= sum_amounts(msg.initial_balances@),
{
    let mut ledger = Ledger::new();
    create_accounts(&mut ledger, &msg.initial_balances);
    proof {
        ledger.lemma_balance_le_total(contract_addr@);
        ledger.lemma_total_bounds();
    }
    ledger.set(&contract_addr, 0);
    VendingMachine { admin: msg.admin, till: contract_addr, ledger, catalog: Catalog::new() }
}

/// Creates an item or updates its price, leaving its stock untouched.
/// Admin-gated: any other caller gets `Unauthorized` and changes nothing.
pub fn update_beverage(
    m: &mut VendingMachine,
    sender: &String,
    bev_type: &String,
    price: u128,
) -> (r: Result<(), ContractError>)
    requires
        old(m).wf(),
    ensures
        final(m).wf(),
        final(m).admin_id() == old(m).admin_id(),
        final(m).till_id() == old(m).till_id(),
        final(m).balances() == old(m).balances(),
        final(m).total() == old(m).total(),
        sender@ != old(m).admin_id() ==> r == Err::<(), ContractError>(ContractError::Unauthorized)
            && *final(m) == *old(m),
        sender@ == old(m).admin_id() ==> r == Ok::<(), ContractError>(()) && final(m).beverages()
            == old(m).beverages().insert(bev_type@, upserted(old(m).beverages(), bev_type@, price)),
{
    if *sender != m.admin {
        return Err(ContractError::Unauthorized);
    }
    proof {
        m.catalog.lemma_stock_capacity();
    }
    let stat = match m.catalog.get(bev_type) {
        Some(s) => BeverageStat { price, amount: s.amount },
        None => BeverageStat { price, amount: 0 },
    };
    m.catalog.set(bev_type, stat);
    Ok(())
}

/// Adds `amount` units to an existing item's stock. Admin-gated; the item
/// must exist; the result may not exceed the capacity. Every failure leaves
/// the state exactly as it was.
pub fn refill_beverage(
    m: &mut VendingMachine,
    sender: &String,
    bev_type: &String,
    amount: u8,
) -> (r: Result<(), ContractError>)
    requires
        old(m).wf(),
    ensures
        final(m).wf(),
        final(m).admin_id() == old(m).admin_id(),
        final(m).till_id() == old(m).till_id(),
        final(m).balances() == old(m).balances(),
        final(m).total() == old(m).total(),
        r.is_err() ==> *final(m) == *old(m),
        sender@ != old(m).admin_id() ==> r == Err::<(), ContractError>(ContractError::Unauthorized),
        sender@ == old(m).admin_id() && !old(m).beverages().contains_key(bev_type@) ==> r == Err::<
            (),
            ContractError,
        >(ContractError::NotFound),
        sender@ == old(m).admin_id() && old(m).beverages().contains_key(bev_type@)
            && old(m).beverages()[bev_type@].amount + amount > MAX_STOCK ==> r == Err::<
            (),
            ContractError,
        >(ContractError::BeverageNumberExceed),
        sender@ == old(m).admin_id() && old(m).beverages().contains_key(bev_type@)
            && old(m).beverages()[bev_type@].amount + amount <= MAX_STOCK ==> r == Ok::<
            (),
            ContractError,
        >(()) && final(m).beverages() == old(m).beverages().insert(
            bev_type@,
            (BeverageStat {
                price: old(m).beverages()[bev_type@].price,
                amount: (old(m).beverages()[bev_type@].amount + amount) as u8,
            }),
        ),
{
    if *sender != m.admin {
        return Err(ContractError::Unauthorized);
    }
    let stat = match m.catalog.get(bev_type) {
        None => {
            return Err(ContractError::NotFound);
        },
        Some(s) => s,
    };
    let new_stat = match stat.refill(amount) {
        Err(e) => {
            return Err(e);
        },
        Ok(s) => s,
    };
    m.catalog.set(bev_type, new_stat);
    Ok(())
}

/// Purchases one unit: the item's price moves from the caller's balance to
/// the till, and the stock drops by one. Open to any caller. The item must
/// exist, the caller's balance must cover the price, and the item must be
/// in stock — checked in that order, and every failure leaves the state
/// exactly as it was.
pub fn purchase(m: &mut VendingMachine, sender: &String, bev_type: &String) -> (r: Result<
    (),
    ContractError,
>)
    requires
        old(m).wf(),
    ensures
        final(m).wf(),
        final(m).admin_id() == old(m).admin_id(),
        final(m).till_id() == old(m).till_id(),
        final(m).total() == old(m).total(),
        r.is_err() ==> *final(m) == *old(m),
        !old(m).beverages().contains_key(bev_type@) ==> r == Err::<(), ContractError>(
            ContractError::NotFound,
        ),
        old(m).beverages().contains_key(bev_type@) && balance_or_zero(old(m).balances(), sender@)
            < old(m).beverages()[bev_type@].price ==> r == Err::<(), ContractError>(
            ContractError::NotEnoughCoins,
        ),
        old(m).beverages().contains_key(bev_type@) && balance_or_zero(old(m).balances(), sender@)
            >= old(m).beverages()[bev_type@].price && old(m).beverages()[bev_type@].amount == 0
            ==> r == Err::<(), ContractError>(ContractError::BeverageIsOver),
        old(m).beverages().contains_key(bev_type@) && balance_or_zero(old(m).balances(), sender@)
            >= old(m).beverages()[bev_type@].price && old(m).beverages()[bev_type@].amount > 0
            ==> r == Ok::<(), ContractError>(()) && final(m).balances() == transfer(
            old(m).balances(),
            sender@,
            old(m).till_id(),
            old(m).beverages()[bev_type@].price,
        ) && final(m).beverages() == old(m).beverages().insert(
            bev_type@,
            (BeverageStat {
                price: old(m).beverages()[bev_type@].price,
                amount: (old(m).beverages()[bev_type@].amount - 1) as u8,
            }),
        ),
{
    let stat = match m.catalog.get(bev_type) {
        None => {
            return Err(ContractError::NotFound);
        },
        Some(s) => s,
    };
    let price = stat.price;
    let bal = m.ledger.read(sender);
    if bal < price {
        return Err(ContractError::NotEnoughCoins);
    }
    let new_stat = match stat.sell() {
        Err(e) => {
            return Err(e);
        },
        Ok(s) => s,
    };
    proof {
        m.ledger.lemma_total_bounds();
        m.catalog.lemma_stock_capacity();
    }
    let _ = m.ledger.debit(sender, price);
    m.ledger.credit(&m.till, price);
    m.catalog.set(bev_type, new_stat);
    Ok(())
}

/// Moves the whole till balance to the admin and zeroes the till.
/// Admin-gated; always succeeds for the admin, a zero till included.
pub fn withdraw_income(m: &mut VendingMachine, sender: &String) -> (r: Result<(), ContractError>)
    requires
        old(m).wf(),
    ensures
        final(m).wf(),
        final(m).admin_id() == old(m).admin_id(),
        final(m).till_id() == old(m).till_id(),
        final(m).beverages() == old(m).beverages(),
        final(m).total() == old(m).total(),
        sender@ != old(m).admin_id() ==> r == Err::<(), ContractError>(ContractError::Unauthorized)
            && *final(m) == *old(m),
        sender@ == old(m).admin_id() ==> r == Ok::<(), ContractError>(()) && final(m).balances()
            == transfer(
            old(m).balances(),
            old(m).till_id(),
            old(m).admin_id(),
            balance_or_zero(old(m).balances(), old(m).till_id()),
        ),
{
    if *sender != m.admin {
        return Err(ContractError::Unauthorized);
    }
    let till = m.till.clone();
    let amt = m.ledger.read(&till);
    proof {
        m.ledger.lemma_total_bounds();
        m.ledger.lemma_balance_le_total(till@);
    }
    let _ = m.ledger.debit(&till, amt);
    m.ledger.credit(sender, amt);
    Ok(())
}

/// Applies one operation to the machine. Whatever the operation and its
/// outcome, the sum of all balances (the till included) is unchanged, the
/// admin and till identities are unchanged, and an error changes nothing.
pub fn execute(m: &mut VendingMachine, sender: &String, msg: ExecuteMsg) -> (r: Result<
    (),
    ContractError,
>)
    requires
        old(m).wf(),
    ensures
        final(m).wf(),
        final(m).admin_id() == old(m).admin_id(),
        final(m).till_id() == old(m).till_id(),
        final(m).total() == old(m).total(),
        r.is_err() ==> *final(m) == *old(m),
        match msg {
            ExecuteMsg::UpdateBeverage { bev_type, price } => {
                &&& final(m).balances() == old(m).balances()
                &&& sender@ != old(m).admin_id() ==> r == Err::<(), ContractError>(
                    ContractError::Unauthorized,
                )
                &&& sender@ == old(m).admin_id() ==> r == Ok::<(), ContractError>(()) && final(m).beverages() == old(m).beverages().insert(
                    bev_type@,
                    upserted(old(m).beverages(), bev_type@, price),
                )
            },
            ExecuteMsg::RefillBeverage { bev_type, amount } => {
                &&& final(m).balances() == old(m).balances()
                &&& sender@ != old(m).admin_id() ==> r == Err::<(), ContractError>(
                    ContractError::Unauthorized,
                )
                &&& sender@ == old(m).admin_id() && !old(m).beverages().contains_key(bev_type@)
                    ==> r == Err::<(), ContractError>(ContractError::NotFound)
                &&& sender@ == old(m).admin_id() && old(m).beverages().contains_key(bev_type@)
                    && old(m).beverages()[bev_type@].amount + amount > MAX_STOCK ==> r == Err::<
                    (),
                    ContractError,
                >(ContractError::BeverageNumberExceed)
                &&& sender@ == old(m).admin_id() && old(m).beverages().contains_key(bev_type@)
                    && old(m).beverages()[bev_type@].amount + amount <= MAX_STOCK ==> r == Ok::<
                    (),
                    ContractError,
                >(()) && final(m).beverages() == old(m).beverages().insert(
                    bev_type@,
                    (BeverageStat {
                        price: old(m).beverages()[bev_type@].price,
                        amount: (old(m).beverages()[bev_type@].amount + amount) as u8,
                    }),
                )
            },
            ExecuteMsg::Purchase { bev_type } => {
                &&& !old(m).beverages().contains_key(bev_type@) ==> r == Err::<(), ContractError>(
                    ContractError::NotFound,
                )
                &&& old(m).beverages().contains_key(bev_type@) && balance_or_zero(
                    old(m).balances(),
                    sender@,
                ) < old(m).beverages()[bev_type@].price ==> r == Err::<(), ContractError>(
                    ContractError::NotEnoughCoins,
                )
                &&& old(m).beverages().contains_key(bev_type@) && balance_or_zero(
                    old(m).balances(),
                    sender@,
                ) >= old(m).beverages()[bev_type@].price && old(m).beverages()[bev_type@].amount
                    == 0 ==> r == Err::<(), ContractError>(ContractError::BeverageIsOver)
                &&& old(m).beverages().contains_key(bev_type@) && balance_or_zero(
                    old(m).balances(),
                    sender@,
                ) >= old(m).beverages()[bev_type@].price && old(m).beverages()[bev_type@].amount > 0
                    ==> r == Ok::<(), ContractError>(()) && final(m).balances() == transfer(
                    old(m).balances(),
                    sender@,
                    old(m).till_id(),
                    old(m).beverages()[bev_type@].price,
                ) && final(m).beverages() == old(m).beverages().insert(
                    bev_type@,
                    (BeverageStat {
                        price: old(m).beverages()[bev_type@].price,
                        amount: (old(m).beverages()[bev_type@].amount - 1) as u8,
                    }),
                )
            },
            ExecuteMsg::WithdrawIncome {  } => {
                &&& final(m).beverages() == old(m).beverages()
                &&& sender@ != old(m).admin_id() ==> r == Err::<(), ContractError>(
                    ContractError::Unauthorized,
                )
                &&& sender@ == old(m).admin_id() ==> r == Ok::<(), ContractError>(()) && final(m).balances() == transfer(
                    old(m).balances(),
                    old(m).till_id(),
                    old(m).admin_id(),
                    balance_or_zero(old(m).balances(), old(m).till_id()),
                )
            },
        },
{
    match msg {
        ExecuteMsg::UpdateBeverage { bev_type, price } => update_beverage(
            m,
            sender,
            &bev_type,
            price,
        ),
        ExecuteMsg::RefillBeverage { bev_type, amount } => refill_beverage(
            m,
            sender,
            &bev_type,
            amount,
        ),
        ExecuteMsg::Purchase { bev_type } => purchase(m, sender, &bev_type),
        ExecuteMsg::WithdrawIncome {  } => withdraw_income(m, sender),
    }
}

/// Answers a read-only query. A balance query defaults to zero for an
/// account never written; an item query fails with `NotFound` for an item
/// never created.
pub fn query(m: &VendingMachine, msg: QueryMsg) -> (r: Result<QueryResponse, ContractError>)
    requires
        m.wf(),
    ensures
        match msg {
            QueryMsg::Balance { address } => r == Ok::<QueryResponse, ContractError>(
                (QueryResponse::Balance { balance: balance_or_zero(m.balances(), address@) }),
            ),
            QueryMsg::BeverageStat { bev_type } => {
                &&& m.beverages().contains_key(bev_type@) ==> r == Ok::<
                    QueryResponse,
                    ContractError,
                >((QueryResponse::BeverageStat { stat: m.beverages()[bev_type@] }))
                &&& !m.beverages().contains_key(bev_type@) ==> r == Err::<
                    QueryResponse,
                    ContractError,
                >(ContractError::NotFound)
            },
        },
{
    match msg {
        QueryMsg::Balance { address } => {
            let balance = m.ledger.read(&address);
            Ok(QueryResponse::Balance { balance })
        },
        QueryMsg::BeverageStat { bev_type } => {
            match m.catalog.get(&bev_type) {
                Some(stat) => Ok(QueryResponse::BeverageStat { stat }),
                None => Err(ContractError::NotFound),
            }
        },
    }
}

} // verus!
