//! The shop tab: what a purchase or a sale of the selected item costs or
//! pays, whether it can go through, and the list of items offered for sale.

use vstd::prelude::*;
use crate::text::{int_text, push_str, push_i64};

verus! {

/// The outcome shown in the transaction bar.
#[derive(Clone, Copy, PartialEq, Eq, Structural, Debug)]
pub struct Transaction {
    /// What the purchase costs, or what the sale pays.
    pub total: i32,
    pub can_transact: bool,
}

/// The selected stock item: its unit price and how many the shop has.
pub struct StockPick {
    pub price: i32,
    pub stock: i32,
}

/// Buying `quantity` of the selected stock item: the price times the
/// quantity, allowed when the player has that much gold and the shop that
/// many items. Nothing selected costs nothing and cannot be bought.
pub fn buy_transaction(pick: Option<StockPick>, quantity: i32, gold: i32) -> (t: Transaction)
    requires
        pick matches Some(p) ==> i32::MIN <= p.price * quantity <= i32::MAX,
    ensures
        t == (match pick {
            Some(p) => Transaction {
                total: (p.price * quantity) as i32,
                can_transact: gold >= p.price * quantity && p.stock >= quantity,
            },
            None => Transaction { total: 0, can_transact: false },
        }),
{
    match pick {
        Some(p) => {
            let total = p.price * quantity;
            Transaction { total, can_transact: gold >= total && p.stock >= quantity }
        },
        None => Transaction { total: 0, can_transact: false },
    }
}

/// The selected inventory item when selling: whether its definition is
/// known and sellable, what the shop pays for one, and how many the player
/// has.
pub struct SellPick {
    pub sellable: bool,
    pub unit_price: i32,
    pub have: i32,
}

/// Selling `quantity` of the selected item: the unit price times the
/// quantity, allowed when the player has that many. An item that cannot be
/// sold, or no selection, pays nothing and cannot be sold.
pub fn sell_transaction(pick: Option<SellPick>, quantity: i32) -> (t: Transaction)
    requires
        pick matches Some(p) ==> p.sellable ==> i32::MIN <= p.unit_price * quantity <= i32::MAX,
    ensures
        t == (match pick {
            Some(p) => if p.sellable {
                Transaction { total: (p.unit_price * quantity) as i32, can_transact: p.have >= quantity }
            } else {
                Transaction { total: 0, can_transact: false }
            },
            None => Transaction { total: 0, can_transact: false },
        }),
{
    match pick {
        Some(p) => {
            if p.sellable {
                Transaction { total: p.unit_price * quantity, can_transact: p.have >= quantity }
            } else {
                Transaction { total: 0, can_transact: false }
            }
        },
        None => Transaction { total: 0, can_transact: false },
    }
}

/// Positions of the occupied inventory slots, in order: the sell list.
pub open spec fn occupied(slots: Seq<bool>, n: int) -> Seq<usize>
    decreases n,
{
    if n <= 0 {
        Seq::empty()
    } else {
        let p = occupied(slots, n - 1);
        if slots[n - 1] { p.push((n - 1) as usize) } else { p }
    }
}

/// The inventory slots the sell list shows, in order; `filled` tells which
/// slots hold an item. The selected sale index counts in this list.
pub fn sell_list(filled: &[bool]) -> (v: Vec<usize>)
    ensures
        v@ == occupied(filled@, filled.len() as int),
{
    let mut v: Vec<usize> = Vec::new();
    let mut i: usize = 0;
    while i < filled.len()
        invariant
            i <= filled.len(),
            v@ == occupied(filled@, i as int),
        decreases filled.len() - i,
    {
        if filled[i] {
            v.push(i);
        }
        i = i + 1;
    }
    v
}

/// "{n} gold".
pub fn gold_amount(n: i32) -> (s: String)
    ensures
        s@ == int_text(n as int) + " gold"@,
{
    let mut s = String::new();
    push_i64(&mut s, n as i64);
    push_str(&mut s, " gold");
    s
}

/// "Stock: {n}".
pub fn stock_text(n: i32) -> (s: String)
    ensures
        s@ == "Stock: "@ + int_text(n as int),
{
    let mut s = String::new();
    push_str(&mut s, "Stock: ");
    push_i64(&mut s, n as i64);
    s
}

/// The transaction bar's caption and button for the current sub-tab.
pub fn transaction_labels(buying: bool) -> (r: (&'static str, &'static str))
    ensures
        r.0@ == (if buying { "Total:"@ } else { "You get:"@ }),
        r.1@ == (if buying { "Buy"@ } else { "Sell"@ }),
{
    if buying { ("Total:", "Buy") } else { ("You get:", "Sell") }
}

} // verus!
