//! The Grand Exchange panel: market rows, the player's offers, the order
//! form's fields, and the window of rows a scrolled list shows.

use vstd::prelude::*;
use crate::text::{int_text, push_str, push_char, push_i64};
use crate::solst::{solst_text, format_solst};

verus! {

/// Prices are shown with at least one decimal place.
pub open spec fn shown_decimals(decimals: u8) -> nat {
    if decimals < 1 { 1 } else { decimals as nat }
}

/// The side tag of an order: "SELL" for a sell order, "BUY" for any other.
pub fn side_tag(side: &str) -> (s: &'static str)
    ensures
        s@ == (if side@ == "sell"@ { "SELL"@ } else { "BUY"@ }),
{
    if crate::text::same_text(side, "sell") { "SELL" } else { "BUY" }
}

/// "{price} x{quantity}", the price and size of a market row.
pub fn market_row_info(price: i64, quantity: i64, decimals: u8) -> (s: String)
    requires
        decimals <= 18,
        price != i64::MIN,
    ensures
        s@ == solst_text(price as int, shown_decimals(decimals)) + " x"@ + int_text(quantity as int),
{
    let d = if decimals < 1 { 1 } else { decimals };
    let mut s = format_solst(price, d);
    push_str(&mut s, " x");
    push_i64(&mut s, quantity);
    s
}

/// "{filled}/{quantity} @ {price}", the progress of one of the player's
/// offers; filled is what is no longer remaining.
pub fn offer_progress(quantity: i64, remaining: i64, price: i64, decimals: u8) -> (s: String)
    requires
        decimals <= 18,
        price != i64::MIN,
        i64::MIN <= quantity - remaining <= i64::MAX,
    ensures
        s@ == int_text(quantity - remaining) + "/"@ + int_text(quantity as int) + " @ "@
            + solst_text(price as int, shown_decimals(decimals)),
{
    let d = if decimals < 1 { 1 } else { decimals };
    let mut s = String::new();
    push_i64(&mut s, quantity - remaining);
    push_str(&mut s, "/");
    push_i64(&mut s, quantity);
    push_str(&mut s, " @ ");
    let p = format_solst(price, d);
    push_str(&mut s, p.as_str());
    assert(s@ =~= int_text(quantity - remaining) + "/"@ + int_text(quantity as int) + " @ "@
        + solst_text(price as int, shown_decimals(decimals)));
    s
}

/// The buttons of one of the player's offers.
pub struct OfferActions {
    /// "Get {n}" when items wait to be collected.
    pub collect: Option<String>,
    /// A cancel button while part of the offer is open.
    pub cancel: bool,
}

/// The buttons of an offer.
pub fn offer_actions(collect_items: i64, remaining: i64) -> (a: OfferActions)
    ensures
        a.collect is None <==> collect_items <= 0,
        a.collect matches Some(t) ==> t@ == "Get "@ + int_text(collect_items as int),
        a.cancel == (remaining > 0),
{
    let collect = if collect_items > 0 {
        let mut t = String::new();
        push_str(&mut t, "Get ");
        push_i64(&mut t, collect_items);
        Some(t)
    } else {
        None
    };
    OfferActions { collect, cancel: remaining > 0 }
}

/// The rows a list scrolled to `scroll` shows, at most `max_rows` of them:
/// `[scroll, end)` (`(scroll..len).take(max_rows)`).
pub fn visible_rows(scroll: usize, len: usize, max_rows: usize) -> (r: (usize, usize))
    ensures
        r.0 == scroll,
        r.1 == (if scroll >= len { scroll as int } else if len - scroll < max_rows { len as int } else { scroll + max_rows }),
        r.0 <= r.1,
        r.1 - r.0 <= max_rows,
        scroll <= len ==> r.1 <= len,
{
    if scroll >= len {
        (scroll, scroll)
    } else if len - scroll < max_rows {
        (scroll, len)
    } else {
        (scroll, scroll + max_rows)
    }
}

/// What an input field of the form shows, and whether it is shown dim.
pub struct FieldText {
    pub text: String,
    pub dim: bool,
}

/// An input field: the placeholder (dim) when empty, the value otherwise;
/// while it is being edited the value is followed by a '_' caret.
pub fn field_text(placeholder: &str, value: &str, editing: bool) -> (f: FieldText)
    ensures
        f.dim == (value@.len() == 0),
        f.text@ == (if editing { value@ + "_"@ } else if value@.len() == 0 { placeholder@ } else { value@ }),
{
    let mut t = String::new();
    if editing {
        push_str(&mut t, value);
        push_char(&mut t, '_');
        proof {
            reveal_strlit("_");
        }
        assert(t@ =~= value@ + "_"@);
    } else if value.is_empty() {
        push_str(&mut t, placeholder);
    } else {
        push_str(&mut t, value);
    }
    FieldText { text: t, dim: value.is_empty() }
}

/// The label of the form's submit button.
pub fn submit_label(side_sell: bool) -> (s: &'static str)
    ensures
        s@ == (if side_sell { "Place Sell Offer"@ } else { "Place Buy Offer"@ }),
{
    if side_sell { "Place Sell Offer" } else { "Place Buy Offer" }
}

/// The item line of the form: the picked item's name, or a prompt.
pub fn picked_item_label(name: Option<&str>) -> (s: &str)
    ensures
        s@ == (match name { Some(n) => n@, None => "Pick an item below"@ }),
{
    match name {
        Some(n) => n,
        None => "Pick an item below",
    }
}

/// Columns of the inventory grid in the order form.
pub const GE_INV_COLS: usize = 10;

/// The inventory slots the order form shows: the first two rows of ten.
pub fn form_inventory_cells(slots: usize) -> (n: usize)
    ensures
        n == (if slots < 2 * GE_INV_COLS { slots as int } else { 2 * GE_INV_COLS }),
{
    if slots < 2 * GE_INV_COLS { slots } else { 2 * GE_INV_COLS }
}

/// An inventory cell of the form is marked when it holds the picked item.
pub fn form_cell_selected(slot_item: Option<&str>, picked: Option<&str>) -> (b: bool)
    ensures
        b == (match (slot_item, picked) {
            (Some(a), Some(p)) => a@ == p@,
            _ => false,
        }),
{
    match (slot_item, picked) {
        (Some(a), Some(p)) => crate::text::same_text(a, p),
        _ => false,
    }
}

} // verus!
