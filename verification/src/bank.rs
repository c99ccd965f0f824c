//! The bank vault: compact quantities on the slots, the grid layout, the
//! drag-and-drop hints and the quantity dialog.

use vstd::prelude::*;
use crate::text::{int_text, push_str, push_char, push_i64, chars_of, string_of_range, same_text};

verus! {

/// Columns of the bank grid.
pub const BANK_COLS: usize = 6;

/// Columns of the inventory grid beside it.
pub const INV_COLS: usize = 4;

/// `whole` followed by `.tenth` when the tenth is not zero, then `unit`.
pub open spec fn scaled(whole: int, tenth: int, unit: char) -> Seq<char> {
    if tenth > 0 {
        int_text(whole) + "."@ + int_text(tenth) + seq![unit]
    } else {
        int_text(whole) + seq![unit]
    }
}

/// A quantity as the bank shows it: in full below 100,000, then in
/// thousands ("150K", "1.5M") with one truncated decimal when it is not
/// zero: K below ten million, M below a billion, B beyond.
pub open spec fn bank_quantity_text(q: int) -> Seq<char> {
    if q < 100_000 {
        int_text(q)
    } else if q < 10_000_000 {
        scaled(q / 1000, (q % 1000) / 100, 'K')
    } else if q < 1_000_000_000 {
        scaled(q / 1_000_000, (q % 1_000_000) / 100_000, 'M')
    } else {
        scaled(q / 1_000_000_000, (q % 1_000_000_000) / 100_000_000, 'B')
    }
}

/// The unit a bank quantity is shown in: in full (as `to_string` writes it)
/// below 100,000; otherwise the whole thousands, millions or billions come
/// first and the text ends in 'K' from 100,000 up to ten million, 'M' up to
/// a billion and 'B' beyond.
pub proof fn lemma_bank_quantity_units(q: int)
    ensures
        q < 100_000 ==> bank_quantity_text(q) == int_text(q),
        100_000 <= q < 10_000_000 ==> bank_quantity_text(q).last() == 'K' && bank_quantity_text(q).take(
            int_text(q / 1000).len() as int,
        ) == int_text(q / 1000),
        10_000_000 <= q < 1_000_000_000 ==> bank_quantity_text(q).last() == 'M' && bank_quantity_text(q).take(
            int_text(q / 1_000_000).len() as int,
        ) == int_text(q / 1_000_000),
        1_000_000_000 <= q ==> bank_quantity_text(q).last() == 'B' && bank_quantity_text(q).take(
            int_text(q / 1_000_000_000).len() as int,
        ) == int_text(q / 1_000_000_000),
{
    if q >= 100_000 {
        let (w, t, u) = if q < 10_000_000 {
            (q / 1000, (q % 1000) / 100, 'K')
        } else if q < 1_000_000_000 {
            (q / 1_000_000, (q % 1_000_000) / 100_000, 'M')
        } else {
            (q / 1_000_000_000, (q % 1_000_000_000) / 100_000_000, 'B')
        };
        let x = scaled(w, t, u);
        assert(bank_quantity_text(q) == x);
        if t > 0 {
            assert(x.take(int_text(w).len() as int) =~= int_text(w));
        } else {
            assert(x.take(int_text(w).len() as int) =~= int_text(w));
        }
    }
}

/// Appends `scaled(whole, tenth, unit)`.
fn push_scaled(s: &mut String, whole: i32, tenth: i32, unit: char)
    requires
        whole >= 0,
        tenth >= 0,
    ensures
        final(s)@ == old(s)@ + scaled(whole as int, tenth as int, unit),
{
    push_i64(s, whole as i64);
    if tenth > 0 {
        push_char(s, '.');
        push_i64(s, tenth as i64);
    }
    push_char(s, unit);
    proof {
        reveal_strlit(".");
    }
    assert(final(s)@ =~= old(s)@ + scaled(whole as int, tenth as int, unit));
}

/// The quantity shown on a bank slot.
pub fn format_bank_quantity(qty: i32) -> (s: String)
    ensures
        s@ == bank_quantity_text(qty as int),
{
    let mut s = String::new();
    if qty < 100_000 {
        push_i64(&mut s, qty as i64);
    } else if qty < 10_000_000 {
        push_scaled(&mut s, qty / 1000, (qty % 1000) / 100, 'K');
    } else if qty < 1_000_000_000 {
        push_scaled(&mut s, qty / 1_000_000, (qty % 1_000_000) / 100_000, 'M');
    } else {
        push_scaled(&mut s, qty / 1_000_000_000, (qty % 1_000_000_000) / 100_000_000, 'B');
    }
    assert(s@ =~= bank_quantity_text(qty as int));
    s
}

/// Rows needed for `total` slots in `cols` columns.
pub fn grid_rows(total: usize, cols: usize) -> (r: usize)
    requires
        cols > 0,
        total + cols <= usize::MAX,
    ensures
        r == (total + cols - 1) / (cols as int),
        r * cols >= total,
        r * cols < total + cols,
{
    let r = (total + cols - 1) / cols;
    assert(r * cols >= total && r * cols < total + cols) by (nonlinear_arith)
        requires
            cols > 0,
            r == (total + cols - 1) / (cols as int),
    {
    }
    r
}

/// The row and column of slot `i` in a grid of `cols` columns.
pub fn grid_cell(i: usize, cols: usize) -> (r: (usize, usize))
    requires
        cols > 0,
    ensures
        r.0 == i / cols,
        r.1 == i % cols,
        r.0 * cols + r.1 == i,
        r.1 < cols,
{
    let row = i / cols;
    let col = i % cols;
    assert(row * cols + col == i) by (nonlinear_arith)
        requires
            cols > 0,
            row == i / cols,
            col == i % cols,
    {
    }
    (row, col)
}

/// A drag in progress over the bank grid.
pub struct BankDrag {
    pub active: bool,
    pub from_slot: usize,
}

/// The slot is where the dragged item would be dropped: hovered, while an
/// active drag comes from another slot.
pub open spec fn is_drop_target(drag: Option<BankDrag>, slot: nat, hovered: bool) -> bool {
    hovered && match drag {
        Some(d) => d.active && d.from_slot != slot,
        None => false,
    }
}

/// What the drag shows on a bank slot.
#[derive(Clone, Copy, PartialEq, Eq, Structural, Debug)]
pub enum DragMark {
    Plain,
    /// The slot the item is being dragged from.
    Source,
    /// A drop target holding something else (or nothing): a gold outline.
    Target,
    /// A drop target holding the same item: the outline and a "+".
    Merge,
}

/// The drag mark of bank slot `slot`.
pub open spec fn drag_mark_of(drag: Option<BankDrag>, slot: nat, hovered: bool, slots: Seq<Option<String>>) -> DragMark {
    match drag {
        Some(d) => if d.active && d.from_slot == slot {
            DragMark::Source
        } else if is_drop_target(drag, slot, hovered) {
            if slot < slots.len() && d.from_slot < slots.len() && slots[slot as int] is Some && slots[d.from_slot as int] is Some
                && slots[slot as int]->0@ == slots[d.from_slot as int]->0@ {
                DragMark::Merge
            } else {
                DragMark::Target
            }
        } else {
            DragMark::Plain
        },
        None => DragMark::Plain,
    }
}

/// The item id in a slot, if the slot exists and holds one.
fn slot_item(slots: &[Option<String>], i: usize) -> (r: Option<&String>)
    ensures
        r matches Some(s) ==> i < slots.len() && slots@[i as int] == Some(*s),
        r is None ==> i >= slots.len() || slots@[i as int] is None,
{
    if i < slots.len() {
        match &slots[i] {
            Some(s) => Some(s),
            None => None,
        }
    } else {
        None
    }
}

/// How a bank slot is marked by the drag in progress. `slots` holds the
/// item id of each bank slot.
pub fn drag_mark(drag: Option<&BankDrag>, slot: usize, hovered: bool, slots: &[Option<String>]) -> (m: DragMark)
    ensures
        m == drag_mark_of(match drag { Some(d) => Some(*d), None => None }, slot as nat, hovered, slots@),
{
    match drag {
        Some(d) => {
            if d.active && d.from_slot == slot {
                DragMark::Source
            } else if hovered && d.active && d.from_slot != slot {
                match (slot_item(slots, slot), slot_item(slots, d.from_slot)) {
                    (Some(a), Some(b)) => if same_text(a.as_str(), b.as_str()) { DragMark::Merge } else { DragMark::Target },
                    _ => DragMark::Target,
                }
            } else {
                DragMark::Plain
            }
        },
        None => DragMark::Plain,
    }
}

/// "{n}g", a gold amount.
pub fn gold_text(n: i64) -> (s: String)
    ensures
        s@ == int_text(n as int) + "g"@,
{
    let mut s = String::new();
    push_i64(&mut s, n);
    push_char(&mut s, 'g');
    proof {
        reveal_strlit("g");
    }
    assert(s@ =~= int_text(n as int) + "g"@);
    s
}

/// What the quantity dialog was opened for.
#[derive(Clone, Copy, PartialEq, Eq, Structural, Debug)]
pub enum QuantityAction {
    DepositItem,
    WithdrawItem,
    DepositGold,
    WithdrawGold,
}

/// The title of the quantity dialog.
pub fn dialog_title(a: QuantityAction) -> (s: &'static str)
    ensures
        s@ == (match a {
            QuantityAction::DepositItem => "DEPOSIT ITEM"@,
            QuantityAction::WithdrawItem => "WITHDRAW ITEM"@,
            QuantityAction::DepositGold => "DEPOSIT GOLD"@,
            QuantityAction::WithdrawGold => "WITHDRAW GOLD"@,
        }),
{
    match a {
        QuantityAction::DepositItem => "DEPOSIT ITEM",
        QuantityAction::WithdrawItem => "WITHDRAW ITEM",
        QuantityAction::DepositGold => "DEPOSIT GOLD",
        QuantityAction::WithdrawGold => "WITHDRAW GOLD",
    }
}

/// "Available: {max}", with a "g" for gold.
pub fn available_text(a: QuantityAction, max_quantity: i64) -> (s: String)
    ensures
        s@ == "Available: "@ + int_text(max_quantity as int) + (match a {
            QuantityAction::DepositGold | QuantityAction::WithdrawGold => "g"@,
            _ => ""@,
        }),
{
    let mut s = String::new();
    push_str(&mut s, "Available: ");
    push_i64(&mut s, max_quantity);
    proof {
        reveal_strlit("g");
        reveal_strlit("");
    }
    match a {
        QuantityAction::DepositGold | QuantityAction::WithdrawGold => {
            push_char(&mut s, 'g');
            assert(s@ =~= "Available: "@ + int_text(max_quantity as int) + "g"@);
        },
        _ => {
            assert(s@ =~= "Available: "@ + int_text(max_quantity as int) + ""@);
        },
    }
    s
}

/// The typed text before the cursor (its first `cursor` characters, all of
/// them when the cursor is past the end), which places the caret.
pub fn text_before_cursor(input: &str, cursor: usize) -> (s: String)
    ensures
        s@ == input@.take(if cursor < input@.len() { cursor as int } else { input@.len() as int }),
{
    let v = chars_of(input);
    let end = if cursor < v.len() { cursor } else { v.len() };
    let s = string_of_range(&v, 0, end);
    assert(v@.subrange(0, end as int) =~= input@.take(end as int));
    s
}

/// The lines of the bank's help overlay and how each is drawn; empty lines
/// are spacing.
pub fn help_lines() -> (v: Vec<(&'static str, HelpTone)>)
    ensures
        v.len() == 6,
        v@[0].0@ == "Bank Controls"@ && v@[0].1 == HelpTone::Title,
        v@[1].0@ == ""@ && v@[1].1 == HelpTone::Body,
        v@[2].0@ == "Items & Gold"@ && v@[2].1 == HelpTone::Section,
        v@[3].0@ == "Click - Deposit/Withdraw 1"@ && v@[3].1 == HelpTone::Body,
        v@[4].0@ == "Ctrl+Click - Enter custom amount"@ && v@[4].1 == HelpTone::Body,
        v@[5].0@ == "Shift+Click - Deposit/Withdraw all"@ && v@[5].1 == HelpTone::Body,
{
    vec![
        ("Bank Controls", HelpTone::Title),
        ("", HelpTone::Body),
        ("Items & Gold", HelpTone::Section),
        ("Click - Deposit/Withdraw 1", HelpTone::Body),
        ("Ctrl+Click - Enter custom amount", HelpTone::Body),
        ("Shift+Click - Deposit/Withdraw all", HelpTone::Body),
    ]
}

/// How a help line is drawn.
#[derive(Clone, Copy, PartialEq, Eq, Structural, Debug)]
pub enum HelpTone {
    Title,
    Section,
    Body,
}

/// The unit a quantity is shown in: 1 below 100,000, then a thousand, a
/// million or a billion.
pub open spec fn quantity_unit(q: int) -> int {
    if q < 100_000 {
        1
    } else if q < 10_000_000 {
        1000
    } else if q < 1_000_000_000 {
        1_000_000
    } else {
        1_000_000_000
    }
}

/// A scaled quantity is truncated, never rounded up: the shown whole part
/// and tenth, times the unit, are at most the quantity and less than a
/// tenth of a unit below it.
pub proof fn lemma_bank_quantity_truncates(q: int)
    requires
        100_000 <= q,
    ensures
        ({
            let u = quantity_unit(q);
            let shown = (q / u) * u + ((q % u) / (u / 10)) * (u / 10);
            shown <= q && q < shown + u / 10
        }),
{
    let u = quantity_unit(q);
    let t = u / 10;
    assert(u > 0 && t > 0);
    assert(q == (q / u) * u + q % u && 0 <= q % u < u) by (nonlinear_arith)
        requires
            u > 0,
    {
    }
    assert(q % u == ((q % u) / t) * t + (q % u) % t && 0 <= (q % u) % t < t) by (nonlinear_arith)
        requires
            t > 0,
            q % u >= 0,
    {
    }
}

} // verus!
