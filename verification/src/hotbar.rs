//! The quick-slot bar: what each slot of the active preset shows (an item
//! and how many are left, or a spell and its mana cost), when the phone
//! layout hides the bar, and the preset controls.

use vstd::prelude::*;
use crate::text::{int_text, nat_text, push_i64, push_u64, push_char, same_text, chars_of};
use crate::common::{first_where, lemma_first_where_found, lemma_first_where_none, SlotState, slot_state_of};

verus! {

/// What a quick slot is bound to.
pub enum HotkeyBinding {
    Empty,
    Item { item_id: String },
    Spell { spell_id: String },
}

/// An occupied inventory slot.
pub struct InvSlot {
    pub item_id: String,
    pub quantity: i32,
}

/// A spell the bar can name: its id, name and mana cost.
pub struct SpellInfo {
    pub id: String,
    pub name: String,
    pub mana_cost: i32,
}

/// The first inventory slot holding `item_id` (`find_slot_by_item_id`).
pub open spec fn slot_of(slots: Seq<Option<InvSlot>>, item_id: Seq<char>) -> Option<int> {
    first_where(slots.len() as int, |i: int| slots[i] matches Some(s) && s.item_id@ == item_id)
}

/// The spell with id `id`: the built-in spells are searched first, then
/// the spells learned from scrolls.
pub open spec fn spell_of(builtin: Seq<SpellInfo>, scrolls: Seq<SpellInfo>, id: Seq<char>) -> Option<SpellInfo> {
    match spell_pos(builtin, id) {
        Some(i) => Some(builtin[i]),
        None => match spell_pos(scrolls, id) {
            Some(i) => Some(scrolls[i]),
            None => None,
        },
    }
}

/// The position of the first spell of `spells` with id `id`.
pub open spec fn spell_pos(spells: Seq<SpellInfo>, id: Seq<char>) -> Option<int> {
    first_where(spells.len() as int, |i: int| spells[i].id@ == id)
}

/// What a quick slot shows.
pub enum SlotView {
    Empty,
    /// An item; `quantity` is `None` when none is left (drawn faded).
    Item { quantity: Option<i32> },
    /// A known spell with its mana cost, and whether the player lacks the
    /// mana for it.
    Spell { name: String, mana_cost: i32, short_of_mana: bool },
    /// A spell that is no longer known: an empty slot.
    UnknownSpell,
}

/// The quantity of an item left in the inventory, from the first slot
/// holding it.
pub fn item_quantity(slots: &[Option<InvSlot>], item_id: &str) -> (r: Option<i32>)
    ensures
        r == (match slot_of(slots@, item_id@) {
            Some(i) => Some(slots@[i]->0.quantity),
            None => None,
        }),
{
    let ghost p = |i: int| slots@[i] matches Some(s) && s.item_id@ == item_id@;
    let mut i: usize = 0;
    while i < slots.len()
        invariant
            i <= slots.len(),
            p == (|i: int| slots@[i] matches Some(s) && s.item_id@ == item_id@),
            forall|m: int| 0 <= m < i ==> !#[trigger] p(m),
        decreases slots.len() - i,
    {
        match &slots[i] {
            Some(s) => {
                if same_text(s.item_id.as_str(), item_id) {
                    proof {
                        lemma_first_where_found(slots.len() as int, p, i as int);
                    }
                    return Some(s.quantity);
                }
            },
            None => {},
        }
        i = i + 1;
    }
    proof {
        lemma_first_where_none(slots.len() as int, p);
    }
    None
}

/// The first spell of `spells` with id `id`.
fn find_spell(spells: &[SpellInfo], id: &str) -> (r: Option<usize>)
    ensures
        r is None <==> spell_pos(spells@, id@) is None,
        r matches Some(i) ==> i < spells.len() && spell_pos(spells@, id@) == Some(i as int),
{
    let ghost p = |i: int| spells@[i].id@ == id@;
    assert(spell_pos(spells@, id@) == first_where(spells@.len() as int, p));
    let mut i: usize = 0;
    while i < spells.len()
        invariant
            i <= spells.len(),
            p == (|i: int| spells@[i].id@ == id@),
            forall|m: int| 0 <= m < i ==> !#[trigger] p(m),
        decreases spells.len() - i,
    {
        if same_text(spells[i].id.as_str(), id) {
            proof {
                lemma_first_where_found(spells.len() as int, p, i as int);
            }
            return Some(i);
        }
        i = i + 1;
    }
    proof {
        lemma_first_where_none(spells.len() as int, p);
    }
    None
}

/// What a quick slot bound to `binding` shows, given the inventory, the
/// spells the game knows and the player's mana.
pub fn slot_view(binding: &HotkeyBinding, slots: &[Option<InvSlot>], builtin: &[SpellInfo], scrolls: &[SpellInfo], mana: i32) -> (v: SlotView)
    ensures
        match *binding {
            HotkeyBinding::Empty => v is Empty,
            HotkeyBinding::Item { item_id } => v == SlotView::Item {
                quantity: match slot_of(slots@, item_id@) {
                    Some(i) => Some(slots@[i]->0.quantity),
                    None => None,
                },
            },
            HotkeyBinding::Spell { spell_id } => match spell_of(builtin@, scrolls@, spell_id@) {
                Some(sp) => v matches SlotView::Spell { name, mana_cost, short_of_mana } && name@ == sp.name@
                    && mana_cost == sp.mana_cost && short_of_mana == (mana < sp.mana_cost),
                None => v is UnknownSpell,
            },
        },
{
    match binding {
        HotkeyBinding::Empty => SlotView::Empty,
        HotkeyBinding::Item { item_id } => SlotView::Item { quantity: item_quantity(slots, item_id.as_str()) },
        HotkeyBinding::Spell { spell_id } => {
            let found = match find_spell(builtin, spell_id.as_str()) {
                Some(i) => Some(&builtin[i]),
                None => match find_spell(scrolls, spell_id.as_str()) {
                    Some(i) => Some(&scrolls[i]),
                    None => None,
                },
            };
            match found {
                Some(sp) => SlotView::Spell {
                    name: sp.name.clone(),
                    mana_cost: sp.mana_cost,
                    short_of_mana: mana < sp.mana_cost,
                },
                None => SlotView::UnknownSpell,
            }
        },
    }
}

/// The quantity badge of an item slot: shown only for more than one.
pub fn quantity_badge(quantity: Option<i32>) -> (r: Option<String>)
    ensures
        r is Some <==> (quantity matches Some(q) && q > 1),
        r matches Some(t) ==> t@ == int_text(quantity->0 as int),
{
    match quantity {
        Some(q) => {
            if q > 1 {
                let mut t = String::new();
                push_i64(&mut t, q as i64);
                Some(t)
            } else {
                None
            }
        },
        None => None,
    }
}

/// The number of slot `i` (counted from 1), drawn in its corner; also the
/// number of the active preset.
pub fn slot_number(i: usize) -> (s: String)
    requires
        i < usize::MAX,
    ensures
        s@ == nat_text((i + 1) as nat),
{
    let mut s = String::new();
    push_u64(&mut s, (i + 1) as u64);
    s
}

/// The letter drawn for a spell without an icon: its name's first
/// character (which must be a single byte).
pub fn spell_letter(name: &str) -> (s: String)
    requires
        name@.len() > 0,
        (name@[0] as u32) < 128,
    ensures
        s@ == seq![name@[0]],
{
    let v = chars_of(name);
    let mut s = String::new();
    push_char(&mut s, v[0]);
    assert(s@ =~= seq![name@[0]]);
    s
}

/// The slot state of a quick slot: only hovering changes it.
pub fn quick_slot_state(hovered: bool) -> (s: SlotState)
    ensures
        s == slot_state_of(false, hovered),
{
    if hovered { SlotState::Hovered } else { SlotState::Normal }
}

/// Which panels are open; on a phone any of them hides the quick slots.
pub struct OpenPanels {
    pub inventory: bool,
    pub character: bool,
    pub skills: bool,
    pub prayer_book: bool,
    pub escape_menu: bool,
    pub quest_log: bool,
    pub social: bool,
    pub chat: bool,
    pub crafting: bool,
    pub furnace: bool,
    pub anvil: bool,
    pub fletching: bool,
    pub bank: bool,
    pub chest: bool,
    pub shop: bool,
    pub dialogue: bool,
}

/// Whether the phone layout hides its quick slots: it does whenever any
/// panel, a shop or a dialogue is open.
pub fn mobile_slots_hidden(p: &OpenPanels) -> (b: bool)
    ensures
        b == (p.inventory || p.character || p.skills || p.prayer_book || p.escape_menu || p.quest_log || p.social
            || p.chat || p.crafting || p.furnace || p.anvil || p.fletching || p.bank || p.chest || p.shop
            || p.dialogue),
{
    p.inventory || p.character || p.skills || p.prayer_book || p.escape_menu || p.quest_log || p.social || p.chat
        || p.crafting || p.furnace || p.anvil || p.fletching || p.bank || p.chest || p.shop || p.dialogue
}

/// A bound slot of the settings popup can be cleared; an empty one cannot.
pub fn clearable(binding: &HotkeyBinding) -> (b: bool)
    ensures
        b == !(*binding is Empty),
{
    !matches!(binding, HotkeyBinding::Empty)
}

} // verus!
