//! Shared presentation states: how a slot or a button is emphasised, and how
//! a remembered selection is kept inside a list that may have shrunk.

use vstd::prelude::*;

verus! {

/// Slot visual state for rendering.
#[derive(Clone, Copy, PartialEq, Eq, Structural, Debug)]
pub enum SlotState {
    Normal,
    Hovered,
    Dragging,
}

/// The state a slot is drawn in: being dragged wins over being hovered.
pub open spec fn slot_state_of(dragging: bool, hovered: bool) -> SlotState {
    if dragging {
        SlotState::Dragging
    } else if hovered {
        SlotState::Hovered
    } else {
        SlotState::Normal
    }
}

/// Picks the visual state of a slot.
pub fn slot_state(dragging: bool, hovered: bool) -> (r: SlotState)
    ensures
        r == slot_state_of(dragging, hovered),
{
    if dragging {
        SlotState::Dragging
    } else if hovered {
        SlotState::Hovered
    } else {
        SlotState::Normal
    }
}

/// Emphasis of a tab, row or button: a selected one is drawn as selected
/// whether or not the pointer is over it.
#[derive(Clone, Copy, PartialEq, Eq, Structural, Debug)]
pub enum Emphasis {
    Selected,
    Hovered,
    Normal,
}

/// The emphasis for a selected / hovered pair.
pub open spec fn emphasis_of(selected: bool, hovered: bool) -> Emphasis {
    if selected {
        Emphasis::Selected
    } else if hovered {
        Emphasis::Hovered
    } else {
        Emphasis::Normal
    }
}

/// Picks the emphasis of a tab, row or button.
pub fn emphasis(selected: bool, hovered: bool) -> (r: Emphasis)
    ensures
        r == emphasis_of(selected, hovered),
{
    if selected {
        Emphasis::Selected
    } else if hovered {
        Emphasis::Hovered
    } else {
        Emphasis::Normal
    }
}

/// The remembered selection, moved onto the last entry when the list got
/// shorter (`selected.min(len.saturating_sub(1))`).
pub open spec fn clamped_index(selected: nat, len: nat) -> nat {
    if len == 0 {
        0
    } else if selected < len {
        selected
    } else {
        (len - 1) as nat
    }
}

/// Keeps a selection index inside a list of `len` entries; 0 for an empty list.
pub fn clamp_index(selected: usize, len: usize) -> (r: usize)
    ensures
        r == clamped_index(selected as nat, len as nat),
{
    let last = if len == 0 { 0 } else { len - 1 };
    if selected < last { selected } else { last }
}

/// A clamped selection always names an entry of a non-empty list, leaves a
/// valid selection alone, and clamping twice changes nothing.
pub proof fn lemma_clamp_index_laws(selected: nat, len: nat)
    ensures
        len > 0 ==> clamped_index(selected, len) < len,
        selected < len ==> clamped_index(selected, len) == selected,
        clamped_index(clamped_index(selected, len), len) == clamped_index(selected, len),
{
}

/// The first position below `n` where `p` holds (what `Iterator::position`
/// and `find` return), if any.
pub open spec fn first_where(n: int, p: spec_fn(int) -> bool) -> Option<int> {
    if exists|i: int| 0 <= i < n && #[trigger] p(i) {
        Some(choose|i: int| 0 <= i < n && #[trigger] p(i) && forall|j: int| 0 <= j < i ==> !#[trigger] p(j))
    } else {
        None
    }
}

/// A position where `p` holds and before which it never does is the first one.
pub proof fn lemma_first_where_found(n: int, p: spec_fn(int) -> bool, i: int)
    requires
        0 <= i < n,
        p(i),
        forall|j: int| 0 <= j < i ==> !#[trigger] p(j),
    ensures
        first_where(n, p) == Some(i),
{
    assert(exists|i: int| 0 <= i < n && #[trigger] p(i));
    let c = choose|c: int| 0 <= c < n && #[trigger] p(c) && forall|j: int| 0 <= j < c ==> !#[trigger] p(j);
    assert(0 <= c < n && p(c) && forall|j: int| 0 <= j < c ==> !#[trigger] p(j));
    if c < i {
        assert(!p(c));
    } else if c > i {
        assert(!p(i));
    }
}

/// Where `p` holds nowhere below `n`, there is no first position.
pub proof fn lemma_first_where_none(n: int, p: spec_fn(int) -> bool)
    requires
        forall|j: int| 0 <= j < n ==> !#[trigger] p(j),
    ensures
        first_where(n, p) is None,
{
}

/// How many positions below `n` satisfy `p`.
pub open spec fn count_where(n: int, p: spec_fn(int) -> bool) -> nat
    decreases n,
{
    if n <= 0 {
        0
    } else {
        count_where(n - 1, p) + if p(n - 1) { 1nat } else { 0nat }
    }
}

} // verus!
