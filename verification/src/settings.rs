//! The settings (escape) menu: which toggles it offers on each platform,
//! where each sits in the toggle grid, and how toggles and segmented
//! selectors are drawn.

use vstd::prelude::*;

verus! {

/// A setting the toggle grid switches.
#[derive(Clone, Copy, PartialEq, Eq, Structural, Debug)]
pub enum ToggleId {
    ControlScheme,
    ChatLog,
    ChatBackground,
    TapPathfind,
    Joystick,
}

/// The settings the toggles read.
pub struct ToggleState {
    pub classic_controls: bool,
    pub chat_log_visible: bool,
    pub chat_log_background: bool,
    pub tap_to_pathfind: bool,
    pub use_joystick: bool,
}

/// One toggle of the grid.
pub struct Toggle {
    pub id: ToggleId,
    pub label: &'static str,
    pub on: bool,
}

/// The toggles, in grid order, as (id, label, on). On a desktop: the modern
/// control scheme, the chat log, its background, click-to-walk. On a phone:
/// the chat log, tap-to-walk and the joystick.
pub open spec fn toggles_of(android: bool, st: ToggleState) -> Seq<(ToggleId, Seq<char>, bool)> {
    if android {
        seq![
            (ToggleId::ChatLog, "Chat"@, st.chat_log_visible),
            (ToggleId::TapPathfind, "Tap walk"@, st.tap_to_pathfind),
            (ToggleId::Joystick, "Joystick"@, st.use_joystick),
        ]
    } else {
        seq![
            (ToggleId::ControlScheme, "Modern"@, !st.classic_controls),
            (ToggleId::ChatLog, "Chat"@, st.chat_log_visible),
            (ToggleId::ChatBackground, "Chat BG"@, st.chat_log_background),
            (ToggleId::TapPathfind, "Click walk"@, st.tap_to_pathfind),
        ]
    }
}

/// The toggles of the settings menu.
pub fn settings_toggles(android: bool, st: &ToggleState) -> (v: Vec<Toggle>)
    ensures
        v.len() == toggles_of(android, *st).len(),
        forall|k: int| 0 <= k < v.len() ==> ((#[trigger] v@[k]).id, v@[k].label@, v@[k].on) == toggles_of(android, *st)[k],
{
    if android {
        vec![
            Toggle { id: ToggleId::ChatLog, label: "Chat", on: st.chat_log_visible },
            Toggle { id: ToggleId::TapPathfind, label: "Tap walk", on: st.tap_to_pathfind },
            Toggle { id: ToggleId::Joystick, label: "Joystick", on: st.use_joystick },
        ]
    } else {
        vec![
            Toggle { id: ToggleId::ControlScheme, label: "Modern", on: !st.classic_controls },
            Toggle { id: ToggleId::ChatLog, label: "Chat", on: st.chat_log_visible },
            Toggle { id: ToggleId::ChatBackground, label: "Chat BG", on: st.chat_log_background },
            Toggle { id: ToggleId::TapPathfind, label: "Click walk", on: st.tap_to_pathfind },
        ]
    }
}

/// The cell of toggle `i` in the two-column grid: (column, row).
pub fn toggle_cell(i: usize) -> (r: (usize, usize))
    ensures
        r.0 == i % 2,
        r.1 == i / 2,
        r.1 * 2 + r.0 == i,
{
    (i % 2, i / 2)
}

/// How a part of a toggle row is drawn.
#[derive(Clone, Copy, PartialEq, Eq, Structural, Debug)]
pub enum Shade {
    /// Lit by being on.
    Lit,
    /// Under the pointer.
    Hover,
    /// Neither.
    Plain,
}

/// The look of a toggle row: its border, its background, whether its
/// label is bright, and whether it shows the check (on) or the dash (off).
pub struct ToggleLook {
    pub border: Shade,
    pub background: Shade,
    pub bright_label: bool,
    pub check: bool,
}

/// A toggle row's look: being on decides the border before hovering does,
/// hovering decides the background before being on does.
pub fn toggle_look(on: bool, hovered: bool) -> (l: ToggleLook)
    ensures
        l.border == (if on { Shade::Lit } else if hovered { Shade::Hover } else { Shade::Plain }),
        l.background == (if hovered { Shade::Hover } else if on { Shade::Lit } else { Shade::Plain }),
        l.bright_label == on,
        l.check == on,
{
    ToggleLook {
        border: if on { Shade::Lit } else if hovered { Shade::Hover } else { Shade::Plain },
        background: if hovered { Shade::Hover } else if on { Shade::Lit } else { Shade::Plain },
        bright_label: on,
        check: on,
    }
}

/// The look of one segment of a segmented selector (the 0.5x / 1x / 2x
/// zoom): the active one is lit whatever the pointer does.
pub fn segment_look(active: bool, hovered: bool) -> (s: Shade)
    ensures
        s == (if active { Shade::Lit } else if hovered { Shade::Hover } else { Shade::Plain }),
{
    if active { Shade::Lit } else if hovered { Shade::Hover } else { Shade::Plain }
}

/// The zoom choices of the selector, left to right.
pub fn zoom_labels() -> (v: Vec<&'static str>)
    ensures
        v.len() == 3,
        v@[0]@ == "0.5x"@ && v@[1]@ == "1x"@ && v@[2]@ == "2x"@,
{
    vec!["0.5x", "1x", "2x"]
}

/// Each toggle gets its own cell: two toggles never share one.
pub proof fn lemma_toggle_cells_distinct(i: nat, j: nat)
    requires
        i != j,
    ensures
        i % 2 != j % 2 || i / 2 != j / 2,
{
    assert(i == 2 * (i / 2) + i % 2);
    assert(j == 2 * (j / 2) + j % 2);
}

} // verus!
