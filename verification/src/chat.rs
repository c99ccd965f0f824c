//! The chat panel: how a message reads on each channel, how the channel
//! tabs are marked, and which wrapped lines the scrolled view shows.

use vstd::prelude::*;
use crate::text::{nat_text, push_str, push_u64};

verus! {

/// A chat channel.
#[derive(Clone, Copy, PartialEq, Eq, Structural, Debug)]
pub enum ChatChannel {
    Local,
    Global,
    System,
}

/// A chat message.
pub struct ChatMessage {
    pub channel: ChatChannel,
    pub sender_name: String,
    pub text: String,
}

/// How a message line reads: "{sender}: {text}" in public chat,
/// "[G] {sender}: {text}" in global chat, "{sender} {text}" from the system.
pub open spec fn message_line(m: ChatMessage) -> Seq<char> {
    match m.channel {
        ChatChannel::Local => m.sender_name@ + ": "@ + m.text@,
        ChatChannel::Global => "[G] "@ + m.sender_name@ + ": "@ + m.text@,
        ChatChannel::System => m.sender_name@ + " "@ + m.text@,
    }
}

/// The text of a message before it is wrapped; it is drawn in its
/// channel's colour.
pub fn message_text(m: &ChatMessage) -> (s: String)
    ensures
        s@ == message_line(*m),
{
    let mut s = String::new();
    match m.channel {
        ChatChannel::Local => {
            push_str(&mut s, m.sender_name.as_str());
            push_str(&mut s, ": ");
            push_str(&mut s, m.text.as_str());
        },
        ChatChannel::Global => {
            push_str(&mut s, "[G] ");
            push_str(&mut s, m.sender_name.as_str());
            push_str(&mut s, ": ");
            push_str(&mut s, m.text.as_str());
        },
        ChatChannel::System => {
            push_str(&mut s, m.sender_name.as_str());
            push_str(&mut s, " ");
            push_str(&mut s, m.text.as_str());
        },
    }
    assert(s@ =~= message_line(*m));
    s
}

/// How a channel tab's label is drawn.
#[derive(Clone, Copy, PartialEq, Eq, Structural, Debug)]
pub enum TabTone {
    Active,
    Unread,
    Dim,
}

/// A channel has unread messages when its newest message is newer than the
/// last one seen on it.
pub open spec fn unread(latest: Option<u64>, last_seen: u64) -> bool {
    match latest {
        Some(t) => t > last_seen,
        None => false,
    }
}

/// The tone of a channel tab: the active tab is highlighted, an inactive
/// one with unread messages is marked, any other is dim.
pub fn tab_tone(active: bool, latest: Option<u64>, last_seen: u64) -> (t: TabTone)
    ensures
        t == (if active { TabTone::Active } else if unread(latest, last_seen) { TabTone::Unread } else { TabTone::Dim }),
{
    let has_unread = match latest {
        Some(ts) => ts > last_seen,
        None => false,
    };
    if active {
        TabTone::Active
    } else if has_unread {
        TabTone::Unread
    } else {
        TabTone::Dim
    }
}

/// The lines `[start, end)` drawn when the view is scrolled up by
/// `scroll_lines` whole lines: the newest line sits at the bottom, one line
/// more than fits is drawn for the partly visible top line.
pub open spec fn window_of(total: nat, scroll_lines: nat, max_lines: nat) -> (nat, nat) {
    let end: nat = if scroll_lines < total { (total - scroll_lines) as nat } else { 0 };
    let start: nat = if max_lines + 1 < end { (end - (max_lines + 1)) as nat } else { 0 };
    (start, end)
}

/// The range of wrapped lines to draw.
pub fn visible_window(total: usize, scroll_lines: usize, max_lines: usize) -> (r: (usize, usize))
    requires
        max_lines < usize::MAX,
    ensures
        (r.0 as nat, r.1 as nat) == window_of(total as nat, scroll_lines as nat, max_lines as nat),
{
    let end = total.saturating_sub(scroll_lines);
    let start = end.saturating_sub(max_lines + 1);
    (start, end)
}

/// The drawn range lies within the lines, holds at most one line more than
/// fits, ends on the newest line when the view is not scrolled, and shows
/// the full window whenever enough older lines exist.
pub proof fn lemma_window_laws(total: nat, scroll_lines: nat, max_lines: nat)
    ensures
        window_of(total, scroll_lines, max_lines).0 <= window_of(total, scroll_lines, max_lines).1 <= total,
        window_of(total, scroll_lines, max_lines).1 - window_of(total, scroll_lines, max_lines).0 <= max_lines + 1,
        scroll_lines == 0 ==> window_of(total, scroll_lines, max_lines).1 == total,
        scroll_lines + max_lines + 1 <= total ==> window_of(total, scroll_lines, max_lines).1
            - window_of(total, scroll_lines, max_lines).0 == max_lines + 1,
{
}

/// "▲ {n} more lines", shown above the view when older lines are hidden.
pub fn more_lines_indicator(start: usize) -> (r: Option<String>)
    ensures
        r is None <==> start == 0,
        r matches Some(s) ==> s@ == "▲ "@ + nat_text(start as nat) + " more lines"@,
{
    if start == 0 {
        return None;
    }
    let mut s = String::new();
    push_str(&mut s, "▲ ");
    push_u64(&mut s, start as u64);
    push_str(&mut s, " more lines");
    Some(s)
}

/// What the input field shows: the typed text, or a prompt when empty.
pub fn input_display(input: &str) -> (s: &str)
    ensures
        s@ == (if input@.len() == 0 { "Tap to chat..."@ } else { input@ }),
{
    if input.is_empty() { "Tap to chat..." } else { input }
}

} // verus!
