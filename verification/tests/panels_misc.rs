use client_ui::board::{
    board_elements, contract_tracker, BoardElement,
    claim_button, contract_title, difficulty_row, kind_accent, lane_header, lane_title, progress_fraction, progress_text,
    reward_lines, rewards_text, skill_badge, stat_cards, turn_in_text, KindAccent, StatusTone,
};
use client_ui::chat::{input_display, message_text, more_lines_indicator, tab_tone, visible_window, ChatChannel, ChatMessage, TabTone};
use client_ui::character::{
    equipment_slots, get_combat_styles_for_weapon, retaliate_toggle, shop_button_label, stat_labels, stat_value_color,
    style_is_active, style_tooltip_title, StatTone,
};
use client_ui::common::{clamp_index, emphasis, slot_state, Emphasis, SlotState};
use client_ui::banner::{is_visible, phase_after_expiry, phase_on_show, BannerPhase, PhaseLength};

#[test]
fn slot_states_and_emphasis() {
    assert_eq!(slot_state(true, true), SlotState::Dragging);
    assert_eq!(slot_state(false, true), SlotState::Hovered);
    assert_eq!(slot_state(false, false), SlotState::Normal);
    assert_eq!(emphasis(true, true), Emphasis::Selected);
    assert_eq!(emphasis(false, true), Emphasis::Hovered);
    assert_eq!(emphasis(false, false), Emphasis::Normal);
}

#[test]
fn clamp_index_cases() {
    assert_eq!(clamp_index(0, 0), 0);
    assert_eq!(clamp_index(5, 0), 0);
    assert_eq!(clamp_index(2, 3), 2);
    assert_eq!(clamp_index(7, 3), 2);
    assert_eq!(clamp_index(clamp_index(7, 3), 3), 2);
}

#[test]
fn board_lanes_and_rows() {
    assert_eq!(kind_accent("fishing"), KindAccent::Fishing);
    assert_eq!(kind_accent("cooking"), KindAccent::Frame);
    assert_eq!(lane_title("Mining"), "MINING");
    assert_eq!(lane_header("Farming"), "FARMING CONTRACTS");
    assert_eq!(skill_badge(12), "Skill 12");
    assert_eq!(rewards_text(150, 30), "150 XP  30 gp");
    let busy = difficulty_row(true, true, 5);
    assert!(!busy.available);
    assert_eq!((busy.status.as_str(), busy.tone), ("Active job in progress", StatusTone::Busy));
    let open = difficulty_row(false, true, 5);
    assert!(open.available);
    assert_eq!((open.status.as_str(), open.tone), ("Take contract", StatusTone::Open));
    let locked = difficulty_row(false, false, 20);
    assert!(!locked.available);
    assert_eq!((locked.status.as_str(), locked.tone), ("Requires 20", StatusTone::Locked));
}

#[test]
fn board_active_contract() {
    assert_eq!(contract_title("Hard", "Mining"), "Hard Mining");
    assert_eq!(turn_in_text("Foreman"), "Turn in: Foreman");
    assert_eq!(progress_text(3, 10, "ore mined"), "3/10 ore mined");
    assert_eq!(progress_fraction(3, 10), (3, 10));
    assert_eq!(progress_fraction(12, 10), (10, 10));
    assert_eq!(progress_fraction(5, 0), (0, 1));
    assert_eq!(reward_lines(100, 50, ""), vec!["Reward: 100 XP".to_string(), "Reward: 50 gp".to_string()]);
    assert_eq!(reward_lines(1, 2, "Gem").len(), 3);
    assert_eq!(reward_lines(1, 2, "Gem")[2], "Bonus: Gem");
    let b = claim_button(true, true);
    assert_eq!((b.label.as_str(), b.enabled, b.emphasis), ("Claim Rewards", true, Emphasis::Hovered));
    let b = claim_button(false, true);
    assert_eq!((b.label.as_str(), b.enabled, b.emphasis), ("Finish Contract", false, Emphasis::Normal));
    let cards = stat_cards(4, 1200, 340);
    assert_eq!(cards[0], ("Completed".to_string(), "4".to_string()));
    assert_eq!(cards[2], ("Total Gold".to_string(), "340".to_string()));
}

#[test]
fn chat_lines_and_window() {
    let m = |channel, sender: &str, text: &str| ChatMessage { channel, sender_name: sender.to_string(), text: text.to_string() };
    assert_eq!(message_text(&m(ChatChannel::Local, "Ann", "hi")), "Ann: hi");
    assert_eq!(message_text(&m(ChatChannel::Global, "Bo", "yo")), "[G] Bo: yo");
    assert_eq!(message_text(&m(ChatChannel::System, "[Server]", "restart")), "[Server] restart");
    assert_eq!(tab_tone(true, Some(9), 1), TabTone::Active);
    assert_eq!(tab_tone(false, Some(9), 1), TabTone::Unread);
    assert_eq!(tab_tone(false, Some(1), 1), TabTone::Dim);
    assert_eq!(tab_tone(false, None, 0), TabTone::Dim);
    assert_eq!(visible_window(100, 0, 10), (89, 100));
    assert_eq!(visible_window(100, 5, 10), (84, 95));
    assert_eq!(visible_window(5, 0, 10), (0, 5));
    assert_eq!(visible_window(5, 9, 10), (0, 0));
    assert_eq!(more_lines_indicator(0), None);
    assert_eq!(more_lines_indicator(12), Some("▲ 12 more lines".to_string()));
    assert_eq!(input_display(""), "Tap to chat...");
    assert_eq!(input_display("hey"), "hey");
}

#[test]
fn character_styles_and_stats() {
    let melee = get_combat_styles_for_weapon(None);
    assert_eq!(melee.iter().map(|s| s.id).collect::<Vec<_>>(), vec!["accurate", "aggressive", "defensive", "controlled"]);
    let ranged = get_combat_styles_for_weapon(Some("ranged"));
    assert_eq!(ranged.iter().map(|s| s.short_label).collect::<Vec<_>>(), vec!["Acc", "Rapid", "Long"]);
    assert_eq!(get_combat_styles_for_weapon(Some("melee")).len(), 4);
    assert_eq!(style_tooltip_title(&ranged[2]), "Long range (Ranged/Defence)");
    assert!(style_is_active("accurate", None));
    assert!(!style_is_active("rapid", None));
    assert!(style_is_active("rapid", Some("rapid")));
    assert_eq!(stat_value_color(-1), StatTone::Negative);
    assert_eq!(stat_value_color(0), StatTone::Zero);
    assert_eq!(stat_value_color(4), StatTone::Identity);
    assert_eq!(stat_labels(), vec!["ATK", "STR", "DEF", "MAG", "RNG"]);
    assert_eq!(equipment_slots()[3], ("weapon", 2, 1));
    assert_eq!(retaliate_toggle(true, false), ("ON", Emphasis::Selected));
    assert_eq!(retaliate_toggle(false, true), ("OFF", Emphasis::Hovered));
    assert_eq!(shop_button_label(false, true), "Close Shop");
    assert_eq!(shop_button_label(false, false), "Open Shop");
}

#[test]
fn banner_phase_cycle() {
    let (mut phase, len) = phase_on_show();
    assert_eq!((phase, len), (BannerPhase::FadingIn, PhaseLength::FadeIn));
    let mut seen = vec![phase];
    while let Some((next, _)) = phase_after_expiry(phase) {
        phase = next;
        seen.push(phase);
    }
    assert_eq!(seen, vec![BannerPhase::FadingIn, BannerPhase::Holding, BannerPhase::FadingOut, BannerPhase::Hidden]);
    assert_eq!(phase_after_expiry(BannerPhase::Holding), Some((BannerPhase::FadingOut, PhaseLength::FadeOut)));
    assert_eq!(phase_after_expiry(BannerPhase::FadingOut), Some((BannerPhase::Hidden, PhaseLength::Zero)));
    assert!(!is_visible(BannerPhase::Hidden));
    assert!(is_visible(BannerPhase::Holding));
}

#[test]
fn board_elements_follow_the_state() {
    assert_eq!(board_elements(&[], 0, false), vec![BoardElement::Close]);
    assert_eq!(
        board_elements(&[2, 3], 1, false),
        vec![
            BoardElement::Close,
            BoardElement::Offer(0),
            BoardElement::Offer(1),
            BoardElement::Difficulty(0),
            BoardElement::Difficulty(1),
            BoardElement::Difficulty(2),
        ]
    );
    assert_eq!(
        board_elements(&[1], 7, true),
        vec![BoardElement::Close, BoardElement::Offer(0), BoardElement::Difficulty(0), BoardElement::Claim, BoardElement::Abandon]
    );
}

#[test]
fn contract_tracker_texts() {
    let t = contract_tracker("Chop 10 logs", "Easy", 4, 10, "logs", "Forester");
    assert_eq!(t.title, "Chop 10 logs (Easy)");
    assert_eq!(t.progress, "[ ] 4/10 logs");
    assert!(!t.complete);
    assert_eq!(t.return_line, None);
    let done = contract_tracker("Mine ore", "Hard", 12, 10, "ore", "Smith");
    assert_eq!(done.progress, "[x] 12/10 ore");
    assert!(done.complete);
    assert_eq!(done.return_line, Some("[ ] Return to Smith".to_string()));
}
