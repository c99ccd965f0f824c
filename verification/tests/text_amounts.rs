use client_ui::text::{capitalize, compare_text, format_number, format_stat_bonus, int_to_string, same_text, text_contains};
use client_ui::solst::{format_solst, parse_price_to_base};
use client_ui::bank::{available_text, dialog_title, format_bank_quantity, gold_text, grid_cell, grid_rows, text_before_cursor, QuantityAction, BANK_COLS, INV_COLS};

#[test]
fn format_number_groups_thousands() {
    assert_eq!(format_number(1234567), "1,234,567");
    assert_eq!(format_number(999), "999");
    assert_eq!(format_number(1000), "1,000");
    assert_eq!(format_number(0), "0");
}

#[test]
fn format_number_keeps_the_sign_out_of_the_groups() {
    assert_eq!(format_number(-123), "-123");
    assert_eq!(format_number(-1234), "-1,234");
    assert_eq!(format_number(-123456), "-123,456");
    assert_eq!(format_number(i64::MIN), "-9,223,372,036,854,775,808");
    assert_eq!(format_number(i64::MAX), "9,223,372,036,854,775,807");
}

#[test]
fn format_number_reads_back_without_commas() {
    for n in [0i64, 7, 42, 999, 1_000, 12_345, 999_999, 1_000_000, 1_234_567_890] {
        let text = format_number(n);
        assert_eq!(text.replace(",", ""), n.to_string());
        let digits = n.to_string().len();
        assert_eq!(text.matches(',').count(), (digits - 1) / 3);
        let groups: Vec<&str> = text.split(',').collect();
        assert!(groups[0].len() >= 1 && groups[0].len() <= 3);
        for g in &groups[1..] {
            assert_eq!(g.len(), 3);
        }
    }
}

#[test]
fn format_stat_bonus_signs() {
    assert_eq!(format_stat_bonus(5), "+5");
    assert_eq!(format_stat_bonus(0), "0");
    assert_eq!(format_stat_bonus(-22), "-22");
}

#[test]
fn format_stat_bonus_reads_back() {
    for v in [i32::MIN, -22, -1, 0, 1, 5, i32::MAX] {
        let text = format_stat_bonus(v);
        assert!(!text.contains("+-"));
        assert_eq!(text.trim_start_matches('+').parse::<i32>(), Ok(v));
        assert_eq!(text.parse::<i64>(), Ok(v as i64));
    }
}

#[test]
fn capitalize_first_letter() {
    assert_eq!(capitalize("supplies"), "Supplies");
    assert_eq!(capitalize(""), "");
    assert_eq!(capitalize("éclair"), "éclair");
}

#[test]
fn text_compare_and_search() {
    assert_eq!(compare_text("apple", "banana"), -1);
    assert_eq!(compare_text("b", "a"), 1);
    assert_eq!(compare_text("ab", "ab"), 0);
    assert_eq!(compare_text("ab", "abc"), -1);
    assert!(same_text("x", "x"));
    assert!(!same_text("x", "y"));
    assert!(text_contains("big_bones", "bones"));
    assert!(!text_contains("bone", "bones"));
    assert!(text_contains("anything", ""));
    assert_eq!(int_to_string(-42), "-42");
}

#[test]
fn format_solst_examples() {
    assert_eq!(format_solst(1_500_000, 6), "1.5");
    assert_eq!(format_solst(1_234_567, 6), "1.234");
    assert_eq!(format_solst(-1_500_000, 6), "-1.5");
    assert_eq!(format_solst(2_000_000, 6), "2");
    assert_eq!(format_solst(5, 0), "5");
    assert_eq!(format_solst(7, 3), "0.007");
    assert_eq!(format_solst(-15, 1), "-1.5");
}

#[test]
fn parse_price_examples() {
    assert_eq!(parse_price_to_base("1.5", 6), Some(1_500_000));
    assert_eq!(parse_price_to_base("  2 ", 6), Some(2_000_000));
    assert_eq!(parse_price_to_base(".25", 2), Some(25));
    assert_eq!(parse_price_to_base("1.23456789", 6), Some(1_234_567));
    assert_eq!(parse_price_to_base("", 6), None);
    assert_eq!(parse_price_to_base("   ", 6), None);
    assert_eq!(parse_price_to_base("abc", 6), None);
    assert_eq!(parse_price_to_base("1.x", 6), None);
    // With no decimal places the fraction is cut to nothing, which is not a number.
    assert_eq!(parse_price_to_base("1.5", 0), None);
    assert_eq!(parse_price_to_base("7", 0), Some(7));
    // Overflow of the scaled amount is refused.
    assert_eq!(parse_price_to_base("9223372036854775807", 1), None);
}

#[test]
fn parse_price_negative_amounts() {
    assert_eq!(parse_price_to_base("-1.5", 6), Some(-1_500_000));
    assert_eq!(parse_price_to_base("-0.5", 6), Some(-500_000));
    assert_eq!(parse_price_to_base("-2", 6), Some(-2_000_000));
    assert_eq!(parse_price_to_base(" -0.007 ", 3), Some(-7));
    assert_eq!(parse_price_to_base("-9223372036854.775808", 6), Some(i64::MIN));
    assert_eq!(parse_price_to_base("-9223372036854.775809", 6), None);
    assert_eq!(parse_price_to_base(&format_solst(-1_500_000, 6), 6), Some(-1_500_000));
    assert_eq!(parse_price_to_base(&format_solst(-15, 1), 1), Some(-15));
}

#[test]
fn solst_round_trip_on_three_decimals() {
    for base in [0i64, 1, 999, 1_000, 1_234_000, 42_000_000, -1_000, -1_234_000, -42_500_000] {
        let text = format_solst(base, 6);
        if base % 1_000 == 0 {
            assert_eq!(parse_price_to_base(&text, 6), Some(base));
        }
    }
    assert_eq!(parse_price_to_base(&format_solst(1_234, 3), 3), Some(1_234));
}

#[test]
fn bank_quantity_scales() {
    assert_eq!(format_bank_quantity(99_999), "99999");
    assert_eq!(format_bank_quantity(100_000), "100K");
    assert_eq!(format_bank_quantity(150_000), "150K");
    assert_eq!(format_bank_quantity(1_500_000), "1500K");
    assert_eq!(format_bank_quantity(9_999_999), "9999.9K");
    assert_eq!(format_bank_quantity(10_000_000), "10M");
    assert_eq!(format_bank_quantity(12_345_678), "12.3M");
    assert_eq!(format_bank_quantity(1_000_000_000), "1B");
    assert_eq!(format_bank_quantity(i32::MAX), "2.1B");
    assert_eq!(format_bank_quantity(-5), "-5");
}

#[test]
fn bank_grid_geometry() {
    assert_eq!(grid_rows(0, BANK_COLS), 0);
    assert_eq!(grid_rows(6, BANK_COLS), 1);
    assert_eq!(grid_rows(7, BANK_COLS), 2);
    assert_eq!(grid_rows(20, INV_COLS), 5);
    assert_eq!(grid_cell(7, BANK_COLS), (1, 1));
    assert_eq!(grid_cell(19, INV_COLS), (4, 3));
}

#[test]
fn bank_dialog_texts() {
    assert_eq!(dialog_title(QuantityAction::WithdrawGold), "WITHDRAW GOLD");
    assert_eq!(dialog_title(QuantityAction::DepositItem), "DEPOSIT ITEM");
    assert_eq!(available_text(QuantityAction::DepositGold, 250), "Available: 250g");
    assert_eq!(available_text(QuantityAction::WithdrawItem, 3), "Available: 3");
    assert_eq!(gold_text(1200), "1200g");
    assert_eq!(text_before_cursor("héllo", 2), "hé");
    assert_eq!(text_before_cursor("abc", 10), "abc");
}
