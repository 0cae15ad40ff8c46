//! Unit tests for the text utilities, number parsing, colors and marks.

use adf_convert::clean_surrounding_text;
use adf_convert::extract_style;
use adf_convert::model::{AdfMark, MarkAction, TextColor};
use adf_convert::num::{format_i64, format_u32, parse_i64, parse_px, parse_u32};
use adf_convert::text::{str_eq, str_eq_ignore_ascii_case, trim_str};

#[test]
fn html_test_clean_surrounding_text() {
    assert_eq!(clean_surrounding_text("\n  Heading 1  \n  "), "  Heading 1  ");
    assert_eq!(clean_surrounding_text("\nHeading 1"), "Heading 1");
    assert_eq!(clean_surrounding_text("Heading 1\n  "), "Heading 1");
    assert_eq!(clean_surrounding_text("Heading 1"), "Heading 1");
    assert_eq!(clean_surrounding_text("   Heading 1   "), "   Heading 1   ");
    assert_eq!(clean_surrounding_text("\n   Heading 1   "), "   Heading 1   ");
    assert_eq!(clean_surrounding_text("   Heading 1   \n"), "   Heading 1   ");
}

#[test]
fn test_extract_style_properties() {
    assert_eq!(
        extract_style("width: 659px; height: 291px", "width"),
        Some("659px".to_string())
    );
    assert_eq!(
        extract_style("width: 659px; height: 291px", "height"),
        Some("291px".to_string())
    );
    assert_eq!(extract_style("color: red", "background-color"), None);
    assert_eq!(
        extract_style("COLOR: Red", "color"),
        Some("Red".to_string())
    );
    assert_eq!(extract_style("", "color"), None);
}

#[test]
fn test_number_parsing_and_formatting() {
    assert_eq!(parse_u32("659"), Some(659));
    assert_eq!(parse_u32(""), None);
    assert_eq!(parse_u32("12a"), None);
    assert_eq!(parse_u32("4294967295"), Some(u32::MAX));
    assert_eq!(parse_u32("4294967296"), None);
    assert_eq!(parse_px(" 659px "), Some(659));
    assert_eq!(parse_px("abc"), None);
    assert_eq!(parse_i64("-12"), Some(-12));
    assert_eq!(parse_i64("1700000000"), Some(1700000000));
    assert_eq!(format_u32(0), "0");
    assert_eq!(format_u32(659), "659");
    assert_eq!(format_i64(-12), "-12");
    assert_eq!(format_i64(1700000000), "1700000000");
}

#[test]
fn test_text_helpers() {
    assert!(str_eq("abc", "abc"));
    assert!(!str_eq("abc", "abd"));
    assert!(str_eq_ignore_ascii_case("CheckBox", "checkbox"));
    assert!(!str_eq_ignore_ascii_case("checkbox", "radio"));
    assert_eq!(trim_str("  a b  "), "a b");
    assert_eq!(trim_str(" \t\n "), "");
}

#[test]
fn test_text_color_mapping() {
    assert_eq!(TextColor::BoldBlue.as_hex_string(), "#0747a6");
    assert_eq!(TextColor::from_hex_string("#0747a6"), Some(TextColor::BoldBlue));
    assert_eq!(TextColor::from_hex_string("#123456"), None);
    let table = TextColor::mapping();
    assert_eq!(table.len(), 20);
    for (hex, color) in &table {
        assert_eq!(&color.as_hex_string(), hex);
    }
}

#[test]
fn test_markup_strings() {
    assert_eq!(AdfMark::Code.markup_string(), Some("`".to_string()));
    assert_eq!(AdfMark::Strong.markup_string(), Some("**".to_string()));
    assert_eq!(
        AdfMark::TextColor { color: "#0747a6".to_string() }.markup_string(),
        Some("{color:bold_blue}".to_string())
    );
    assert_eq!(AdfMark::TextColor { color: "#totally".to_string() }.markup_string(), None);
    assert_eq!(
        AdfMark::BackgroundColor { color: "#fff".to_string() }.markup_string(),
        None
    );
}

#[test]
fn test_mark_action_code_exclusive() {
    let mut marks = vec![AdfMark::Strong, AdfMark::Em];
    MarkAction::Add(AdfMark::Code).apply_to(&mut marks);
    assert_eq!(marks, vec![AdfMark::Code]);
    MarkAction::Remove(AdfMark::Code).apply_to(&mut marks);
    assert_eq!(marks, Vec::<AdfMark>::new());
    MarkAction::Add(AdfMark::Strong).apply_to(&mut marks);
    assert_eq!(marks, vec![AdfMark::Strong]);
}

#[test]
fn test_mark_action_dedups() {
    let mut marks = vec![AdfMark::Strong];
    MarkAction::Add(AdfMark::Strong).apply_to(&mut marks);
    assert_eq!(marks, vec![AdfMark::Strong]);
    MarkAction::Add(AdfMark::Em).apply_to(&mut marks);
    assert_eq!(marks, vec![AdfMark::Strong, AdfMark::Em]);
}
