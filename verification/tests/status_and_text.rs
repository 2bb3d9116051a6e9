use bmo_search::status::status_to_list;
use bmo_search::text::{decimal_string, format_assignee_short, format_date_short, trimmed};

#[test]
fn status_to_list_open() {
    let result = status_to_list("open");
    assert_eq!(result, vec!["NEW", "ASSIGNED", "REOPENED", "UNCONFIRMED"]);
}

#[test]
fn status_to_list_closed() {
    let result = status_to_list("closed");
    assert_eq!(result, vec!["RESOLVED", "VERIFIED", "CLOSED"]);
}

#[test]
fn status_to_list_all() {
    let result = status_to_list("all");
    assert!(result.is_empty());
}

#[test]
fn status_to_list_case_insensitive() {
    assert_eq!(status_to_list("Open"), status_to_list("open"));
    assert_eq!(status_to_list("CLOSED"), status_to_list("closed"));
}

#[test]
fn status_to_list_custom() {
    let result = status_to_list("NEW,ASSIGNED");
    assert_eq!(result, vec!["NEW", "ASSIGNED"]);
}

#[test]
fn status_to_list_mixed_case_all() {
    assert!(status_to_list("aLL").is_empty());
}

#[test]
fn status_to_list_keyword_with_extra_text_is_a_list() {
    assert_eq!(status_to_list("opened"), vec!["opened"]);
    assert_eq!(status_to_list("open,closed"), vec!["open", "closed"]);
}

#[test]
fn status_to_list_empty_pieces_are_kept() {
    assert_eq!(status_to_list(""), vec![""]);
    assert_eq!(status_to_list("NEW,"), vec!["NEW", ""]);
    assert_eq!(status_to_list(",,"), vec!["", "", ""]);
}

#[test]
fn status_to_list_kelvin_sign_is_not_a_keyword() {
    assert_eq!(status_to_list("\u{212A}"), vec!["\u{212A}"]);
}

#[test]
fn format_date_short_iso() {
    assert_eq!(format_date_short("2025-03-15T12:00:00Z"), "2025-03-15");
}

#[test]
fn format_date_short_exact_10() {
    assert_eq!(format_date_short("2025-03-15"), "2025-03-15");
}

#[test]
fn format_date_short_too_short() {
    assert_eq!(format_date_short("2025"), "2025");
}

#[test]
fn format_date_short_empty() {
    assert_eq!(format_date_short(""), "");
}

#[test]
fn format_date_short_counts_bytes() {
    // "é" takes two bytes: eight ASCII characters and one "é" make ten bytes.
    assert_eq!(format_date_short("abcdefghé-rest"), "abcdefghé");
}

#[test]
fn format_date_short_keeps_whole_when_tenth_byte_splits_a_character() {
    // Nine ASCII bytes, then a two-byte character across the boundary.
    assert_eq!(format_date_short("abcdefghié-rest"), "abcdefghié-rest");
}

#[test]
fn format_date_short_is_idempotent() {
    let once = format_date_short("2025-03-15T12:00:00Z");
    assert_eq!(format_date_short(once), once);
}

#[test]
fn format_assignee_short_email() {
    assert_eq!(format_assignee_short("dev@mozilla.org"), "dev");
}

#[test]
fn format_assignee_short_no_at() {
    assert_eq!(format_assignee_short("nobody"), "nobody");
}

#[test]
fn format_assignee_short_empty() {
    assert_eq!(format_assignee_short(""), "");
}

#[test]
fn format_assignee_short_first_at_wins() {
    assert_eq!(format_assignee_short("a@b@c"), "a");
    assert_eq!(format_assignee_short("@start"), "");
}

#[test]
fn decimal_string_values() {
    assert_eq!(decimal_string(0), "0");
    assert_eq!(decimal_string(7), "7");
    assert_eq!(decimal_string(1234567), "1234567");
    assert_eq!(decimal_string(u64::MAX), u64::MAX.to_string());
}

#[test]
fn trimmed_removes_unicode_white_space() {
    assert_eq!(trimmed("  S1\t"), "S1");
    assert_eq!(trimmed("\u{3000}S2\u{00A0}"), "S2");
    assert_eq!(trimmed("   "), "");
    assert_eq!(trimmed("a b"), "a b");
}

#[test]
fn status_to_list_custom_joins_back() {
    let value = "NEW,,ASSIGNED,";
    assert_eq!(status_to_list(value).join(","), value);
}
