use rustflix::scrapers::normalize::{
    avatar_source, color_flag_of, has_color, non_empty, parse_iso_duration, run_time_of,
    unescape_str, unescape_string,
};
use rustflix::text::{nth_split, parse_i32, parse_u32, split_text, ParseIntError};

#[test]
fn duration_of_hours_and_minutes() {
    assert_eq!(parse_iso_duration("PT2H28M"), Ok(8880));
}

#[test]
fn duration_of_minutes_alone() {
    assert_eq!(parse_iso_duration("PT45M"), Ok(2700));
}

#[test]
fn duration_of_hours_alone() {
    assert_eq!(parse_iso_duration("PT1H"), Ok(3600));
}

#[test]
fn duration_without_units_is_zero() {
    assert_eq!(parse_iso_duration("PT"), Ok(0));
    assert_eq!(parse_iso_duration(""), Ok(0));
    assert_eq!(parse_iso_duration("P1D"), Ok(0));
}

#[test]
fn duration_strips_every_leading_marker() {
    assert_eq!(parse_iso_duration("PTPT3M"), Ok(180));
    assert_eq!(parse_iso_duration("2H"), Ok(7200));
}

#[test]
fn duration_with_malformed_number_fails() {
    assert_eq!(parse_iso_duration("PTxH"), Err(ParseIntError::InvalidDigit));
    assert_eq!(parse_iso_duration("PTH"), Err(ParseIntError::Empty));
    assert_eq!(parse_iso_duration("PT1H2.5M"), Err(ParseIntError::InvalidDigit));
    assert_eq!(parse_iso_duration("PT30M1H"), Err(ParseIntError::InvalidDigit));
    assert_eq!(parse_iso_duration("PT99999999999H"), Err(ParseIntError::PosOverflow));
    assert_eq!(parse_iso_duration("PT-99999999999M"), Err(ParseIntError::NegOverflow));
}

#[test]
fn duration_takes_signs_and_large_counts() {
    assert_eq!(parse_iso_duration("PT+1H-1M"), Ok(3540));
    assert_eq!(parse_iso_duration("PT2147483647H2147483647M"), Ok(2147483647i64 * 3660));
    assert_eq!(parse_iso_duration("PT-2147483648H"), Ok(-2147483648i64 * 3600));
}

#[test]
fn duration_ignores_minutes_without_letter() {
    assert_eq!(parse_iso_duration("PT1H30"), Ok(3600));
}

#[test]
fn run_time_is_unknown_for_unreadable_duration() {
    assert_eq!(run_time_of(&Some("PT2H28M".to_string())), Some(8880));
    assert_eq!(run_time_of(&Some("PTabcM".to_string())), None);
    assert_eq!(run_time_of(&None), None);
}

#[test]
fn color_is_true_for_color_only() {
    assert!(has_color(&"Color".to_string()));
    assert!(!has_color(&"Black and White".to_string()));
    assert!(!has_color(&"color".to_string()));
    assert!(!has_color(&"".to_string()));
}

#[test]
fn color_flag_follows_presence() {
    assert_eq!(color_flag_of(&Some("Color".to_string())), Some(true));
    assert_eq!(color_flag_of(&Some("Black and White".to_string())), Some(false));
    assert_eq!(color_flag_of(&None), None);
}

#[test]
fn non_empty_drops_the_empty_text() {
    assert_eq!(non_empty(String::new()), None);
    assert_eq!(non_empty("a".to_string()), Some("a".to_string()));
}

#[test]
fn unescape_decodes_references() {
    assert_eq!(unescape_str(Some("Tom &amp; Jerry")), Some("Tom & Jerry".to_string()));
    assert_eq!(unescape_str(Some("L&#39;avventura")), Some("L'avventura".to_string()));
    assert_eq!(unescape_string("&quot;M&quot;".to_string()), Some("\"M\"".to_string()));
}

#[test]
fn unescape_decodes_twice() {
    assert_eq!(unescape_str(Some("Tom &amp;amp; Jerry")), Some("Tom & Jerry".to_string()));
    assert_eq!(unescape_str(Some("&amp;lt;")), Some("<".to_string()));
}

#[test]
fn unescape_of_nothing_is_nothing() {
    assert_eq!(unescape_str(None), None);
    assert_eq!(unescape_str(Some("")), None);
    assert_eq!(unescape_string(String::new()), None);
}

#[test]
fn avatar_is_address_of_last_candidate() {
    assert_eq!(
        avatar_source("https://a/1.jpg 140w, https://a/2.jpg 210w, https://a/3.jpg 280w"),
        Some("https://a/3.jpg".to_string())
    );
    assert_eq!(avatar_source("https://a/1.jpg"), Some("https://a/1.jpg".to_string()));
    assert_eq!(avatar_source("  https://a/1.jpg\t2x"), Some("https://a/1.jpg".to_string()));
}

#[test]
fn avatar_of_blank_candidate_is_none() {
    assert_eq!(avatar_source(""), None);
    assert_eq!(avatar_source("https://a/1.jpg 1x, "), None);
    assert_eq!(avatar_source("https://a/1.jpg 1x,  \u{3000}"), None);
}

#[test]
fn avatar_splits_at_comma_space_only() {
    assert_eq!(avatar_source("a,b 1x,c 2x"), Some("a,b".to_string()));
    assert_eq!(avatar_source("a, , b"), Some("b".to_string()));
}

#[test]
fn split_keeps_empty_pieces() {
    assert_eq!(split_text("a,b,,c", ','), vec!["a", "b", "", "c"]);
    assert_eq!(split_text("", ','), vec![""]);
    assert_eq!(split_text(",", ','), vec!["", ""]);
    assert_eq!(split_text("héllo", ','), vec!["héllo"]);
}

#[test]
fn nth_piece_of_a_path() {
    assert_eq!(nth_split("/name/nm0000123/?ref_=tt", '/', 2), Some("nm0000123".to_string()));
    assert_eq!(nth_split("/name", '/', 2), None);
    assert_eq!(
        nth_split("https://www.imdb.com/name/nm0000217/", '/', 4),
        Some("nm0000217".to_string())
    );
}

#[test]
fn decimal_follows_the_integer_grammar() {
    assert_eq!(parse_i32("-12"), Ok(-12));
    assert_eq!(parse_i32("+7"), Ok(7));
    assert_eq!(parse_i32("007"), Ok(7));
    assert_eq!(parse_i32(""), Err(ParseIntError::Empty));
    assert_eq!(parse_i32("-"), Err(ParseIntError::InvalidDigit));
    assert_eq!(parse_i32(" 1"), Err(ParseIntError::InvalidDigit));
    assert_eq!(parse_i32("2147483648"), Err(ParseIntError::PosOverflow));
    assert_eq!(parse_i32("-2147483649"), Err(ParseIntError::NegOverflow));
    assert_eq!(parse_i32("-2147483648"), Ok(i32::MIN));
    assert_eq!(parse_u32("4294967295"), Ok(u32::MAX));
    assert_eq!(parse_u32("4294967296"), Err(ParseIntError::PosOverflow));
    assert_eq!(parse_u32("-1"), Err(ParseIntError::InvalidDigit));
    assert_eq!(parse_u32("+1"), Ok(1));
}
