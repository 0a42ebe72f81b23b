use edge_gateway::crc::crc16_compute;
use edge_gateway::msgfmt::{format_log, format_log_line, format_msg};
use edge_gateway::text::{chars_to_string, chars_vec, i64_dec_chars, replace_chars};

/// The CRC of the worked example: "0123" checks to 0xBBBB.
#[test]
fn crc_of_example_payload() {
    assert_eq!(crc16_compute(&vec![0x30, 0x31, 0x32, 0x33]), 0xBBBB);
}

/// The CRC of 255 '0' bytes, as carried by the longest legal frame.
#[test]
fn crc_of_full_length_payload() {
    assert_eq!(crc16_compute(&vec![0x30; 255]), 0xEB1D);
}

/// The CRC of nothing is the initial value.
#[test]
fn crc_of_empty() {
    assert_eq!(crc16_compute(&Vec::new()), 0);
}

#[test]
fn chars_round_trip() {
    let v = chars_vec("gateway ✓");
    assert_eq!(chars_to_string(&v), "gateway ✓");
}

#[test]
fn replace_all_occurrences() {
    let s: Vec<char> = "a<{x}>b<{x}>c".chars().collect();
    let from: Vec<char> = "<{x}>".chars().collect();
    let to: Vec<char> = "7".chars().collect();
    assert_eq!(chars_to_string(&replace_chars(&s, &from, &to)), "a7b7c");
}

#[test]
fn replace_without_occurrence() {
    let s: Vec<char> = "abc".chars().collect();
    let from: Vec<char> = "xyz".chars().collect();
    let to: Vec<char> = "!".chars().collect();
    assert_eq!(chars_to_string(&replace_chars(&s, &from, &to)), "abc");
}

#[test]
fn replace_is_not_recursive() {
    // The replacement text is not scanned again.
    let s: Vec<char> = "aa".chars().collect();
    let from: Vec<char> = "a".chars().collect();
    let to: Vec<char> = "ab".chars().collect();
    assert_eq!(chars_to_string(&replace_chars(&s, &from, &to)), "abab");
}

#[test]
fn decimal_rendering() {
    assert_eq!(chars_to_string(&i64_dec_chars(0)), "0");
    assert_eq!(chars_to_string(&i64_dec_chars(1700000000123)), "1700000000123");
    assert_eq!(chars_to_string(&i64_dec_chars(-42)), "-42");
    assert_eq!(
        chars_to_string(&i64_dec_chars(i64::MIN)),
        "-9223372036854775808"
    );
    assert_eq!(
        chars_to_string(&i64_dec_chars(i64::MAX)),
        "9223372036854775807"
    );
}

#[test]
fn log_line_with_message() {
    assert_eq!(
        format_log_line("2024-01-02 03:04:05", "sent"),
        "{\"LOGS\": \"[2024-01-02 03:04:05]: sent\"}"
    );
}

#[test]
fn log_line_without_message() {
    assert_eq!(
        format_log_line("2024-01-02 03:04:05", ""),
        "{\"LOGS\": \"[2024-01-02 03:04:05]\"}"
    );
}

/// The stamped log record has the fixed JSON shape around the clock text.
#[test]
fn format_log_shape() {
    let log = format_log("hello").unwrap();
    assert!(log.starts_with("{\"LOGS\": \"["));
    assert!(log.ends_with("]: hello\"}"));
}

/// A reading formatted against the template: the labels are looked up,
/// the string is quoted, the number is copied, the timestamp is filled.
#[test]
fn format_msg_fills_template() {
    let template = "{<{name}>: [{\"ts\": <#TS#>,\"values\": <{value}>}]}";
    let original = "{\"name\": \"sensor\", \"value\": 42}";
    let msg = format_msg(original, template).unwrap();
    assert!(msg.starts_with("{\"sensor\": [{\"ts\": "));
    assert!(msg.ends_with(",\"values\": 42}]}"));
    // The timestamp between the fixed parts is a plain number.
    let middle = &msg["{\"sensor\": [{\"ts\": ".len()..msg.len() - ",\"values\": 42}]}".len()];
    assert!(!middle.is_empty());
    assert!(middle.chars().all(|c| c.is_ascii_digit()));
}

/// A reading that is not JSON is rejected.
#[test]
fn format_msg_rejects_bad_reading() {
    let template = "{<{name}>: [{\"ts\": <#TS#>,\"values\": <{value}>}]}";
    assert_eq!(format_msg("not json", template), Err(()));
}

/// A substitution that breaks the JSON shape is rejected.
#[test]
fn format_msg_rejects_bad_outcome() {
    // The template is not JSON even after every placeholder is filled.
    let template = "<{name}>: [";
    let original = "{\"name\": \"sensor\"}";
    assert_eq!(format_msg(original, template), Err(()));
}
