use admin_console::utils::is_valid_time;

#[test]
fn empty_time_is_valid() {
    assert!(is_valid_time(""));
    assert!(is_valid_time("   "));
}

#[test]
fn last_minute_of_day_is_valid() {
    assert!(is_valid_time("23:59"));
}

#[test]
fn hour_out_of_range_is_invalid() {
    assert!(!is_valid_time("24:00"));
}

#[test]
fn single_digit_fields_parse_numerically() {
    assert!(is_valid_time("9:5"));
}

#[test]
fn minute_out_of_range_is_invalid() {
    assert!(!is_valid_time("9:65"));
}

#[test]
fn surrounding_whitespace_is_ignored() {
    assert!(is_valid_time("  07:00  "));
}

#[test]
fn missing_or_extra_separators_are_invalid() {
    assert!(!is_valid_time("0700"));
    assert!(!is_valid_time("07:00:00"));
    assert!(!is_valid_time(":30"));
    assert!(!is_valid_time("12:"));
    assert!(!is_valid_time(":"));
}

#[test]
fn signs_and_stray_characters_are_invalid() {
    assert!(!is_valid_time("+1:30"));
    assert!(!is_valid_time("1 :30"));
    assert!(!is_valid_time("aa:bb"));
    assert!(!is_valid_time("12:3a"));
}

#[test]
fn leading_zeros_are_accepted() {
    assert!(is_valid_time("09:05"));
    assert!(is_valid_time("0009:005"));
}
