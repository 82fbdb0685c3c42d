use iso_rs::second_offset_to_utc_offset;

fn label(s: &str) -> String {
    second_offset_to_utc_offset(s.to_string())
}

#[test]
fn half_hour_offset() {
    assert_eq!(label("19800"), "UTC+5:30");
}

#[test]
fn zero_offset() {
    assert_eq!(label("0"), "UTC+0:00");
}

#[test]
fn whole_hours_render_two_zeros() {
    assert_eq!(label("3600"), "UTC+1:00");
    assert_eq!(label("36000"), "UTC+10:00");
    assert_eq!(label("-18000"), "UTC-5:00");
}

#[test]
fn negative_and_quarter_offsets() {
    assert_eq!(label("-12600"), "UTC-3:30");
    assert_eq!(label("20700"), "UTC+5:45");
    assert_eq!(label("-0"), "UTC-0:00");
}

#[test]
fn only_zero_minutes_are_padded() {
    assert_eq!(label("18300"), "UTC+5:5");
    assert_eq!(label("3659"), "UTC+1:00");
}

#[test]
fn malformed_offsets_give_empty_label() {
    assert_eq!(label(""), "");
    assert_eq!(label("-"), "");
    assert_eq!(label("abc"), "");
    assert_eq!(label("19800.5"), "");
    assert_eq!(label("+3600"), "");
    assert_eq!(label("99999999999999999999999"), "");
}

#[test]
fn largest_offset_that_fits() {
    assert_eq!(label("18446744073709551615"), "UTC+5124095576030431:00");
    assert_eq!(label("18446744073709551616"), "");
}

#[test]
fn decimal_string_digits() {
    assert_eq!(iso_rs::time::decimal_string(0), "0");
    assert_eq!(iso_rs::time::decimal_string(1234567890), "1234567890");
    assert_eq!(iso_rs::time::decimal_string(u64::MAX), "18446744073709551615");
}
