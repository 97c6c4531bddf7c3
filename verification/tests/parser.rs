use pomo::parser::parse_part;
use pomo::parser::parse_time;

#[test]
fn parse_single_field_is_seconds() {
    assert_eq!(parse_time("5"), Ok(5000));
}

#[test]
fn parse_two_fields_are_minutes_seconds() {
    assert_eq!(parse_time("1:30"), Ok(90000));
}

#[test]
fn parse_three_fields_are_hours_minutes_seconds() {
    assert_eq!(parse_time("1:00:00"), Ok(3_600_000));
}

#[test]
fn parse_rejects_letters() {
    assert_eq!(parse_time("abc"), Err(()));
}

#[test]
fn parse_rejects_empty_string() {
    assert_eq!(parse_time(""), Err(()));
}

#[test]
fn parse_default_flag_value() {
    assert_eq!(parse_time("25:00"), Ok(1_500_000));
}

#[test]
fn parse_rejects_four_fields() {
    assert_eq!(parse_time("1:2:3:4"), Err(()));
}

#[test]
fn parse_rejects_empty_fields() {
    assert_eq!(parse_time(":"), Err(()));
    assert_eq!(parse_time("1:"), Err(()));
    assert_eq!(parse_time(":30"), Err(()));
}

#[test]
fn parse_accepts_zero() {
    assert_eq!(parse_time("0"), Ok(0));
    assert_eq!(parse_time("00:00"), Ok(0));
}

#[test]
fn parse_accepts_leading_zeros() {
    assert_eq!(parse_time("007"), Ok(7000));
}

#[test]
fn parse_fields_are_not_range_checked() {
    // 90 minutes is fine: it simply contributes 90*60 seconds.
    assert_eq!(parse_time("90:00"), Ok(5_400_000));
    assert_eq!(parse_time("0:90"), Ok(90_000));
}

#[test]
fn parse_rejects_sign_characters() {
    assert_eq!(parse_time("-5"), Err(()));
    assert_eq!(parse_time("+5"), Err(()));
}

#[test]
fn parse_rejects_field_beyond_u64() {
    assert_eq!(parse_time("99999999999999999999999999"), Err(()));
}

#[test]
fn parse_rejects_total_beyond_u64_millis() {
    // The hours alone push the total past u64::MAX milliseconds.
    assert_eq!(parse_time("9999999999999999:0:0"), Err(()));
}

#[test]
fn parse_accepts_large_but_representable_total() {
    // 5124095576030 hours * 3600 * 1000 still fits a u64 of milliseconds.
    assert_eq!(
        parse_time("5124095576030:0:0"),
        Ok(5_124_095_576_030 * 3_600_000)
    );
}

#[test]
fn parse_rejects_inner_spaces() {
    assert_eq!(parse_time("1: 30"), Err(()));
    assert_eq!(parse_time(" 5"), Err(()));
}

#[test]
fn parse_part_reads_one_number() {
    assert_eq!(parse_part("42"), Ok(42));
    assert_eq!(parse_part("0"), Ok(0));
    assert_eq!(parse_part("18446744073709551615"), Ok(u64::MAX));
}

#[test]
fn parse_part_rejects_non_digits() {
    assert_eq!(parse_part(""), Err(()));
    assert_eq!(parse_part("4a"), Err(()));
    assert_eq!(parse_part("1:2"), Err(()));
}

#[test]
fn parse_part_rejects_overflow() {
    assert_eq!(parse_part("18446744073709551616"), Err(()));
}
