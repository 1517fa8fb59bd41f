use chemodots::duration::{format_duration_hh_mm_ss, push_decimal, push_padded};

#[test]
fn zero_seconds() {
    assert_eq!(format_duration_hh_mm_ss(0), "00:00:00");
}

#[test]
fn hours_minutes_and_seconds() {
    assert_eq!(format_duration_hh_mm_ss(3661), "01:01:01");
    assert_eq!(format_duration_hh_mm_ss(59), "00:00:59");
    assert_eq!(format_duration_hh_mm_ss(60), "00:01:00");
    assert_eq!(format_duration_hh_mm_ss(86399), "23:59:59");
}

#[test]
fn hours_grow_beyond_two_digits() {
    assert_eq!(format_duration_hh_mm_ss(360000), "100:00:00");
}

#[test]
fn negative_durations_keep_their_sign_in_each_part() {
    assert_eq!(format_duration_hh_mm_ss(-61), "00:-1:-1");
    assert_eq!(format_duration_hh_mm_ss(-3600), "-1:00:00");
    assert_eq!(format_duration_hh_mm_ss(-36000), "-10:00:00");
}

#[test]
fn the_extremes_are_written_out() {
    assert_eq!(format_duration_hh_mm_ss(i64::MAX), "2562047788015215:30:07");
    assert_eq!(format_duration_hh_mm_ss(i64::MIN), "-2562047788015215:-30:-8");
}

#[test]
fn decimal_digits() {
    let mut s = String::from("n=");
    push_decimal(&mut s, 0);
    push_decimal(&mut s, 1905);
    assert_eq!(s, "n=01905");
    let mut t = String::new();
    push_decimal(&mut t, u64::MAX);
    assert_eq!(t, "18446744073709551615");
}

#[test]
fn padding_to_two_characters() {
    let mut s = String::new();
    push_padded(&mut s, 7);
    push_padded(&mut s, 10);
    push_padded(&mut s, -3);
    push_padded(&mut s, 0);
    assert_eq!(s, "0710-300");
}
