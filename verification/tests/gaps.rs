use hypr_rectangle::gaps::{format_i64, option_value_from_json, pick_option_value, Gaps, OptionError};

#[test]
fn parse_empty() {
    assert_eq!(Gaps::parse(""), Gaps::default());
}

#[test]
fn parse_single_value() {
    assert_eq!(
        Gaps::parse("10"),
        Gaps {
            top: 10,
            right: 10,
            bottom: 10,
            left: 10,
        }
    );
}

#[test]
fn parse_two_values_vertical_horizontal() {
    assert_eq!(
        Gaps::parse("5 20"),
        Gaps {
            top: 5,
            right: 20,
            bottom: 5,
            left: 20,
        }
    );
}

#[test]
fn parse_three_values_top_horiz_bottom() {
    assert_eq!(
        Gaps::parse("5 20 8"),
        Gaps {
            top: 5,
            right: 20,
            bottom: 8,
            left: 20,
        }
    );
}

#[test]
fn parse_four_values_trbl() {
    assert_eq!(
        Gaps::parse("1 2 3 4"),
        Gaps {
            top: 1,
            right: 2,
            bottom: 3,
            left: 4,
        }
    );
}

#[test]
fn parse_five_values_falls_back_to_zero() {
    assert_eq!(Gaps::parse("1 2 3 4 5"), Gaps::default());
}

#[test]
fn parse_garbage_falls_back_to_zero() {
    assert_eq!(Gaps::parse("abc"), Gaps::default());
}

#[test]
fn parse_skips_words_that_are_not_numbers() {
    assert_eq!(
        Gaps::parse("  7 px\t-3\n"),
        Gaps { top: 7, right: -3, bottom: 7, left: -3 }
    );
}

#[test]
fn parse_reads_signs_and_rejects_overflow() {
    assert_eq!(
        Gaps::parse("+4 -0 2147483648 -2147483648"),
        Gaps { top: 4, right: 0, bottom: -2147483648, left: 0 }
    );
    assert_eq!(Gaps::parse("- +"), Gaps::default());
}

#[test]
fn parse_splits_on_unicode_white_space() {
    assert_eq!(
        Gaps::parse("1\u{3000}2\u{a0}3"),
        Gaps { top: 1, right: 2, bottom: 3, left: 2 }
    );
}

#[test]
fn parse_warns_only_on_non_blank_fallback() {
    assert!(Gaps::parse_warns("abc"));
    assert!(Gaps::parse_warns("1 2 3 4 5"));
    assert!(!Gaps::parse_warns(""));
    assert!(!Gaps::parse_warns(" \t\n"));
    assert!(!Gaps::parse_warns("5 10"));
}

#[test]
fn format_i64_writes_decimal() {
    assert_eq!(format_i64(0), "0");
    assert_eq!(format_i64(7), "7");
    assert_eq!(format_i64(-120), "-120");
    assert_eq!(format_i64(i64::MAX), "9223372036854775807");
    assert_eq!(format_i64(i64::MIN), "-9223372036854775808");
}

#[test]
fn integer_value_reads_back_as_gaps() {
    for v in [0i32, 5, -5, i32::MAX, i32::MIN] {
        assert_eq!(
            Gaps::parse(&format_i64(v as i64)),
            Gaps { top: v, right: v, bottom: v, left: v }
        );
    }
}

#[test]
fn option_prefers_custom_value() {
    let json = r#"{"option":"general:gaps_out","int":3,"custom":"5 10 5 10","set":true}"#;
    assert_eq!(option_value_from_json(json).unwrap(), "5 10 5 10");
}

#[test]
fn option_int_value_is_written_in_decimal() {
    assert_eq!(option_value_from_json(r#"{"option":"x","int":-12}"#).unwrap(), "-12");
}

#[test]
fn option_float_value_is_written_as_text() {
    assert_eq!(option_value_from_json(r#"{"float":2.5,"str":"x"}"#).unwrap(), "2.5");
    assert_eq!(option_value_from_json(r#"{"float":5.0}"#).unwrap(), "5");
}

#[test]
fn option_str_value_is_last() {
    assert_eq!(option_value_from_json(r#"{"str":"abc"}"#).unwrap(), "abc");
}

#[test]
fn option_without_value_is_zero() {
    assert_eq!(option_value_from_json(r#"{"option":"x","set":false}"#).unwrap(), "0");
    assert_eq!(option_value_from_json(r#"{"custom":7}"#).unwrap(), "0");
}

#[test]
fn option_output_that_is_not_json_is_refused() {
    assert_eq!(option_value_from_json("hyprctl: no such option"), Err(OptionError::InvalidJson));
}

#[test]
fn pick_option_value_order() {
    assert_eq!(
        pick_option_value(Some("1 2".to_string()), Some(3), Some("4".to_string()), Some("5".to_string())),
        "1 2"
    );
    assert_eq!(pick_option_value(None, Some(3), Some("4".to_string()), None), "3");
    assert_eq!(pick_option_value(None, None, Some("4".to_string()), Some("5".to_string())), "4");
    assert_eq!(pick_option_value(None, None, None, Some("5".to_string())), "5");
    assert_eq!(pick_option_value(None, None, None, None), "0");
}
