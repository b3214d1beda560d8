use music_bot::probe::{parse_probe, parse_u32_decimal, split_fields, ProbeError, Probe};

#[test]
fn probe_reads_id_and_duration() {
    assert_eq!(
        parse_probe("dQw4w9WgXcQ 212\n"),
        Ok(Probe { id: "dQw4w9WgXcQ".to_string(), duration: 212 })
    );
}

#[test]
fn probe_with_one_field_is_refused() {
    assert_eq!(parse_probe("dQw4w9WgXcQ\n"), Err(ProbeError::TooFewFields));
    assert_eq!(parse_probe(""), Err(ProbeError::TooFewFields));
}

#[test]
fn probe_with_bad_duration_is_an_error() {
    assert_eq!(parse_probe("abc NA\n"), Err(ProbeError::BadDuration));
    assert_eq!(parse_probe("abc  12"), Err(ProbeError::BadDuration));
}

#[test]
fn probe_ignores_fields_after_the_second() {
    assert_eq!(
        parse_probe("abc 5 extra\n"),
        Ok(Probe { id: "abc".to_string(), duration: 5 })
    );
}

#[test]
fn newlines_are_dropped_within_fields() {
    assert_eq!(split_fields("a\nb c\n"), vec!["ab".to_string(), "c".to_string()]);
    assert_eq!(split_fields(" x "), vec!["".to_string(), "x".to_string(), "".to_string()]);
    assert_eq!(split_fields(""), vec!["".to_string()]);
}

#[test]
fn u32_parsing_matches_std() {
    for text in ["0", "7", "+7", "900", "4294967295", "4294967296", "", "+", "-1", "1a", " 1", "00012", "99999999999"] {
        assert_eq!(parse_u32_decimal(text), text.parse::<u32>().ok(), "{:?}", text);
    }
}
