use vitis_be::error::ErrorKind;
use vitis_be::util::{get_param, iso, now, timestamp_or_failure};

#[test]
fn get_param_reads_the_value_up_to_the_ampersand() {
    let value = get_param("https://page.example/view?series_id=42&product_id=7", "series_id");
    assert_eq!(value.unwrap(), "42");
}

#[test]
fn get_param_reads_the_value_up_to_the_end() {
    let value = get_param("https://page.example/view?series_id=42&product_id=7", "product_id");
    assert_eq!(value.unwrap(), "7");
}

#[test]
fn get_param_stops_at_the_next_occurrence_of_the_key() {
    assert_eq!(get_param("kid=abckid=def", "kid").unwrap(), "abc");
    assert_eq!(get_param("x?kid=a&kid=b", "kid").unwrap(), "a");
}

#[test]
fn get_param_takes_the_first_occurrence() {
    assert_eq!(get_param("a_kid=1&kid=2", "kid").unwrap(), "1");
}

#[test]
fn get_param_gives_an_empty_value() {
    assert_eq!(get_param("x?kid=&y=1", "kid").unwrap(), "");
    assert_eq!(get_param("x?kid=", "kid").unwrap(), "");
}

#[test]
fn get_param_fails_where_the_key_is_missing() {
    let error = get_param("https://page.example/view?a=1", "kid").unwrap_err();
    assert_eq!(error.kind, ErrorKind::ParamExtraction);
    assert_eq!(error.message, "could not get param kid in https://page.example/view?a=1");
}

#[test]
fn get_param_reads_text_that_is_not_ascii() {
    assert_eq!(get_param("a=1&b=2", "b").unwrap(), "2");
    assert_eq!(get_param("제목=이름&x=1", "제목").unwrap(), "이름");
}

#[test]
fn iso_reads_a_timestamp_with_milliseconds() {
    assert_eq!(iso("2023-05-01T12:34:56.000Z").unwrap(), 1682944496);
}

#[test]
fn iso_reads_a_timestamp_without_milliseconds() {
    assert_eq!(iso("1970-01-01T00:00:10").unwrap(), 10);
}

#[test]
fn iso_rejects_other_text() {
    let error = iso("yesterday").unwrap_err();
    assert_eq!(error.kind, ErrorKind::RemoteProtocol);
    assert_eq!(error.message, "invalid timestamp: yesterday");
}

#[test]
fn now_is_after_the_year_2020() {
    assert!(now().unwrap() > 1_577_836_800);
}

#[test]
fn timestamp_that_was_not_read_is_a_failure() {
    assert_eq!(timestamp_or_failure("x", Some(5)).unwrap(), 5);
    assert_eq!(timestamp_or_failure("x", None).unwrap_err().message, "invalid timestamp: x");
}
