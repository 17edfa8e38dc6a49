use blogwatch::models::Date;
use blogwatch::utils::capitalize_title;
use blogwatch::utils::parse_rss_date;
use blogwatch::utils::replace_url;

#[test]
fn test_parse_rss_date() {
    let date1 = "Tue, 01 Oct 2024 12:00:00 GMT";
    let date2 = "2024-10-01T12:00:00+00:00";
    let date3 = "2024-10-01";

    assert_eq!(
        parse_rss_date(date1).unwrap(),
        Date::from_ymd_opt(2024, 10, 1).unwrap()
    );
    assert_eq!(
        parse_rss_date(date2).unwrap(),
        Date::from_ymd_opt(2024, 10, 1).unwrap()
    );
    assert_eq!(
        parse_rss_date(date3).unwrap(),
        Date::from_ymd_opt(2024, 10, 1).unwrap()
    );

    assert!(parse_rss_date("Invalid Date").is_err());
}

#[test]
fn utils_tests_test_parse_rss_date() {
    let date1 = "Tue, 01 Oct 2024 12:00:00 GMT";
    let date2 = "2024-10-01T12:00:00+00:00";
    let date3 = "2024-10-01";

    assert_eq!(
        parse_rss_date(date1).expect("Failed to parse date1"),
        Date::from_ymd_opt(2024, 10, 1).expect("Failed to create date")
    );
    assert_eq!(
        parse_rss_date(date2).expect("Failed to parse date2"),
        Date::from_ymd_opt(2024, 10, 1).expect("Failed to create date")
    );
    assert_eq!(
        parse_rss_date(date3).expect("Failed to parse date3"),
        Date::from_ymd_opt(2024, 10, 1).expect("Failed to create date")
    );

    assert!(parse_rss_date("Invalid Date").is_err());
}

#[test]
fn test_capitalize_title() {
    assert_eq!(capitalize_title("hello world"), "Hello World");
    assert_eq!(capitalize_title("a tale of two cities"), "A Tale of Two Cities");
    assert_eq!(capitalize_title("the quick brown fox"), "The Quick Brown Fox");
    assert_eq!(capitalize_title("and the rest"), "And the Rest");
    assert_eq!(capitalize_title("ZKSYNC is great"), "ZKsync Is Great");
    assert_eq!(capitalize_title("AGGLAYER’s new features"), "AggLayer’s New Features");
    assert_eq!(
        capitalize_title("Agglayer stuffs: this is (zUpEr) COOL"),
        "AggLayer Stuffs: This Is (zUpEr) COOL"
    );
    assert_eq!(capitalize_title(""), "");
}

#[test]
fn test_replace_url_rewrites_every_occurrence() {
    let rule = String::from("a.com>b.com");
    assert_eq!(replace_url("https://a.com/x", Some(&rule)), "https://b.com/x");
}

#[test]
fn test_replace_url_without_rule_is_identity() {
    assert_eq!(replace_url("https://a.com/x", None), "https://a.com/x");
}

#[test]
fn test_replace_url_malformed_rule_is_identity() {
    let rule = String::from("malformed");
    assert_eq!(replace_url("https://a.com/x", Some(&rule)), "https://a.com/x");
}

#[test]
fn test_replace_url_trims_rule_parts() {
    let rule = String::from("  a.com  >  b.org  ");
    assert_eq!(replace_url("https://a.com/a.com", Some(&rule)), "https://b.org/b.org");
}

#[test]
fn test_replace_url_two_separators_is_identity() {
    let rule = String::from("a>b>c");
    assert_eq!(replace_url("https://a.com/x", Some(&rule)), "https://a.com/x");
}

#[test]
fn test_parse_rss_date_error_names_the_string() {
    let err = parse_rss_date("Invalid Date").unwrap_err();
    assert_eq!(err.message(), "Date parse error: Unable to parse date: Invalid Date");
}

#[test]
fn test_date_from_ymd_opt_validates() {
    assert!(Date::from_ymd_opt(2024, 2, 29).is_some());
    assert!(Date::from_ymd_opt(2023, 2, 29).is_none());
    assert!(Date::from_ymd_opt(2024, 13, 1).is_none());
    assert!(Date::from_ymd_opt(2024, 4, 31).is_none());
    assert!(Date::from_ymd_opt(1900, 2, 29).is_none());
    assert!(Date::from_ymd_opt(2000, 2, 29).is_some());
}

#[test]
fn test_date_order() {
    let a = Date::from_ymd_opt(2024, 9, 30).unwrap();
    let b = Date::from_ymd_opt(2024, 10, 1).unwrap();
    assert!(a.le(&b));
    assert!(!b.le(&a));
    assert!(a.le(&a));
}
