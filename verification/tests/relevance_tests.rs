use blogwatch::feed_types::eprint::EprintFetcher;
use blogwatch::feed_types::eprint::OaiRecord;
use blogwatch::feed_types::eprint::should_include_record;
use blogwatch::models::EprintConfig;

fn record_with(identifier: &str, description: &str, creators: Vec<&str>) -> OaiRecord {
    OaiRecord {
        datestamp: "2024-09-18T07:46:25Z".to_string(),
        identifier: identifier.to_string(),
        title: "Some Title".to_string(),
        creators: creators.into_iter().map(|c| c.to_string()).collect(),
        dates: vec!["2024-09-18T07:46:25Z".to_string()],
        description: description.to_string(),
        subject: "".to_string(),
    }
}

fn config() -> EprintConfig {
    EprintConfig {
        keywords: vec!["zero-knowledge".to_string()],
        authors: vec!["Dan Boneh".to_string()],
        exclude: vec!["2024/9999".to_string()],
    }
}

#[test]
fn test_relevant_description_is_included() {
    let record = record_with(
        "https://eprint.iacr.org/2024/1431",
        "A new Zero-Knowledge argument system.",
        vec!["Someone Else"],
    );
    assert!(should_include_record(&record, &config()));
}

#[test]
fn test_unrelated_record_is_excluded() {
    let record = record_with(
        "https://eprint.iacr.org/2024/1431",
        "A paper about unrelated topics.",
        vec!["Someone Else"],
    );
    assert!(!should_include_record(&record, &config()));
}

#[test]
fn test_excluded_suffix_wins_over_keywords() {
    let record = record_with(
        "https://eprint.iacr.org/2024/9999",
        "A new zero-knowledge argument system.",
        vec!["Dan Boneh"],
    );
    assert!(!should_include_record(&record, &config()));
}

#[test]
fn test_author_match_is_exact_and_case_folded() {
    let matching = record_with(
        "https://eprint.iacr.org/2024/1431",
        "Unrelated text.",
        vec!["DAN BONEH"],
    );
    assert!(should_include_record(&matching, &config()));

    let substring_only = record_with(
        "https://eprint.iacr.org/2024/1431",
        "Unrelated text.",
        vec!["Dan Boneh Jr."],
    );
    assert!(!should_include_record(&substring_only, &config()));
}

#[test]
fn test_format_creators_join() {
    assert_eq!(EprintFetcher::format_creators(vec![]), "");
    assert_eq!(EprintFetcher::format_creators(vec!["A".to_string()]), "A");
    assert_eq!(
        EprintFetcher::format_creators(vec!["A".to_string(), "B".to_string()]),
        "A and B"
    );
    assert_eq!(
        EprintFetcher::format_creators(vec![
            "A".to_string(),
            "B".to_string(),
            "C".to_string()
        ]),
        "A, B and C"
    );
}
