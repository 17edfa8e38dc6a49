use blogwatch::feed_types::FeedType;

#[test]
fn test_feed_type_from_str() {
    assert_eq!(FeedType::from_str("Substack").unwrap(), FeedType::Substack);
    assert_eq!(FeedType::from_str("RSS").unwrap(), FeedType::RSS);
    assert_eq!(FeedType::from_str("Atom").unwrap(), FeedType::Atom);
    assert!(FeedType::from_str("Invalid").is_err());
}

#[test]
fn test_feed_type_from_str_remaining_tags() {
    assert_eq!(FeedType::from_str("CustomHTML").unwrap(), FeedType::CustomHTML);
    assert_eq!(FeedType::from_str("Eprint").unwrap(), FeedType::Eprint);
}

#[test]
fn test_feed_type_from_str_error_names_the_tag() {
    let err = FeedType::from_str("InvalidFeed").unwrap_err();
    assert_eq!(err.message(), "Unknown feed type: InvalidFeed");
}
