use blogwatch::errors::AppError;
use std::str::FromStr;

#[test]
fn test_app_error_display() {
    let parse_error = AppError::ParseError("Invalid format".to_string());
    assert_eq!(parse_error.message(), "Parse error: Invalid format");

    let chrono_error = chrono::NaiveDate::from_str("invalid_date").unwrap_err();
    let date_parse_error = AppError::DateParseError(chrono_error.to_string());
    assert_eq!(
        date_parse_error.message(),
        "Date parse error: input contains invalid characters"
    );

    let io_error = AppError::IoError(
        std::io::Error::new(std::io::ErrorKind::NotFound, "File not found").to_string(),
    );
    assert_eq!(io_error.message(), "IO error: File not found");

    let unknown_feed_type = AppError::UnknownFeedType("InvalidFeed".to_string());
    assert_eq!(unknown_feed_type.message(), "Unknown feed type: InvalidFeed");
}

#[test]
fn test_app_error_network_and_runtime_messages() {
    let network = AppError::NetworkError("connection refused".to_string());
    assert_eq!(network.message(), "Network error: connection refused");

    let join = AppError::AsyncRuntimeError("task panicked".to_string());
    assert_eq!(join.message(), "Async runtime error: task panicked");

    let xml = AppError::XmlError("bad markup".to_string());
    assert_eq!(xml.message(), "XML error: bad markup");
}
