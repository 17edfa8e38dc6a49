use blogwatch::errors::AppError;
use blogwatch::feed_types::CustomHtmlFetcher;
use blogwatch::feed_types::FeedType;
use blogwatch::feed_types::custom_html::build_item_url;
use blogwatch::models::BlogArticle;
use blogwatch::models::BlogInfo;
use blogwatch::models::Date;
use blogwatch::orchestrator::aggregate_outcomes;
use blogwatch::orchestrator::validate_source;

fn article(title: &str, blog_name: &str, date: Date) -> BlogArticle {
    BlogArticle {
        title: title.to_string(),
        url: format!("https://example.com/{}", title),
        date,
        blog_name: blog_name.to_string(),
        authors: None,
    }
}

#[test]
fn test_partial_failure_keeps_healthy_sources() {
    let d1 = Date::from_ymd_opt(2024, 10, 2).unwrap();
    let d2 = Date::from_ymd_opt(2024, 10, 1).unwrap();
    let outcomes = vec![
        ("BlogA".to_string(), Ok(vec![article("a", "BlogA", d1)])),
        (
            "BlogB".to_string(),
            Err(AppError::NetworkError("connection refused".to_string())),
        ),
        ("BlogC".to_string(), Ok(vec![article("c", "BlogC", d2)])),
    ];
    let (eprint_bin, other_bin, errors) = aggregate_outcomes(outcomes);

    assert_eq!(eprint_bin.len(), 0);
    assert_eq!(other_bin.len(), 2);
    assert_eq!(errors.len(), 1);
    assert_eq!(errors[0].0, "BlogB");
    assert_eq!(errors[0].1, "Network error: connection refused");
    // sorted by date ascending
    assert_eq!(other_bin[0].title, "c");
    assert_eq!(other_bin[1].title, "a");
}

#[test]
fn test_partition_by_preprint_sentinel() {
    let d = Date::from_ymd_opt(2024, 10, 1).unwrap();
    let outcomes = vec![
        ("BlogA".to_string(), Ok(vec![article("a", "BlogA", d)])),
        ("Preprints".to_string(), Ok(vec![article("p", "Eprint", d)])),
    ];
    let (eprint_bin, other_bin, errors) = aggregate_outcomes(outcomes);
    assert_eq!(eprint_bin.len(), 1);
    assert_eq!(eprint_bin[0].title, "p");
    assert_eq!(other_bin.len(), 1);
    assert_eq!(other_bin[0].title, "a");
    assert!(errors.is_empty());
}

#[test]
fn test_sort_is_stable_on_equal_dates() {
    let d = Date::from_ymd_opt(2024, 10, 1).unwrap();
    let earlier = Date::from_ymd_opt(2024, 9, 15).unwrap();
    let outcomes = vec![
        ("BlogA".to_string(), Ok(vec![article("first", "BlogA", d)])),
        (
            "BlogB".to_string(),
            Ok(vec![article("second", "BlogB", d), article("oldest", "BlogB", earlier)]),
        ),
    ];
    let (_, other_bin, _) = aggregate_outcomes(outcomes);
    assert_eq!(other_bin.len(), 3);
    assert_eq!(other_bin[0].title, "oldest");
    assert_eq!(other_bin[1].title, "first");
    assert_eq!(other_bin[2].title, "second");
}

#[test]
fn test_validate_source_requires_selectors_for_dom_scrape() {
    let blog = BlogInfo {
        name: "B".to_string(),
        domain: "https://b.com".to_string(),
        feed_type: FeedType::CustomHTML,
        custom_selectors: None,
        custom_url_replace: None,
    };
    let err = validate_source(&blog).unwrap_err();
    assert_eq!(
        err.message(),
        "Configuration error: Missing custom selectors for CustomHTML"
    );

    let rss = BlogInfo {
        name: "B".to_string(),
        domain: "https://b.com".to_string(),
        feed_type: FeedType::RSS,
        custom_selectors: None,
        custom_url_replace: None,
    };
    assert!(validate_source(&rss).is_ok());
}

#[test]
fn test_build_item_url_strips_duplicated_blog_segment() {
    // the endpoint loses its trailing "/blog" so the segment carried by the
    // href appears exactly once
    assert_eq!(
        build_item_url("/blog/x", "https://site.com/blog"),
        "https://site.com/blog/x"
    );
    assert_eq!(
        build_item_url("/posts/x", "https://site.com/posts"),
        "https://site.com/posts/x"
    );
    assert_eq!(build_item_url("x", "https://site.com/"), "https://site.com/x");
    assert_eq!(
        build_item_url("https://other.com/x", "https://site.com/blog"),
        "https://other.com/x"
    );
}

#[test]
fn test_dom_scrape_url_construction_end_to_end() {
    let html = r#"
    <html><body>
      <div class="wrap">
        <div class="item">
          <a class="link" href="/blog/x">t</a>
          <h3 class="title">Title</h3>
          <div class="date">2024-10-01</div>
        </div>
      </div>
    </body></html>
    "#;
    let fetcher = CustomHtmlFetcher {
        article_selector: ".wrap".to_string(),
        article_item_selector: ".item".to_string(),
        title_selector: ".title".to_string(),
        url_selector: ".link".to_string(),
        date_selector: ".date".to_string(),
        date_format: "%Y-%m-%d".to_string(),
    };
    let since = Date::from_ymd_opt(2024, 9, 1).unwrap();
    let articles = fetcher
        .fetch_articles(html, "https://site.com/blog", &since, "B", None)
        .unwrap();
    assert_eq!(articles.len(), 1);
    assert_eq!(articles[0].url, "https://site.com/blog/x");
}
