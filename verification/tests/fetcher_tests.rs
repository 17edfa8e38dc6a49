use blogwatch::feed_types::AtomFetcher;
use blogwatch::feed_types::CustomHtmlFetcher;
use blogwatch::feed_types::EprintFetcher;
use blogwatch::feed_types::RssFetcher;
use blogwatch::feed_types::SubstackFetcher;
use blogwatch::feed_types::custom_html::ScrapedItem;
use blogwatch::feed_types::custom_html::UrlField;
use blogwatch::feed_types::custom_html::articles_from_scraped;
use blogwatch::models::Date;
use blogwatch::models::EprintConfig;

fn since_sep_2024() -> Date {
    Date::from_ymd_opt(2024, 9, 1).unwrap()
}

#[test]
fn test_fetch_rss_blog_articles() {
    let mock_response = r#"
    <?xml version="1.0" encoding="UTF-8"?>
    <rss version="2.0">
        <channel>
            <item>
                <title>Test RSS Article</title>
                <link>https://test.com/rss-article</link>
                <pubDate>Tue, 01 Oct 2024 12:00:00 GMT</pubDate>
            </item>
        </channel>
    </rss>
    "#;

    let since_date = since_sep_2024();
    let fetcher = RssFetcher;
    let articles = fetcher
        .fetch_articles(
            &mock_response.trim().as_bytes().to_vec(),
            &since_date,
            "TestRSSBlog",
            None,
        )
        .expect("Failed to fetch RSS articles");

    assert_eq!(articles.len(), 1);
    assert_eq!(articles[0].title, "Test RSS Article");
    assert_eq!(articles[0].url, "https://test.com/rss-article");
    assert_eq!(articles[0].date, Date::from_ymd_opt(2024, 10, 1).unwrap());
}

#[test]
fn test_fetch_rss_missing_title_fails_whole_fetch() {
    let mock_response = r#"<?xml version="1.0" encoding="UTF-8"?>
    <rss version="2.0">
        <channel>
            <item>
                <link>https://test.com/rss-article</link>
                <pubDate>Tue, 01 Oct 2024 12:00:00 GMT</pubDate>
            </item>
        </channel>
    </rss>"#;

    let since_date = since_sep_2024();
    let err = RssFetcher
        .fetch_articles(
            &mock_response.as_bytes().to_vec(),
            &since_date,
            "TestRSSBlog",
            None,
        )
        .unwrap_err();
    assert_eq!(err.message(), "Parse error: Missing title");
}

#[test]
fn test_fetch_rss_filters_older_articles() {
    let mock_response = r#"<?xml version="1.0" encoding="UTF-8"?>
    <rss version="2.0">
        <channel>
            <item>
                <title>Old</title>
                <link>https://test.com/old</link>
                <pubDate>Mon, 01 Jul 2024 12:00:00 GMT</pubDate>
            </item>
            <item>
                <title>New</title>
                <link>https://test.com/new</link>
                <pubDate>Tue, 01 Oct 2024 12:00:00 GMT</pubDate>
            </item>
        </channel>
    </rss>"#;

    let since_date = since_sep_2024();
    let articles = RssFetcher
        .fetch_articles(
            &mock_response.as_bytes().to_vec(),
            &since_date,
            "TestRSSBlog",
            None,
        )
        .unwrap();
    assert_eq!(articles.len(), 1);
    assert_eq!(articles[0].title, "New");
}

#[test]
fn test_fetch_atom_blog_articles() {
    let mock_response = r#"
    <?xml version="1.0" encoding="utf-8"?>
    <feed xmlns="http://www.w3.org/2005/Atom">
        <entry>
            <title>Test Atom Article</title>
            <link href="https://test.com/atom-article"/>
            <updated>2024-10-01T12:00:00Z</updated>
        </entry>
    </feed>
    "#;

    let since_date = since_sep_2024();
    let fetcher = AtomFetcher;
    let articles = fetcher
        .fetch_articles(
            &mock_response.trim().as_bytes().to_vec(),
            &since_date,
            "TestAtomBlog",
            None,
        )
        .unwrap();

    assert_eq!(articles.len(), 1);
    assert_eq!(articles[0].title, "Test Atom Article");
    assert_eq!(articles[0].url, "https://test.com/atom-article");
    assert_eq!(articles[0].date, Date::from_ymd_opt(2024, 10, 1).unwrap());
    assert_eq!(articles[0].authors, None);
}

#[test]
fn test_fetch_substack_blog_articles() {
    let mock_body = r#"[
        {
            "id": 1,
            "title": "Test Article",
            "slug": "test-article",
            "post_date": "2024-10-01T00:00:00.000Z"
        }
    ]"#;

    let since_date = since_sep_2024();
    let fetcher = SubstackFetcher;
    let articles = fetcher
        .fetch_articles(mock_body, "https://test.com", &since_date, "TestBlog", None)
        .expect("Failed to fetch Substack articles");

    assert_eq!(articles.len(), 1);
    assert_eq!(articles[0].title, "Test Article");
    assert_eq!(articles[0].url, "https://test.com/p/test-article");
    assert_eq!(articles[0].date, Date::from_ymd_opt(2024, 10, 1).unwrap());
}

#[test]
fn test_fetch_substack_trims_query_suffix() {
    let mock_body = r#"[
        {
            "title": "Test Article",
            "slug": "test-article",
            "post_date": "2024-10-01T00:00:00.000Z"
        }
    ]"#;

    let since_date = since_sep_2024();
    let articles = SubstackFetcher
        .fetch_articles(
            mock_body,
            "https://test.com/api/v1/posts/?limit=50",
            &since_date,
            "TestBlog",
            None,
        )
        .unwrap();
    assert_eq!(articles[0].url, "https://test.com/p/test-article");
}

#[test]
fn test_fetch_substack_invalid_json_is_parse_error() {
    let since_date = since_sep_2024();
    let err = SubstackFetcher
        .fetch_articles("not json", "https://test.com", &since_date, "TestBlog", None)
        .unwrap_err();
    assert!(matches!(err, blogwatch::errors::AppError::ParseError(_)));
}

#[test]
fn test_fetch_substack_non_array_json_yields_no_articles() {
    let since_date = since_sep_2024();
    let articles = SubstackFetcher
        .fetch_articles(r#"{"posts": []}"#, "https://test.com", &since_date, "TestBlog", None)
        .unwrap();
    assert_eq!(articles.len(), 0);
}

#[test]
fn test_fetch_substack_missing_slug_fails_whole_fetch() {
    let mock_body = r#"[
        {
            "title": "Test Article",
            "post_date": "2024-10-01T00:00:00.000Z"
        }
    ]"#;
    let since_date = since_sep_2024();
    let err = SubstackFetcher
        .fetch_articles(mock_body, "https://test.com", &since_date, "TestBlog", None)
        .unwrap_err();
    assert_eq!(err.message(), "Parse error: Missing slug");
}

#[test]
fn test_fetch_substack_bad_date_is_date_parse_error() {
    let mock_body = r#"[
        {
            "title": "Test Article",
            "slug": "test-article",
            "post_date": "01 Oct 2024"
        }
    ]"#;
    let since_date = since_sep_2024();
    let err = SubstackFetcher
        .fetch_articles(mock_body, "https://test.com", &since_date, "TestBlog", None)
        .unwrap_err();
    assert!(matches!(err, blogwatch::errors::AppError::DateParseError(_)));
}

#[test]
fn test_fetch_custom_html_articles() {
    let mock_response = r#"
    <html>
        <body>
            <div class="blog-list_wrapper w-dyn-list">
                <div class="blog-list_item-wrapper w-dyn-item">
                    <a href="/blog/test-article" class="blog-list_item w-inline-block">
                        <h3 class="blog-list_heading">Test Polygon Article</h3>
                        <div class="text-size-tiny text-style-label text-style-allcaps text-color-grey6">October 1, 2024</div>
                    </a>
                </div>
            </div>
        </body>
    </html>
    "#;

    let since_date = since_sep_2024();
    let fetcher = CustomHtmlFetcher {
        article_selector: ".blog-list_wrapper.w-dyn-list".to_string(),
        article_item_selector: ".blog-list_item-wrapper.w-dyn-item".to_string(),
        title_selector: ".blog-list_heading".to_string(),
        url_selector: ".blog-list_item.w-inline-block".to_string(),
        date_selector: ".text-size-tiny.text-style-label.text-style-allcaps.text-color-grey6"
            .to_string(),
        date_format: "%B %d, %Y".to_string(),
    };

    let articles = fetcher
        .fetch_articles(mock_response, "https://test.com", &since_date, "TestPolygonBlog", None)
        .expect("Failed to fetch articles");

    assert_eq!(articles.len(), 1);
    assert_eq!(articles[0].title, "Test Polygon Article");
    assert_eq!(articles[0].url, "https://test.com/blog/test-article");
    assert_eq!(articles[0].date, Date::from_ymd_opt(2024, 10, 1).unwrap());
}

#[test]
fn test_fetch_custom_html_no_wrapper_is_parse_error() {
    let since_date = since_sep_2024();
    let fetcher = CustomHtmlFetcher {
        article_selector: ".missing".to_string(),
        article_item_selector: ".item".to_string(),
        title_selector: ".title".to_string(),
        url_selector: ".url".to_string(),
        date_selector: ".date".to_string(),
        date_format: "%Y-%m-%d".to_string(),
    };
    let err = fetcher
        .fetch_articles("<html><body></body></html>", "https://test.com", &since_date, "B", None)
        .unwrap_err();
    assert_eq!(err.message(), "Parse error: No article wrapper found");
}

#[test]
fn test_fetch_custom_html_invalid_selector_is_parse_error() {
    let since_date = since_sep_2024();
    let fetcher = CustomHtmlFetcher {
        article_selector: ":::".to_string(),
        article_item_selector: ".item".to_string(),
        title_selector: ".title".to_string(),
        url_selector: ".url".to_string(),
        date_selector: ".date".to_string(),
        date_format: "%Y-%m-%d".to_string(),
    };
    let err = fetcher
        .fetch_articles("<html></html>", "https://test.com", &since_date, "B", None)
        .unwrap_err();
    assert!(matches!(err, blogwatch::errors::AppError::ParseError(_)));
}

#[test]
fn test_articles_from_scraped_fail_fast_order() {
    let since = since_sep_2024();
    let good = ScrapedItem {
        title: Some("Fine".to_string()),
        url: UrlField::Href("/blog/fine".to_string()),
        date_text: Some("2024-10-01".to_string()),
    };
    let no_href = ScrapedItem {
        title: Some("Broken".to_string()),
        url: UrlField::NoHref,
        date_text: Some("2024-10-02".to_string()),
    };
    // one malformed item aborts the whole fetch, even with a valid one first
    let items = vec![good, no_href];
    let err = articles_from_scraped(&items, "https://s.com", &since, "B", "%Y-%m-%d", None)
        .unwrap_err();
    assert_eq!(err.message(), "Parse error: Missing href attribute");

    let ok_only = vec![ScrapedItem {
        title: Some("Fine".to_string()),
        url: UrlField::Href("/blog/fine".to_string()),
        date_text: Some("2024-10-01".to_string()),
    }];
    let articles =
        articles_from_scraped(&ok_only, "https://s.com", &since, "B", "%Y-%m-%d", None).unwrap();
    assert_eq!(articles.len(), 1);
    assert_eq!(articles[0].url, "https://s.com/blog/fine");
}

fn zk_config() -> EprintConfig {
    EprintConfig {
        keywords: vec![
            "zero-knowledge".to_string(),
            "stark".to_string(),
            "zk".to_string(),
        ],
        authors: vec!["Dan Boneh".to_string()],
        exclude: vec![],
    }
}

#[test]
fn test_fetch_eprint_articles() {
    let mock_response = r#"
    <?xml version="1.0" encoding="UTF-8"?>
    <?xml-stylesheet type="text/xsl" href="/css/oai2.xsl" ?>
    <OAI-PMH xmlns="http://www.openarchives.org/OAI/2.0/"
             xmlns:xsi="http://www.w3.org/2001/XMLSchema-instance"
             xsi:schemaLocation="http://www.openarchives.org/OAI/2.0/
             http://www.openarchives.org/OAI/2.0/OAI-PMH.xsd">
      <responseDate>2024-09-27T19:53:51Z</responseDate>

      <request verb="ListRecords" metadataPrefix="oai_dc">https://eprint.iacr.org/oai</request>
      <ListRecords>
        <record>
          <header>
            <identifier>oai:eprint.iacr.org:2024/1431</identifier>
            <datestamp>2024-09-18T07:46:25Z</datestamp>
          </header>
          <metadata>
            <oai_dc:dc
                xmlns:oai_dc="http://www.openarchives.org/OAI/2.0/oai_dc/"
                xmlns:dc="http://purl.org/dc/elements/1.1/"
                xmlns:xsi="http://www.w3.org/2001/XMLSchema-instance"
                xsi:schemaLocation="http://www.openarchives.org/OAI/2.0/oai_dc/
                                    http://www.openarchives.org/OAI/2.0/oai_dc.xsd">
              <dc:identifier>https://eprint.iacr.org/2024/1431</dc:identifier>
              <dc:title>Interactive Line-Point Zero-Knowledge with Sublinear Communication and Linear Computation</dc:title>
              <dc:creator>Fuchun Lin</dc:creator>
              <dc:creator>Chaoping Xing</dc:creator>
              <dc:creator>Yizhou Yao</dc:creator>
              <dc:date>2024-09-13T02:36:04Z</dc:date>
              <dc:date>2024-09-14T02:36:04Z</dc:date>
              <dc:description>Studies of vector oblivious linear evaluation (VOLE)-based zero-knowledge (ZK) protocols...</dc:description>
            </oai_dc:dc>
          </metadata>
        </record>
        <record>
          <header>
            <identifier>oai:eprint.iacr.org:2024/9999</identifier>
            <datestamp>2024-09-19T07:46:25Z</datestamp>
          </header>
          <metadata>
            <oai_dc:dc
                xmlns:oai_dc="http://www.openarchives.org/OAI/2.0/oai_dc/"
                xmlns:dc="http://purl.org/dc/elements/1.1/"
                xmlns:xsi="http://www.w3.org/2001/XMLSchema-instance"
                xsi:schemaLocation="http://www.openarchives.org/OAI/2.0/oai_dc/
                                    http://www.openarchives.org/OAI/2.0/oai_dc.xsd">
              <dc:identifier>https://eprint.iacr.org/2024/9999</dc:identifier>
              <dc:title>Another</dc:title>
              <dc:creator>Author 1</dc:creator>
              <dc:creator>Author 2</dc:creator>
              <dc:date>2024-09-19T02:36:04Z</dc:date>
              <dc:description>Something STARK related</dc:description>
            </oai_dc:dc>
          </metadata>
        </record>
      </ListRecords>
    </OAI-PMH>
    "#;

    let since_date = Date::from_ymd_opt(2024, 9, 1).expect("Invalid date provided");
    let fetcher = EprintFetcher;
    let config = zk_config();
    let articles = fetcher
        .fetch_articles(mock_response, &since_date, "TestEprintBlog", None, &config)
        .expect("Failed to fetch Eprint articles");

    assert_eq!(articles.len(), 2);
    assert_eq!(
        articles[0].title,
        "Interactive Line-Point Zero-Knowledge with Sublinear Communication and Linear Computation"
    );
    assert_eq!(articles[0].url, "https://eprint.iacr.org/2024/1431");
    assert_eq!(articles[0].blog_name, "Eprint");
    assert_eq!(
        articles[0].authors,
        Some("Fuchun Lin, Chaoping Xing and Yizhou Yao".to_string())
    );
    assert_eq!(articles[1].title, "Another");
    assert_eq!(articles[1].url, "https://eprint.iacr.org/2024/9999");
    assert_eq!(articles[1].blog_name, "Eprint");
    assert_eq!(articles[1].authors, Some("Author 1 and Author 2".to_string()));
}

#[test]
fn test_fetch_eprint_articles_with_filtering() {
    let mock_response = r#"
    <?xml version="1.0" encoding="UTF-8"?>
    <OAI-PMH xmlns="http://www.openarchives.org/OAI/2.0/">
      <ListRecords>
        <record>
          <header>
            <identifier>oai:eprint.iacr.org:2024/1431</identifier>
            <datestamp>2024-09-18T07:46:25Z</datestamp>
          </header>
          <metadata>
            <oai_dc:dc>
              <dc:title>Test Title</dc:title>
              <dc:identifier>https://eprint.iacr.org/2024/1431</dc:identifier>
              <dc:creator>Dan Boneh</dc:creator>
              <dc:date>2024-09-18T07:46:25Z</dc:date>
              <dc:description>This paper discusses zero-knowledge proofs.</dc:description>
            </oai_dc:dc>
          </metadata>
        </record>
        <record>
          <header>
            <identifier>oai:eprint.iacr.org:2024/9999</identifier>
            <datestamp>2024-09-19T02:36:04Z</datestamp>
          </header>
          <metadata>
            <oai_dc:dc>
              <dc:title>Another Title</dc:title>
              <dc:identifier>https://eprint.iacr.org/2024/9999</dc:identifier>
              <dc:creator>Some Author</dc:creator>
              <dc:date>2024-09-19T02:36:04Z</dc:date>
              <dc:description>This paper discusses unrelated topics.</dc:description>
            </oai_dc:dc>
          </metadata>
        </record>
        <record>
          <header>
            <identifier>oai:eprint.iacr.org:2024/1234</identifier>
            <datestamp>2024-09-19T02:36:04Z</datestamp>
          </header>
          <metadata>
            <oai_dc:dc>
              <dc:title>Another Title</dc:title>
              <dc:identifier>https://eprint.iacr.org/2024/9999</dc:identifier>
              <dc:creator>Some Author</dc:creator>
              <dc:date>2024-06-19T02:36:04Z</dc:date>
              <dc:date>2024-09-19T02:36:04Z</dc:date>
              <dc:description>This paper discusses ZK but it's an old one, just recently updated.</dc:description>
            </oai_dc:dc>
          </metadata>
        </record>
      </ListRecords>
    </OAI-PMH>
    "#;

    let since_date = Date::from_ymd_opt(2024, 9, 1).unwrap();
    let fetcher = EprintFetcher;
    let config = zk_config();
    let articles = fetcher
        .fetch_articles(mock_response, &since_date, "TestEprintBlog", None, &config)
        .expect("Failed to fetch Eprint articles");

    assert_eq!(articles.len(), 1);
    assert_eq!(articles[0].title, "Test Title");
    assert_eq!(articles[0].url, "https://eprint.iacr.org/2024/1431");
    assert_eq!(articles[0].authors, Some("Dan Boneh".to_string()));
}
