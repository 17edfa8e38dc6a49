//! The DOM-scraping fetcher: for sources without a structured feed, the
//! caller supplies five selector expressions and a date-parse pattern.
//!
//! The selection itself is scraper's work and stays behind trusted
//! wrappers; everything around it — the fail-fast walk over the items, the
//! URL construction heuristic and the date handling — is verified.

use vstd::prelude::*;

use crate::errors::AppError;
use crate::models::BlogArticle;
use crate::models::Date;
use crate::text::chars_of;
use crate::text::spec_ends_with;
use crate::text::spec_starts_with;
use crate::text::spec_trim_end_char;
use crate::text::spec_trim_end_matches;
use crate::text::spec_trim_start_char;
use crate::text::starts_with_chars;
use crate::text::string_from_chars;
use crate::text::ends_with_chars;
use crate::text::trim_end_char_chars;
use crate::text::trim_end_matches_chars;
use crate::text::trim_start_char_chars;
use crate::errors::AppErrorV;
use crate::models::BlogArticleV;
use crate::utils::chrono_parse;
use crate::utils::parse_naive_date;
use crate::utils::replace_url;
use crate::utils::rule_view;
use crate::utils::spec_replace_url;

verus! {

/// Fetches articles of an arbitrary HTML page through a caller-supplied
/// selector set.
pub struct CustomHtmlFetcher {
    pub article_selector: String,
    pub article_item_selector: String,
    pub title_selector: String,
    pub url_selector: String,
    pub date_selector: String,
    pub date_format: String,
}

#[verifier::external_type_specification]
#[verifier::external_body]
pub struct ExSelector(scraper::Selector);

/// Whether `scraper::Selector::parse` accepts an expression: a function of
/// the expression alone.
pub uninterp spec fn css_selector_ok(s: Seq<char>) -> bool;

/// The expression a compiled selector was parsed from.
pub uninterp spec fn selector_source(sel: scraper::Selector) -> Seq<char>;

/// Relies on scraper::Selector::parse: validity depends on the expression
/// alone, a compiled selector carries exactly the expression it was parsed
/// from, and the error text renders the parse failure.
#[verifier::external_body]
fn parse_selector(s: &str) -> (r: Result<scraper::Selector, String>)
    ensures
        r matches Ok(sel) ==> css_selector_ok(s@) && selector_source(sel) == s@,
        r is Err <==> !css_selector_ok(s@),
{
    scraper::Selector::parse(s).map_err(|e| format!("{:?}", e))
}

/// The URL of one scraped item. An absolute href passes verbatim. A
/// relative one loses its leading path separators and is appended to the
/// endpoint, which first loses its trailing separators and then a trailing
/// "/blog" or "/posts" segment, so that an index page living under such a
/// segment does not duplicate it.
pub open spec fn spec_build_item_url(href: Seq<char>, feed_url: Seq<char>) -> Seq<char> {
    if spec_starts_with(href, "http"@) {
        href
    } else {
        let trimmed = spec_trim_start_char(href, '/');
        let base = spec_trim_end_char(feed_url, '/');
        if spec_ends_with(base, "blog"@) {
            spec_trim_end_matches(base, "/blog"@) + "/"@ + trimmed
        } else if spec_ends_with(base, "posts"@) {
            spec_trim_end_matches(base, "/posts"@) + "/"@ + trimmed
        } else {
            base + "/"@ + trimmed
        }
    }
}

/// Build the URL of one scraped item from its href and the endpoint.
pub fn build_item_url(href: &str, feed_url: &str) -> (r: String)
    ensures
        r@ == spec_build_item_url(href@, feed_url@),
{
    let hv = chars_of(href);
    proof {
        reveal_strlit("http");
        reveal_strlit("/blog");
        reveal_strlit("/posts");
    }
    if starts_with_chars(&hv, &chars_of("http")) {
        return href.to_owned();
    }
    let trimmed = trim_start_char_chars(&hv, '/');
    let base = trim_end_char_chars(&chars_of(feed_url), '/');
    let stem = if ends_with_chars(&base, &chars_of("blog")) {
        trim_end_matches_chars(base, &chars_of("/blog"))
    } else if ends_with_chars(&base, &chars_of("posts")) {
        trim_end_matches_chars(base, &chars_of("/posts"))
    } else {
        base
    };
    string_from_chars(&stem).concat("/").concat(string_from_chars(&trimmed).as_str())
}

/// The link field of one scraped item: the link element may be missing,
/// or present without an href attribute.
pub enum UrlField {
    NoElement,
    NoHref,
    Href(String),
}

/// The mathematical value of a `UrlField`.
pub enum UrlFieldV {
    NoElement,
    NoHref,
    Href(Seq<char>),
}

impl View for UrlField {
    type V = UrlFieldV;

    open spec fn view(&self) -> UrlFieldV {
        match self {
            UrlField::NoElement => UrlFieldV::NoElement,
            UrlField::NoHref => UrlFieldV::NoHref,
            UrlField::Href(h) => UrlFieldV::Href(h@),
        }
    }
}

/// One scraped item, reduced to the three fields the fetcher reads out of
/// its DOM subtree.
pub struct ScrapedItem {
    pub title: Option<String>,
    pub url: UrlField,
    pub date_text: Option<String>,
}

/// The mathematical value of a `ScrapedItem`.
pub struct ScrapedItemV {
    pub title: Option<Seq<char>>,
    pub url: UrlFieldV,
    pub date_text: Option<Seq<char>>,
}

impl View for ScrapedItem {
    type V = ScrapedItemV;

    open spec fn view(&self) -> ScrapedItemV {
        ScrapedItemV {
            title: match self.title {
                Some(t) => Some(t@),
                None => None,
            },
            url: self.url@,
            date_text: match self.date_text {
                Some(d) => Some(d@),
                None => None,
            },
        }
    }
}

/// What scraper makes of the document under the five selector expressions
/// and the attribute name, all valid: `None` where no element matches the
/// container expression; else one entry per item-expression match within
/// the first container match, in document order, holding the first
/// title-expression match's text, the first link-expression match's named
/// attribute (or that it, or the match, is missing) and the first
/// date-expression match's text. A function of its arguments alone:
/// html5ever's parse and scraper's selection are deterministic.
pub uninterp spec fn scraped_items_of(
    content: Seq<char>,
    article_sel: Seq<char>,
    item_sel: Seq<char>,
    title_sel: Seq<char>,
    url_sel: Seq<char>,
    date_sel: Seq<char>,
    attr: Seq<char>,
) -> Option<Seq<ScrapedItemV>>;

/// Relies on scraper::Html::parse_document, Html::select,
/// ElementRef::select, ElementRef::text and Element::attr: the selection
/// is a function of the document text, the selector expressions and the
/// attribute name alone.
#[verifier::external_body]
fn scrape_items(
    content: &str,
    article_sel: &scraper::Selector,
    item_sel: &scraper::Selector,
    title_sel: &scraper::Selector,
    url_sel: &scraper::Selector,
    date_sel: &scraper::Selector,
    attr: &str,
) -> (r: Option<Vec<ScrapedItem>>)
    ensures
        match r {
            Some(v) => scraped_items_of(
                content@,
                selector_source(*article_sel),
                selector_source(*item_sel),
                selector_source(*title_sel),
                selector_source(*url_sel),
                selector_source(*date_sel),
                attr@,
            ) == Some(v@.map_values(|it: ScrapedItem| it@)),
            None => scraped_items_of(
                content@,
                selector_source(*article_sel),
                selector_source(*item_sel),
                selector_source(*title_sel),
                selector_source(*url_sel),
                selector_source(*date_sel),
                attr@,
            ) is None,
        },
{
    let doc = scraper::Html::parse_document(content);
    let wrapper = doc.select(article_sel).next()?;
    Some(wrapper.select(item_sel).map(|el| ScrapedItem {
        title: el.select(title_sel).next().map(|x| x.text().collect::<String>()),
        url: el.select(url_sel).next().map_or(UrlField::NoElement, |x| x.value().attr(attr).map_or(UrlField::NoHref, |h| UrlField::Href(h.to_string()))),
        date_text: el.select(date_sel).next().map(|x| x.text().collect::<String>()),
    }).collect())
}

/// What the fetcher makes of the scraped items: fail-fast on the first
/// item with a missing field or an unparsable date, else the items dated
/// on or after `since` in page order, each URL built from its href and the
/// endpoint and then rewritten.
pub open spec fn spec_scraped_articles(
    items: Seq<ScrapedItemV>,
    feed_url: Seq<char>,
    since: Date,
    name: Seq<char>,
    fmt: Seq<char>,
    rule: Option<Seq<char>>,
) -> Result<Seq<BlogArticleV>, AppErrorV>
    decreases items.len(),
{
    if items.len() == 0 {
        Ok(seq![])
    } else {
        let it = items[0];
        if it.title is None {
            Err(AppErrorV::ParseError("Missing title"@))
        } else if it.url is NoElement {
            Err(AppErrorV::ParseError("Missing URL"@))
        } else if it.url is NoHref {
            Err(AppErrorV::ParseError("Missing href attribute"@))
        } else if it.date_text is None {
            Err(AppErrorV::ParseError("Missing date"@))
        } else {
            match chrono_parse(it.date_text->Some_0, fmt) {
                Err(m) => Err(AppErrorV::DateParseError(m)),
                Ok(d) => match spec_scraped_articles(
                    items.skip(1),
                    feed_url,
                    since,
                    name,
                    fmt,
                    rule,
                ) {
                    Err(err) => Err(err),
                    Ok(rest) => if since.spec_le(Date { year: d.0, month: d.1, day: d.2 }) {
                        Ok(
                            seq![
                                BlogArticleV {
                                    title: it.title->Some_0,
                                    url: spec_replace_url(
                                        spec_build_item_url(it.url->Href_0, feed_url),
                                        rule,
                                    ),
                                    date: Date { year: d.0, month: d.1, day: d.2 },
                                    blog_name: name,
                                    authors: None,
                                },
                            ] + rest,
                        )
                    } else {
                        Ok(rest)
                    },
                },
            }
        }
    }
}

/// Every article the scrape processing emits is dated on or after the
/// threshold it was given.
pub proof fn lemma_scraped_articles_since(
    items: Seq<ScrapedItemV>,
    feed_url: Seq<char>,
    since: Date,
    name: Seq<char>,
    fmt: Seq<char>,
    rule: Option<Seq<char>>,
)
    ensures
        spec_scraped_articles(items, feed_url, since, name, fmt, rule) matches Ok(arts)
            ==> forall|i: int| 0 <= i < arts.len() ==> since.spec_le(#[trigger] arts[i].date),
    decreases items.len(),
{
    if items.len() > 0 {
        lemma_scraped_articles_since(items.skip(1), feed_url, since, name, fmt, rule);
    }
}

/// Normalize the scraped items into articles; the exactly-stated core of
/// the DOM-scraping fetcher, a pure function of its inputs.
pub fn articles_from_scraped(
    items: &Vec<ScrapedItem>,
    feed_url: &str,
    since_date: &Date,
    blog_name: &str,
    date_format: &str,
    custom_url_replace: Option<&String>,
) -> (r: Result<Vec<BlogArticle>, AppError>)
    ensures
        match spec_scraped_articles(
            items@.map_values(|it: ScrapedItem| it@),
            feed_url@,
            *since_date,
            blog_name@,
            date_format@,
            rule_view(custom_url_replace),
        ) {
            Ok(arts) => r matches Ok(v) && v@.map_values(|a: BlogArticle| a@) == arts,
            Err(e) => r matches Err(err) && err@ == e,
        },
        r matches Ok(v) ==> forall|i: int|
            0 <= i < v@.len() ==> since_date.spec_le(#[trigger] v@[i]@.date),
        r matches Ok(v) ==> forall|i: int|
            0 <= i < v@.len() ==> (#[trigger] v@[i]@).blog_name == blog_name@ && v@[i]@.authors
                is None,
{
    let ghost items_v = items@.map_values(|it: ScrapedItem| it@);
    let ghost since = *since_date;
    let ghost name = blog_name@;
    let ghost fmt = date_format@;
    let ghost rule = rule_view(custom_url_replace);
    let mut articles: Vec<BlogArticle> = Vec::new();
    let n = items.len();
    let mut i: usize = 0;
    proof {
        assert(items_v.skip(0) =~= items_v);
        assert(articles@.map_values(|a: BlogArticle| a@) =~= Seq::<BlogArticleV>::empty());
    }
    while i < n
        invariant
            i <= n,
            n == items@.len(),
            items_v == items@.map_values(|it: ScrapedItem| it@),
            since == *since_date,
            name == blog_name@,
            fmt == date_format@,
            rule == rule_view(custom_url_replace),
            spec_scraped_articles(items_v, feed_url@, since, name, fmt, rule) == (
            match spec_scraped_articles(
                items_v.skip(i as int),
                feed_url@,
                since,
                name,
                fmt,
                rule,
            ) {
                Ok(rest) => Ok(articles@.map_values(|a: BlogArticle| a@) + rest),
                Err(e) => Err(e),
            }),
            forall|k: int|
                0 <= k < articles@.len() ==> since.spec_le(#[trigger] articles@[k]@.date),
            forall|k: int|
                0 <= k < articles@.len() ==> (#[trigger] articles@[k]@).blog_name == blog_name@
                    && articles@[k]@.authors is None,
        decreases n - i,
    {
        let ghost rest_v = items_v.skip(i as int);
        proof {
            assert(rest_v[0] == items_v[i as int]);
            assert(items_v[i as int] == items@[i as int]@);
            assert(rest_v.skip(1) =~= items_v.skip(i + 1));
        }
        let item = &items[i];
        let title = match &item.title {
            Some(t) => t.clone(),
            None => {
                return Err(AppError::ParseError(String::from_str("Missing title")));
            },
        };
        let href = match &item.url {
            UrlField::NoElement => {
                return Err(AppError::ParseError(String::from_str("Missing URL")));
            },
            UrlField::NoHref => {
                return Err(AppError::ParseError(String::from_str("Missing href attribute")));
            },
            UrlField::Href(h) => h.clone(),
        };
        let date_text = match &item.date_text {
            Some(d) => d.clone(),
            None => {
                return Err(AppError::ParseError(String::from_str("Missing date")));
            },
        };
        let url = build_item_url(href.as_str(), feed_url);
        let final_url = replace_url(url.as_str(), custom_url_replace);
        let d = match parse_naive_date(date_text.as_str(), date_format) {
            Ok(d) => d,
            Err(m) => {
                return Err(AppError::DateParseError(m));
            },
        };
        let date = Date { year: d.0, month: d.1, day: d.2 };
        if since_date.le(&date) {
            let ghost before = articles@.map_values(|a: BlogArticle| a@);
            articles.push(
                BlogArticle {
                    title,
                    url: final_url,
                    date,
                    blog_name: blog_name.to_owned(),
                    authors: None,
                },
            );
            proof {
                let after = articles@.map_values(|a: BlogArticle| a@);
                assert(after =~= before.push(articles@.last()@));
                match spec_scraped_articles(
                    items_v.skip(i + 1),
                    feed_url@,
                    since,
                    name,
                    fmt,
                    rule,
                ) {
                    Ok(rest) => {
                        assert(before + (seq![articles@.last()@] + rest) =~= after + rest);
                    },
                    Err(_) => {},
                }
            }
        }
        i = i + 1;
    }
    proof {
        assert(items_v.skip(n as int) =~= Seq::<ScrapedItemV>::empty());
        assert(articles@.map_values(|a: BlogArticle| a@) + Seq::<BlogArticleV>::empty()
            =~= articles@.map_values(|a: BlogArticle| a@));
    }
    Ok(articles)
}

impl CustomHtmlFetcher {
    /// Scrape an HTML response body with the configured selector set and
    /// emit its articles dated on or after `since_date`; fail-fast on an
    /// invalid selector, a missing wrapper, or the first item with a
    /// missing field or an unparsable date.
    pub fn fetch_articles(
        &self,
        content: &str,
        feed_url: &str,
        since_date: &Date,
        blog_name: &str,
        custom_url_replace: Option<&String>,
    ) -> (r: Result<Vec<BlogArticle>, AppError>)
        ensures
            !(css_selector_ok(self.article_selector@) && css_selector_ok(self.title_selector@)
                && css_selector_ok(self.url_selector@) && css_selector_ok(self.date_selector@)
                && css_selector_ok(self.article_item_selector@)) ==> (r matches Err(e) && e
                is ParseError),
            css_selector_ok(self.article_selector@) && css_selector_ok(self.title_selector@)
                && css_selector_ok(self.url_selector@) && css_selector_ok(self.date_selector@)
                && css_selector_ok(self.article_item_selector@) ==> (match scraped_items_of(
                content@,
                self.article_selector@,
                self.article_item_selector@,
                self.title_selector@,
                self.url_selector@,
                self.date_selector@,
                "href"@,
            ) {
                None => r matches Err(e) && e@ == AppErrorV::ParseError(
                    "No article wrapper found"@,
                ),
                Some(items) => match spec_scraped_articles(
                    items,
                    feed_url@,
                    *since_date,
                    blog_name@,
                    self.date_format@,
                    rule_view(custom_url_replace),
                ) {
                    Ok(arts) => r matches Ok(v) && v@.map_values(|a: BlogArticle| a@) == arts,
                    Err(e) => r matches Err(err) && err@ == e,
                },
            }),
            r matches Ok(v) ==> forall|i: int|
                0 <= i < v@.len() ==> since_date.spec_le(#[trigger] v@[i]@.date),
            r matches Ok(v) ==> forall|i: int|
                0 <= i < v@.len() ==> (#[trigger] v@[i]@).blog_name == blog_name@ && v@[i]@.authors
                    is None,
    {
        let article_selector = match parse_selector(self.article_selector.as_str()) {
            Ok(s) => s,
            Err(m) => {
                return Err(
                    AppError::ParseError(
                        String::from_str("Invalid article selector: ").concat(m.as_str()),
                    ),
                );
            },
        };
        let title_selector = match parse_selector(self.title_selector.as_str()) {
            Ok(s) => s,
            Err(m) => {
                return Err(
                    AppError::ParseError(
                        String::from_str("Invalid title selector: ").concat(m.as_str()),
                    ),
                );
            },
        };
        let url_selector = match parse_selector(self.url_selector.as_str()) {
            Ok(s) => s,
            Err(m) => {
                return Err(
                    AppError::ParseError(
                        String::from_str("Invalid URL selector: ").concat(m.as_str()),
                    ),
                );
            },
        };
        let date_selector = match parse_selector(self.date_selector.as_str()) {
            Ok(s) => s,
            Err(m) => {
                return Err(
                    AppError::ParseError(
                        String::from_str("Invalid date selector: ").concat(m.as_str()),
                    ),
                );
            },
        };
        let article_item_selector = match parse_selector(self.article_item_selector.as_str()) {
            Ok(s) => s,
            Err(m) => {
                return Err(
                    AppError::ParseError(
                        String::from_str("Invalid article item selector: ").concat(m.as_str()),
                    ),
                );
            },
        };
        let scraped = match scrape_items(
            content,
            &article_selector,
            &article_item_selector,
            &title_selector,
            &url_selector,
            &date_selector,
            "href",
        ) {
            Some(items) => items,
            None => {
                return Err(AppError::ParseError(String::from_str("No article wrapper found")));
            },
        };
        articles_from_scraped(
            &scraped,
            feed_url,
            since_date,
            blog_name,
            self.date_format.as_str(),
            custom_url_replace,
        )
    }
}

} // verus!
