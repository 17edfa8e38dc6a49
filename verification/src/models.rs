use vstd::prelude::*;

use crate::feed_types::FeedType;

verus! {

/// A calendar date. Stands in for the date-and-time values of the feeds:
/// time of day is discarded everywhere in this library, so only the calendar
/// date is kept.
#[derive(Clone, Copy, PartialEq, Eq, Structural, Debug)]
pub struct Date {
    pub year: i32,
    pub month: u8,
    pub day: u8,
}

/// Number of days of `month` in `year` under the Gregorian rules.
pub open spec fn spec_days_in_month(year: int, month: int) -> int {
    if month == 2 {
        if year % 4 == 0 && (year % 100 != 0 || year % 400 == 0) {
            29
        } else {
            28
        }
    } else if month == 4 || month == 6 || month == 9 || month == 11 {
        30
    } else {
        31
    }
}

impl Date {
    /// A well-formed value names a real calendar date.
    pub open spec fn wf(self) -> bool {
        &&& 1 <= self.month <= 12
        &&& 1 <= self.day <= spec_days_in_month(self.year as int, self.month as int)
    }

    /// Chronological order: lexicographic on (year, month, day).
    pub open spec fn spec_le(self, other: Date) -> bool {
        if self.year != other.year {
            self.year < other.year
        } else if self.month != other.month {
            self.month < other.month
        } else {
            self.day <= other.day
        }
    }

    /// The date `year`-`month`-`day` if that is a real calendar date,
    /// `None` otherwise.
    pub fn from_ymd_opt(year: i32, month: u8, day: u8) -> (r: Option<Date>)
        ensures
            r matches Some(d) ==> d == (Date { year, month, day }) && d.wf(),
            r is None <==> !(Date { year, month, day }).wf(),
    {
        let ok = 1 <= month && month <= 12 && 1 <= day && day <= days_in_month(year, month);
        if ok {
            Some(Date { year, month, day })
        } else {
            None
        }
    }

    /// `self` is on or before `other`.
    pub fn le(&self, other: &Date) -> (r: bool)
        ensures
            r == self.spec_le(*other),
    {
        if self.year != other.year {
            self.year < other.year
        } else if self.month != other.month {
            self.month < other.month
        } else {
            self.day <= other.day
        }
    }
}

/// Number of days of `month` (1..=12) in `year`.
pub fn days_in_month(year: i32, month: u8) -> (r: u8)
    requires
        1 <= month <= 12,
    ensures
        r == spec_days_in_month(year as int, month as int),
{
    if month == 2 {
        if year % 4 == 0 && (year % 100 != 0 || year % 400 == 0) {
            29
        } else {
            28
        }
    } else if month == 4 || month == 6 || month == 9 || month == 11 {
        30
    } else {
        31
    }
}

/// A normalized output record: one article of one source, dated and named.
/// Created only by a fetcher and never changed afterwards.
#[derive(Debug, Clone)]
pub struct BlogArticle {
    pub title: String,
    pub url: String,
    pub date: Date,
    pub blog_name: String,
    pub authors: Option<String>,
}

impl BlogArticle {
    /// A field-wise copy, with its value known to the verifier.
    pub fn duplicate(&self) -> (r: BlogArticle)
        ensures
            r@ == self@,
    {
        BlogArticle {
            title: self.title.clone(),
            url: self.url.clone(),
            date: self.date,
            blog_name: self.blog_name.clone(),
            authors: match &self.authors {
                Some(a) => Some(a.clone()),
                None => None,
            },
        }
    }
}

/// The mathematical value of a `BlogArticle`.
pub struct BlogArticleV {
    pub title: Seq<char>,
    pub url: Seq<char>,
    pub date: Date,
    pub blog_name: Seq<char>,
    pub authors: Option<Seq<char>>,
}

impl View for BlogArticle {
    type V = BlogArticleV;

    open spec fn view(&self) -> BlogArticleV {
        BlogArticleV {
            title: self.title@,
            url: self.url@,
            date: self.date,
            blog_name: self.blog_name@,
            authors: match self.authors {
                Some(a) => Some(a@),
                None => None,
            },
        }
    }
}

/// The selector set a DOM-scraping source must supply: five selector
/// expressions and the date-parse pattern of the page.
#[derive(Debug, Clone)]
pub struct CustomSelectors {
    pub article_selector: String,
    pub article_item_selector: String,
    pub title_selector: String,
    pub url_selector: String,
    pub date_selector: String,
    pub date_format: String,
}

/// The mathematical value of a `CustomSelectors`.
pub struct CustomSelectorsV {
    pub article_selector: Seq<char>,
    pub article_item_selector: Seq<char>,
    pub title_selector: Seq<char>,
    pub url_selector: Seq<char>,
    pub date_selector: Seq<char>,
    pub date_format: Seq<char>,
}

impl View for CustomSelectors {
    type V = CustomSelectorsV;

    open spec fn view(&self) -> CustomSelectorsV {
        CustomSelectorsV {
            article_selector: self.article_selector@,
            article_item_selector: self.article_item_selector@,
            title_selector: self.title_selector@,
            url_selector: self.url_selector@,
            date_selector: self.date_selector@,
            date_format: self.date_format@,
        }
    }
}

/// One source to poll: its name, endpoint, format tag, optional selector
/// set (required iff the tag is CustomHTML) and optional rewrite rule.
#[derive(Debug, Clone)]
pub struct BlogInfo {
    pub name: String,
    pub domain: String,
    pub feed_type: FeedType,
    pub custom_selectors: Option<CustomSelectors>,
    pub custom_url_replace: Option<String>,
}

/// The relevance-filter configuration of the preprint fetcher: keyword
/// list, allowed-author list and excluded-identifier-suffix list. Loaded
/// once per run and read-only afterwards.
#[derive(Debug, Clone)]
pub struct EprintConfig {
    pub keywords: Vec<String>,
    pub authors: Vec<String>,
    pub exclude: Vec<String>,
}

/// The mathematical value of an `EprintConfig`.
pub struct EprintConfigV {
    pub keywords: Seq<Seq<char>>,
    pub authors: Seq<Seq<char>>,
    pub exclude: Seq<Seq<char>>,
}

impl View for EprintConfig {
    type V = EprintConfigV;

    open spec fn view(&self) -> EprintConfigV {
        EprintConfigV {
            keywords: self.keywords.deep_view(),
            authors: self.authors.deep_view(),
            exclude: self.exclude.deep_view(),
        }
    }
}

/// The order on dates is total: a sort on it is meaningful.
pub proof fn lemma_date_order_total(a: Date, b: Date, c: Date)
    ensures
        a.spec_le(a),
        a.spec_le(b) || b.spec_le(a),
        a.spec_le(b) && b.spec_le(c) ==> a.spec_le(c),
        a.spec_le(b) && b.spec_le(a) ==> a == b,
{
}

} // verus!
