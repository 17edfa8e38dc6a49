//! The RSS fetcher: parse the channel, then normalize each item.

use vstd::prelude::*;

use crate::errors::AppError;
use crate::errors::AppErrorV;
use crate::models::BlogArticle;
use crate::models::BlogArticleV;
use crate::models::Date;
use crate::utils::parse_rss_date;
use crate::utils::replace_url;
use crate::utils::rule_view;
use crate::utils::spec_parse_rss_date;
use crate::utils::spec_replace_url;

verus! {

/// Fetches articles of a standard RSS channel.
pub struct RssFetcher;

/// One channel item, reduced to the three fields the fetcher reads.
pub struct RssEntry {
    pub title: Option<String>,
    pub link: Option<String>,
    pub pub_date: Option<String>,
}

/// The mathematical value of an `RssEntry`.
pub struct RssEntryV {
    pub title: Option<Seq<char>>,
    pub link: Option<Seq<char>>,
    pub pub_date: Option<Seq<char>>,
}

impl View for RssEntry {
    type V = RssEntryV;

    open spec fn view(&self) -> RssEntryV {
        RssEntryV {
            title: match self.title {
                Some(t) => Some(t@),
                None => None,
            },
            link: match self.link {
                Some(l) => Some(l@),
                None => None,
            },
            pub_date: match self.pub_date {
                Some(d) => Some(d@),
                None => None,
            },
        }
    }
}

/// What `rss::Channel::read_from` makes of a byte body: `None` where the
/// parse fails, else the channel's items in order.
pub uninterp spec fn rss_channel_of(content: Seq<u8>) -> Option<Seq<RssEntryV>>;

/// Relies on rss::Channel::read_from and on rss::Item's title, link and
/// pub_date accessors: the parsed items are a function of the bytes alone.
#[verifier::external_body]
fn read_channel(content: &Vec<u8>) -> (r: Result<Vec<RssEntry>, String>)
    ensures
        r matches Ok(v) ==> rss_channel_of(content@) == Some(v@.map_values(|e: RssEntry| e@)),
        r is Err <==> rss_channel_of(content@) is None,
{
    match ::rss::Channel::read_from(&content[..]) {
        Ok(ch) => Ok(
            ch.items().iter().map(
                |it| RssEntry {
                    title: it.title().map(str::to_string),
                    link: it.link().map(str::to_string),
                    pub_date: it.pub_date().map(str::to_string),
                },
            ).collect(),
        ),
        Err(e) => Err(e.to_string()),
    }
}

/// What the fetcher makes of the parsed items: fail-fast on the first item
/// with a missing mandatory field or an unparsable date, else the items
/// with date on or after `since`, in channel order, with the rewrite rule
/// applied to each link.
pub open spec fn spec_rss_articles(
    entries: Seq<RssEntryV>,
    since: Date,
    name: Seq<char>,
    rule: Option<Seq<char>>,
) -> Result<Seq<BlogArticleV>, AppErrorV>
    decreases entries.len(),
{
    if entries.len() == 0 {
        Ok(seq![])
    } else {
        let e = entries[0];
        if e.title is None {
            Err(AppErrorV::ParseError("Missing title"@))
        } else if e.link is None {
            Err(AppErrorV::ParseError("Missing link"@))
        } else if e.pub_date is None {
            Err(AppErrorV::ParseError("Missing publication date"@))
        } else {
            match spec_parse_rss_date(e.pub_date->Some_0) {
                None => Err(
                    AppErrorV::DateParseError("Unable to parse date: "@ + e.pub_date->Some_0),
                ),
                Some(date) => match spec_rss_articles(entries.skip(1), since, name, rule) {
                    Err(err) => Err(err),
                    Ok(rest) => if since.spec_le(date) {
                        Ok(
                            seq![
                                BlogArticleV {
                                    title: e.title->Some_0,
                                    url: spec_replace_url(e.link->Some_0, rule),
                                    date: date,
                                    blog_name: name,
                                    authors: None,
                                },
                            ] + rest,
                        )
                    } else {
                        Ok(rest)
                    },
                },
            }
        }
    }
}

/// Every article the RSS processing emits is dated on or after the
/// threshold it was given.
pub proof fn lemma_rss_articles_since(
    entries: Seq<RssEntryV>,
    since: Date,
    name: Seq<char>,
    rule: Option<Seq<char>>,
)
    ensures
        spec_rss_articles(entries, since, name, rule) matches Ok(arts) ==> forall|i: int|
            0 <= i < arts.len() ==> since.spec_le(#[trigger] arts[i].date),
    decreases entries.len(),
{
    if entries.len() > 0 {
        lemma_rss_articles_since(entries.skip(1), since, name, rule);
    }
}

impl RssFetcher {
    /// Parse an RSS response body and emit its articles dated on or after
    /// `since_date`, fail-fast on the first malformed item.
    pub fn fetch_articles(
        &self,
        content: &Vec<u8>,
        since_date: &Date,
        blog_name: &str,
        custom_url_replace: Option<&String>,
    ) -> (r: Result<Vec<BlogArticle>, AppError>)
        ensures
            match rss_channel_of(content@) {
                None => r matches Err(e) && e is ParseError,
                Some(entries) => match spec_rss_articles(
                    entries,
                    *since_date,
                    blog_name@,
                    rule_view(custom_url_replace),
                ) {
                    Ok(arts) => r matches Ok(v) && v@.map_values(|a: BlogArticle| a@) == arts,
                    Err(e) => r matches Err(err) && err@ == e,
                },
            },
            r matches Ok(v) ==> forall|i: int|
                0 <= i < v@.len() ==> since_date.spec_le(#[trigger] v@[i]@.date),
    {
        let entries = match read_channel(content) {
            Ok(entries) => entries,
            Err(m) => {
                return Err(AppError::ParseError(m));
            },
        };
        let ghost entries_v = entries@.map_values(|e: RssEntry| e@);
        let ghost since = *since_date;
        let ghost name = blog_name@;
        let ghost rule = rule_view(custom_url_replace);
        let mut articles: Vec<BlogArticle> = Vec::new();
        let n = entries.len();
        let mut i: usize = 0;
        proof {
            assert(entries_v.skip(0) =~= entries_v);
            assert(articles@.map_values(|a: BlogArticle| a@) =~= Seq::<BlogArticleV>::empty());
        }
        while i < n
            invariant
                i <= n,
                n == entries@.len(),
                entries_v == entries@.map_values(|e: RssEntry| e@),
                rss_channel_of(content@) == Some(entries_v),
                since == *since_date,
                name == blog_name@,
                rule == rule_view(custom_url_replace),
                spec_rss_articles(entries_v, since, name, rule) == (match spec_rss_articles(
                    entries_v.skip(i as int),
                    since,
                    name,
                    rule,
                ) {
                    Ok(rest) => Ok(articles@.map_values(|a: BlogArticle| a@) + rest),
                    Err(e) => Err(e),
                }),
                forall|k: int|
                    0 <= k < articles@.len() ==> since.spec_le(
                        #[trigger] articles@[k]@.date,
                    ),
            decreases n - i,
        {
            let ghost rest_v = entries_v.skip(i as int);
            proof {
                assert(rest_v[0] == entries_v[i as int]);
                assert(entries_v[i as int] == entries@[i as int]@);
                assert(rest_v.skip(1) =~= entries_v.skip(i + 1));
            }
            let entry = &entries[i];
            let title = match &entry.title {
                Some(t) => t.clone(),
                None => {
                    return Err(AppError::ParseError(String::from_str("Missing title")));
                },
            };
            let link = match &entry.link {
                Some(l) => l.clone(),
                None => {
                    return Err(AppError::ParseError(String::from_str("Missing link")));
                },
            };
            let pub_date = match &entry.pub_date {
                Some(d) => d.clone(),
                None => {
                    return Err(
                        AppError::ParseError(String::from_str("Missing publication date")),
                    );
                },
            };
            let date = match parse_rss_date(pub_date.as_str()) {
                Ok(date) => date,
                Err(e) => {
                    return Err(e);
                },
            };
            let url = replace_url(link.as_str(), custom_url_replace);
            if since_date.le(&date) {
                let ghost before = articles@.map_values(|a: BlogArticle| a@);
                articles.push(
                    BlogArticle {
                        title,
                        url,
                        date,
                        blog_name: blog_name.to_owned(),
                        authors: None,
                    },
                );
                proof {
                    let after = articles@.map_values(|a: BlogArticle| a@);
                    assert(after =~= before.push(articles@.last()@));
                    match spec_rss_articles(entries_v.skip(i + 1), since, name, rule) {
                        Ok(rest) => {
                            assert(before + (seq![articles@.last()@] + rest) =~= after + rest);
                        },
                        Err(_) => {},
                    }
                }
            }
            i = i + 1;
        }
        proof {
            assert(entries_v.skip(n as int) =~= Seq::<RssEntryV>::empty());
            assert(articles@.map_values(|a: BlogArticle| a@) + Seq::<BlogArticleV>::empty()
                =~= articles@.map_values(|a: BlogArticle| a@));
        }
        Ok(articles)
    }
}

} // verus!
