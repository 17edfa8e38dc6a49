//! The Atom fetcher: parse the feed, then normalize each entry.

use vstd::prelude::*;

use crate::errors::AppError;
use crate::errors::AppErrorV;
use crate::models::BlogArticle;
use crate::models::BlogArticleV;
use crate::models::Date;
use crate::utils::parse_rss_date;
use crate::utils::replace_url;
use crate::utils::rule_view;
use crate::utils::spec_parse_rss_date;
use crate::utils::spec_replace_url;

verus! {

/// Fetches articles of a standard Atom feed.
pub struct AtomFetcher;

/// One feed entry, reduced to the fields the fetcher reads. An Atom entry
/// always carries a title and an update time; the first link may be
/// missing. The update time arrives already rendered in RFC 2822 form, the
/// shape the date normalizer's first candidate format accepts.
pub struct AtomEntry {
    pub title: String,
    pub link: Option<String>,
    pub updated: String,
}

/// The mathematical value of an `AtomEntry`.
pub struct AtomEntryV {
    pub title: Seq<char>,
    pub link: Option<Seq<char>>,
    pub updated: Seq<char>,
}

impl View for AtomEntry {
    type V = AtomEntryV;

    open spec fn view(&self) -> AtomEntryV {
        AtomEntryV {
            title: self.title@,
            link: match self.link {
                Some(l) => Some(l@),
                None => None,
            },
            updated: self.updated@,
        }
    }
}

/// What `atom_syndication::Feed::read_from` makes of a byte body: `None`
/// where the parse fails, else the feed's entries in order.
pub uninterp spec fn atom_feed_of(content: Seq<u8>) -> Option<Seq<AtomEntryV>>;

/// Relies on atom_syndication::Feed::read_from, on Entry's title, links
/// and updated accessors, on Link::href, and on chrono's strftime
/// formatter rendering the update time in RFC 2822 shape: all functions
/// of the bytes alone. The strftime items used here write every
/// representable year, where to_rfc2822 would panic outside 0..=9999.
#[verifier::external_body]
fn read_feed(content: &Vec<u8>) -> (r: Result<Vec<AtomEntry>, String>)
    ensures
        r matches Ok(v) ==> atom_feed_of(content@) == Some(v@.map_values(|e: AtomEntry| e@)),
        r is Err <==> atom_feed_of(content@) is None,
{
    match ::atom_syndication::Feed::read_from(&content[..]) {
        Ok(feed) => Ok(
            feed.entries().iter().map(
                |e| AtomEntry {
                    title: e.title().to_string(),
                    link: e.links().first().map(|l| l.href().to_string()),
                    updated: e.updated().format("%a, %d %b %Y %H:%M:%S %z").to_string(),
                },
            ).collect(),
        ),
        Err(e) => Err(e.to_string()),
    }
}

/// What the fetcher makes of the parsed entries: fail-fast on the first
/// entry without a link or with an update time the normalizer rejects,
/// else the entries dated on or after `since`, in feed order.
pub open spec fn spec_atom_articles(
    entries: Seq<AtomEntryV>,
    since: Date,
    name: Seq<char>,
    rule: Option<Seq<char>>,
) -> Result<Seq<BlogArticleV>, AppErrorV>
    decreases entries.len(),
{
    if entries.len() == 0 {
        Ok(seq![])
    } else {
        let e = entries[0];
        if e.link is None {
            Err(AppErrorV::ParseError("Missing link"@))
        } else {
            match spec_parse_rss_date(e.updated) {
                None => Err(AppErrorV::DateParseError("Unable to parse date: "@ + e.updated)),
                Some(date) => match spec_atom_articles(entries.skip(1), since, name, rule) {
                    Err(err) => Err(err),
                    Ok(rest) => if since.spec_le(date) {
                        Ok(
                            seq![
                                BlogArticleV {
                                    title: e.title,
                                    url: spec_replace_url(e.link->Some_0, rule),
                                    date: date,
                                    blog_name: name,
                                    authors: None,
                                },
                            ] + rest,
                        )
                    } else {
                        Ok(rest)
                    },
                },
            }
        }
    }
}

/// Every article the Atom processing emits is dated on or after the
/// threshold it was given.
pub proof fn lemma_atom_articles_since(
    entries: Seq<AtomEntryV>,
    since: Date,
    name: Seq<char>,
    rule: Option<Seq<char>>,
)
    ensures
        spec_atom_articles(entries, since, name, rule) matches Ok(arts) ==> forall|i: int|
            0 <= i < arts.len() ==> since.spec_le(#[trigger] arts[i].date),
    decreases entries.len(),
{
    if entries.len() > 0 {
        lemma_atom_articles_since(entries.skip(1), since, name, rule);
    }
}

impl AtomFetcher {
    /// Parse an Atom response body and emit its articles dated on or after
    /// `since_date`, fail-fast on the first malformed entry.
    pub fn fetch_articles(
        &self,
        content: &Vec<u8>,
        since_date: &Date,
        blog_name: &str,
        custom_url_replace: Option<&String>,
    ) -> (r: Result<Vec<BlogArticle>, AppError>)
        ensures
            match atom_feed_of(content@) {
                None => r matches Err(e) && e is ParseError,
                Some(entries) => match spec_atom_articles(
                    entries,
                    *since_date,
                    blog_name@,
                    rule_view(custom_url_replace),
                ) {
                    Ok(arts) => r matches Ok(v) && v@.map_values(|a: BlogArticle| a@) == arts,
                    Err(e) => r matches Err(err) && err@ == e,
                },
            },
            r matches Ok(v) ==> forall|i: int|
                0 <= i < v@.len() ==> since_date.spec_le(#[trigger] v@[i]@.date),
    {
        let entries = match read_feed(content) {
            Ok(entries) => entries,
            Err(m) => {
                return Err(AppError::ParseError(m));
            },
        };
        let ghost entries_v = entries@.map_values(|e: AtomEntry| e@);
        let ghost since = *since_date;
        let ghost name = blog_name@;
        let ghost rule = rule_view(custom_url_replace);
        let mut articles: Vec<BlogArticle> = Vec::new();
        let n = entries.len();
        let mut i: usize = 0;
        proof {
            assert(entries_v.skip(0) =~= entries_v);
            assert(articles@.map_values(|a: BlogArticle| a@) =~= Seq::<BlogArticleV>::empty());
        }
        while i < n
            invariant
                i <= n,
                n == entries@.len(),
                entries_v == entries@.map_values(|e: AtomEntry| e@),
                atom_feed_of(content@) == Some(entries_v),
                since == *since_date,
                name == blog_name@,
                rule == rule_view(custom_url_replace),
                spec_atom_articles(entries_v, since, name, rule) == (match spec_atom_articles(
                    entries_v.skip(i as int),
                    since,
                    name,
                    rule,
                ) {
                    Ok(rest) => Ok(articles@.map_values(|a: BlogArticle| a@) + rest),
                    Err(e) => Err(e),
                }),
                forall|k: int|
                    0 <= k < articles@.len() ==> since.spec_le(
                        #[trigger] articles@[k]@.date,
                    ),
            decreases n - i,
        {
            let ghost rest_v = entries_v.skip(i as int);
            proof {
                assert(rest_v[0] == entries_v[i as int]);
                assert(entries_v[i as int] == entries@[i as int]@);
                assert(rest_v.skip(1) =~= entries_v.skip(i + 1));
            }
            let entry = &entries[i];
            let title = entry.title.clone();
            let link = match &entry.link {
                Some(l) => l.clone(),
                None => {
                    return Err(AppError::ParseError(String::from_str("Missing link")));
                },
            };
            let date = match parse_rss_date(entry.updated.as_str()) {
                Ok(date) => date,
                Err(e) => {
                    return Err(e);
                },
            };
            let url = replace_url(link.as_str(), custom_url_replace);
            if since_date.le(&date) {
                let ghost before = articles@.map_values(|a: BlogArticle| a@);
                articles.push(
                    BlogArticle {
                        title,
                        url,
                        date,
                        blog_name: blog_name.to_owned(),
                        authors: None,
                    },
                );
                proof {
                    let after = articles@.map_values(|a: BlogArticle| a@);
                    assert(after =~= before.push(articles@.last()@));
                    match spec_atom_articles(entries_v.skip(i + 1), since, name, rule) {
                        Ok(rest) => {
                            assert(before + (seq![articles@.last()@] + rest) =~= after + rest);
                        },
                        Err(_) => {},
                    }
                }
            }
            i = i + 1;
        }
        proof {
            assert(entries_v.skip(n as int) =~= Seq::<AtomEntryV>::empty());
            assert(articles@.map_values(|a: BlogArticle| a@) + Seq::<BlogArticleV>::empty()
                =~= articles@.map_values(|a: BlogArticle| a@));
        }
        Ok(articles)
    }
}

} // verus!
