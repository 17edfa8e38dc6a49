//! The JSON-feed fetcher: a list endpoint returns an array of post objects.

use vstd::prelude::*;

use crate::errors::AppError;
use crate::errors::AppErrorV;
use crate::models::BlogArticle;
use crate::models::BlogArticleV;
use crate::models::Date;
use crate::text::chars_of;
use crate::text::spec_trim_end_matches;
use crate::text::string_from_chars;
use crate::text::trim_end_matches_chars;
use crate::utils::chrono_parse;
use crate::utils::parse_naive_date;
use crate::utils::replace_url;
use crate::utils::rule_view;
use crate::utils::spec_replace_url;

verus! {

/// Fetches articles of a JSON-feed (Substack-style) list endpoint.
pub struct SubstackFetcher;

/// One post object, reduced to the three fields the fetcher reads.
pub struct SubstackPost {
    pub title: Option<String>,
    pub slug: Option<String>,
    pub post_date: Option<String>,
}

/// The mathematical value of a `SubstackPost`.
pub struct SubstackPostV {
    pub title: Option<Seq<char>>,
    pub slug: Option<Seq<char>>,
    pub post_date: Option<Seq<char>>,
}

impl View for SubstackPost {
    type V = SubstackPostV;

    open spec fn view(&self) -> SubstackPostV {
        SubstackPostV {
            title: match self.title {
                Some(t) => Some(t@),
                None => None,
            },
            slug: match self.slug {
                Some(s) => Some(s@),
                None => None,
            },
            post_date: match self.post_date {
                Some(d) => Some(d@),
                None => None,
            },
        }
    }
}

/// What serde_json makes of the response text, read through the three
/// given field names: `None` where the text is not valid JSON; an empty
/// sequence where it is valid JSON but not an array; else one element per
/// array member, each field a string or absent.
pub uninterp spec fn substack_posts_of(
    content: Seq<char>,
    f_title: Seq<char>,
    f_slug: Seq<char>,
    f_date: Seq<char>,
) -> Option<Seq<SubstackPostV>>;

/// Relies on serde_json::from_str, Value::as_array, Value's indexing by
/// field name and Value::as_str: the extraction is a function of the text
/// and the three field names alone.
#[verifier::external_body]
fn read_posts(content: &str, f_title: &str, f_slug: &str, f_date: &str) -> (r: Result<
    Vec<SubstackPost>,
    String,
>)
    ensures
        r matches Ok(v) ==> substack_posts_of(content@, f_title@, f_slug@, f_date@) == Some(
            v@.map_values(|p: SubstackPost| p@),
        ),
        r is Err <==> substack_posts_of(content@, f_title@, f_slug@, f_date@) is None,
{
    match serde_json::from_str::<serde_json::Value>(content) {
        Ok(json) => Ok(
            match json.as_array() {
                Some(posts) => posts.iter().map(
                    |p| SubstackPost {
                        title: p[f_title].as_str().map(str::to_string),
                        slug: p[f_slug].as_str().map(str::to_string),
                        post_date: p[f_date].as_str().map(str::to_string),
                    },
                ).collect(),
                None => Vec::new(),
            },
        ),
        Err(e) => Err(e.to_string()),
    }
}

/// The canonical URL of a post: the endpoint with the known query suffix
/// trimmed, then "/p/" and the slug, then the rewrite rule.
pub open spec fn spec_substack_url(
    feed_url: Seq<char>,
    slug: Seq<char>,
    rule: Option<Seq<char>>,
) -> Seq<char> {
    spec_replace_url(
        spec_trim_end_matches(feed_url, "/api/v1/posts/?limit=50"@) + "/p/"@ + slug,
        rule,
    )
}

/// What the fetcher makes of the parsed posts: fail-fast on the first post
/// with a missing mandatory field or an unparsable post_date, else the
/// posts dated on or after `since`, in feed order.
pub open spec fn spec_substack_articles(
    posts: Seq<SubstackPostV>,
    feed_url: Seq<char>,
    since: Date,
    name: Seq<char>,
    rule: Option<Seq<char>>,
) -> Result<Seq<BlogArticleV>, AppErrorV>
    decreases posts.len(),
{
    if posts.len() == 0 {
        Ok(seq![])
    } else {
        let p = posts[0];
        if p.title is None {
            Err(AppErrorV::ParseError("Missing title"@))
        } else if p.slug is None {
            Err(AppErrorV::ParseError("Missing slug"@))
        } else if p.post_date is None {
            Err(AppErrorV::ParseError("Missing post_date"@))
        } else {
            match chrono_parse(p.post_date->Some_0, "%Y-%m-%dT%H:%M:%S%.fZ"@) {
                Err(m) => Err(AppErrorV::DateParseError(m)),
                Ok(d) => match spec_substack_articles(posts.skip(1), feed_url, since, name, rule) {
                    Err(err) => Err(err),
                    Ok(rest) => if since.spec_le(
                        Date { year: d.0, month: d.1, day: d.2 },
                    ) {
                        Ok(
                            seq![
                                BlogArticleV {
                                    title: p.title->Some_0,
                                    url: spec_substack_url(feed_url, p.slug->Some_0, rule),
                                    date: Date { year: d.0, month: d.1, day: d.2 },
                                    blog_name: name,
                                    authors: None,
                                },
                            ] + rest,
                        )
                    } else {
                        Ok(rest)
                    },
                },
            }
        }
    }
}

/// Every article the JSON-feed processing emits is dated on or after the
/// threshold it was given.
pub proof fn lemma_substack_articles_since(
    posts: Seq<SubstackPostV>,
    feed_url: Seq<char>,
    since: Date,
    name: Seq<char>,
    rule: Option<Seq<char>>,
)
    ensures
        spec_substack_articles(posts, feed_url, since, name, rule) matches Ok(arts)
            ==> forall|i: int| 0 <= i < arts.len() ==> since.spec_le(#[trigger] arts[i].date),
    decreases posts.len(),
{
    if posts.len() > 0 {
        lemma_substack_articles_since(posts.skip(1), feed_url, since, name, rule);
    }
}

impl SubstackFetcher {
    /// Parse a JSON-feed response body and emit its articles dated on or
    /// after `since_date`, fail-fast on the first malformed post.
    pub fn fetch_articles(
        &self,
        content: &str,
        feed_url: &str,
        since_date: &Date,
        blog_name: &str,
        custom_url_replace: Option<&String>,
    ) -> (r: Result<Vec<BlogArticle>, AppError>)
        ensures
            match substack_posts_of(content@, "title"@, "slug"@, "post_date"@) {
                None => r matches Err(e) && e is ParseError,
                Some(posts) => match spec_substack_articles(
                    posts,
                    feed_url@,
                    *since_date,
                    blog_name@,
                    rule_view(custom_url_replace),
                ) {
                    Ok(arts) => r matches Ok(v) && v@.map_values(|a: BlogArticle| a@) == arts,
                    Err(e) => r matches Err(err) && err@ == e,
                },
            },
            r matches Ok(v) ==> forall|i: int|
                0 <= i < v@.len() ==> since_date.spec_le(#[trigger] v@[i]@.date),
    {
        let posts = match read_posts(content, "title", "slug", "post_date") {
            Ok(posts) => posts,
            Err(m) => {
                return Err(AppError::ParseError(m));
            },
        };
        let ghost posts_v = posts@.map_values(|p: SubstackPost| p@);
        let ghost since = *since_date;
        let ghost name = blog_name@;
        let ghost rule = rule_view(custom_url_replace);
        let mut articles: Vec<BlogArticle> = Vec::new();
        let n = posts.len();
        let mut i: usize = 0;
        proof {
            assert(posts_v.skip(0) =~= posts_v);
            assert(articles@.map_values(|a: BlogArticle| a@) =~= Seq::<BlogArticleV>::empty());
        }
        while i < n
            invariant
                i <= n,
                n == posts@.len(),
                posts_v == posts@.map_values(|p: SubstackPost| p@),
                substack_posts_of(content@, "title"@, "slug"@, "post_date"@) == Some(posts_v),
                since == *since_date,
                name == blog_name@,
                rule == rule_view(custom_url_replace),
                spec_substack_articles(posts_v, feed_url@, since, name, rule) == (
                match spec_substack_articles(
                    posts_v.skip(i as int),
                    feed_url@,
                    since,
                    name,
                    rule,
                ) {
                    Ok(rest) => Ok(articles@.map_values(|a: BlogArticle| a@) + rest),
                    Err(e) => Err(e),
                }),
                forall|k: int|
                    0 <= k < articles@.len() ==> since.spec_le(
                        #[trigger] articles@[k]@.date,
                    ),
            decreases n - i,
        {
            let ghost rest_v = posts_v.skip(i as int);
            proof {
                assert(rest_v[0] == posts_v[i as int]);
                assert(posts_v[i as int] == posts@[i as int]@);
                assert(rest_v.skip(1) =~= posts_v.skip(i + 1));
            }
            let post = &posts[i];
            let title = match &post.title {
                Some(t) => t.clone(),
                None => {
                    return Err(AppError::ParseError(String::from_str("Missing title")));
                },
            };
            let slug = match &post.slug {
                Some(s) => s.clone(),
                None => {
                    return Err(AppError::ParseError(String::from_str("Missing slug")));
                },
            };
            let post_date = match &post.post_date {
                Some(d) => d.clone(),
                None => {
                    return Err(AppError::ParseError(String::from_str("Missing post_date")));
                },
            };
            let d = match parse_naive_date(post_date.as_str(), "%Y-%m-%dT%H:%M:%S%.fZ") {
                Ok(d) => d,
                Err(m) => {
                    return Err(AppError::DateParseError(m));
                },
            };
            let date = Date { year: d.0, month: d.1, day: d.2 };
            proof {
                reveal_strlit("/api/v1/posts/?limit=50");
            }
            let base = trim_end_matches_chars(
                chars_of(feed_url),
                &chars_of("/api/v1/posts/?limit=50"),
            );
            let url = string_from_chars(&base).concat("/p/").concat(slug.as_str());
            let url = replace_url(url.as_str(), custom_url_replace);
            if since_date.le(&date) {
                let ghost before = articles@.map_values(|a: BlogArticle| a@);
                articles.push(
                    BlogArticle {
                        title,
                        url,
                        date,
                        blog_name: blog_name.to_owned(),
                        authors: None,
                    },
                );
                proof {
                    let after = articles@.map_values(|a: BlogArticle| a@);
                    assert(after =~= before.push(articles@.last()@));
                    match spec_substack_articles(
                        posts_v.skip(i + 1),
                        feed_url@,
                        since,
                        name,
                        rule,
                    ) {
                        Ok(rest) => {
                            assert(before + (seq![articles@.last()@] + rest) =~= after + rest);
                        },
                        Err(_) => {},
                    }
                }
            }
            i = i + 1;
        }
        proof {
            assert(posts_v.skip(n as int) =~= Seq::<SubstackPostV>::empty());
            assert(articles@.map_values(|a: BlogArticle| a@) + Seq::<BlogArticleV>::empty()
                =~= articles@.map_values(|a: BlogArticle| a@));
        }
        Ok(articles)
    }
}

} // verus!
