//! The orchestrator's decisions: validate each source before dispatch, and
//! aggregate the settled per-source outcomes into the two date-ordered bins
//! and the error list.
//!
//! Running the fetches concurrently is a collaborator's job; this module is
//! handed one tagged outcome per source, in source order.

use vstd::prelude::*;

use crate::errors::AppError;
use crate::errors::AppErrorV;
use crate::feed_types::FeedType;
use crate::models::BlogArticle;
use crate::models::BlogArticleV;
use crate::models::BlogInfo;
use crate::models::Date;
use crate::models::lemma_date_order_total;
use crate::text::str_eq;
use vstd::multiset::Multiset;

verus! {

/// One source's settled outcome: the source name, and its articles or its
/// error.
pub type FetchOutcome = (String, Result<Vec<BlogArticle>, AppError>);

/// The mathematical value of a `FetchOutcome`.
pub type FetchOutcomeV = (Seq<char>, Result<Seq<BlogArticleV>, AppErrorV>);

/// The mathematical value of one outcome.
pub open spec fn spec_outcome_view(p: FetchOutcome) -> FetchOutcomeV {
    (
        p.0@,
        match p.1 {
            Ok(v) => Ok(v@.map_values(|a: BlogArticle| a@)),
            Err(e) => Err(e@),
        },
    )
}

/// A DOM-scrape source without its selector set is a configuration error,
/// found before any network call; every other source passes.
pub fn validate_source(blog: &BlogInfo) -> (r: Result<(), AppError>)
    ensures
        r is Ok <==> !(blog.feed_type is CustomHTML && blog.custom_selectors is None),
        r matches Err(e) ==> (e matches AppError::ConfigurationError(m) && m@
            == "Missing custom selectors for CustomHTML"@),
{
    match blog.feed_type {
        FeedType::CustomHTML => {
            if blog.custom_selectors.is_none() {
                Err(
                    AppError::ConfigurationError(
                        String::from_str("Missing custom selectors for CustomHTML"),
                    ),
                )
            } else {
                Ok(())
            }
        },
        _ => Ok(()),
    }
}

/// All articles of the successful outcomes, in source order, each source's
/// articles in their own order.
pub open spec fn spec_flatten_articles(outcomes: Seq<FetchOutcomeV>) -> Seq<BlogArticleV>
    decreases outcomes.len(),
{
    if outcomes.len() == 0 {
        seq![]
    } else {
        (match outcomes[0].1 {
            Ok(arts) => arts,
            Err(_) => seq![],
        }) + spec_flatten_articles(outcomes.skip(1))
    }
}

/// One (source, message) pair per failed outcome, in source order.
pub open spec fn spec_error_list(outcomes: Seq<FetchOutcomeV>) -> Seq<(Seq<char>, Seq<char>)>
    decreases outcomes.len(),
{
    if outcomes.len() == 0 {
        seq![]
    } else {
        (match outcomes[0].1 {
            Ok(_) => seq![],
            Err(e) => seq![(outcomes[0].0, e.spec_message_v())],
        }) + spec_error_list(outcomes.skip(1))
    }
}

/// An article belongs to the preprint bin iff its source name is the
/// preprint sentinel.
pub open spec fn spec_is_eprint(a: BlogArticleV) -> bool {
    a.blog_name == "Eprint"@
}

/// The articles on one side of the preprint partition, in arrival order.
pub open spec fn spec_select_bin(arts: Seq<BlogArticleV>, want_eprint: bool) -> Seq<BlogArticleV>
    decreases arts.len(),
{
    if arts.len() == 0 {
        seq![]
    } else {
        (if spec_is_eprint(arts[0]) == want_eprint {
            seq![arts[0]]
        } else {
            seq![]
        }) + spec_select_bin(arts.skip(1), want_eprint)
    }
}

/// Insert `x` into `s` after every element dated on or before it; with `s`
/// sorted this keeps arrival order among equal dates.
pub open spec fn spec_insert_by_date(s: Seq<BlogArticleV>, x: BlogArticleV) -> Seq<BlogArticleV>
    decreases s.len(),
{
    if s.len() == 0 {
        seq![x]
    } else if s.last().date.spec_le(x.date) {
        s.push(x)
    } else {
        spec_insert_by_date(s.drop_last(), x).push(s.last())
    }
}

/// Sort by date ascending, stable: insertion sort.
pub open spec fn spec_sort_by_date(s: Seq<BlogArticleV>) -> Seq<BlogArticleV>
    decreases s.len(),
{
    if s.len() == 0 {
        seq![]
    } else {
        spec_insert_by_date(spec_sort_by_date(s.drop_last()), s.last())
    }
}

/// Dates never decrease along the sequence.
pub open spec fn spec_sorted_by_date(s: Seq<BlogArticleV>) -> bool {
    forall|i: int, j: int|
        0 <= i < j < s.len() ==> (#[trigger] s[i]).date.spec_le(#[trigger] s[j].date)
}

/// Inserting into a date-sorted sequence keeps it date-sorted.
pub proof fn lemma_insert_by_date_sorted(s: Seq<BlogArticleV>, x: BlogArticleV)
    requires
        spec_sorted_by_date(s),
    ensures
        spec_sorted_by_date(spec_insert_by_date(s, x)),
        spec_insert_by_date(s, x).to_multiset() == s.to_multiset().insert(x),
        spec_insert_by_date(s, x).len() == s.len() + 1,
    decreases s.len(),
{
    broadcast use vstd::seq_lib::group_to_multiset_ensures;

    if s.len() == 0 {
        assert(seq![x] =~= Seq::<BlogArticleV>::empty().push(x));
        assert(Seq::<BlogArticleV>::empty().to_multiset() =~= Multiset::<BlogArticleV>::empty());
        assert(seq![x].to_multiset() =~= s.to_multiset().insert(x));
    } else if s.last().date.spec_le(x.date) {
        let r = s.push(x);
        assert forall|i: int, j: int| 0 <= i < j < r.len() implies (#[trigger] r[i]).date.spec_le(
            (#[trigger] r[j]).date,
        ) by {
            if j < r.len() - 1 {
                assert(s[i].date.spec_le(s[j].date));
            } else {
                if i < s.len() - 1 {
                    assert(s[i].date.spec_le(s[s.len() - 1].date));
                }
                lemma_date_order_total(r[i].date, s.last().date, x.date);
            }
        }
    } else {
        let t = s.drop_last();
        assert forall|i: int, j: int| 0 <= i < j < t.len() implies (#[trigger] t[i]).date.spec_le(
            (#[trigger] t[j]).date,
        ) by {
            assert(s[i].date.spec_le(s[j].date));
        }
        lemma_insert_by_date_sorted(t, x);
        let u = spec_insert_by_date(t, x);
        let r = u.push(s.last());
        // every element of u is either x or an element of t, and both are
        // dated on or before s.last()
        assert forall|i: int, j: int| 0 <= i < j < r.len() implies (#[trigger] r[i]).date.spec_le(
            (#[trigger] r[j]).date,
        ) by {
            if j < r.len() - 1 {
                assert(u[i].date.spec_le(u[j].date));
            } else {
                assert(u.to_multiset().contains(r[i]));
                assert(t.to_multiset().insert(x).contains(r[i]));
                if r[i] == x {
                    lemma_date_order_total(x.date, s.last().date, s.last().date);
                } else {
                    assert(t.to_multiset().contains(r[i]));
                    assert(t.contains(r[i]));
                    let k = choose|k: int| 0 <= k < t.len() && t[k] == r[i];
                    if k < t.len() - 1 {
                        assert(t[k].date.spec_le(t[t.len() - 1].date));
                    }
                    assert(s[k].date.spec_le(s[s.len() - 1].date));
                }
            }
        }
        assert(t.push(s.last()) =~= s);
        assert(r.to_multiset() =~= s.to_multiset().insert(x)) by {
            assert(u.to_multiset() == t.to_multiset().insert(x));
            assert(r.to_multiset() == u.to_multiset().insert(s.last()));
            assert(s.to_multiset() == t.to_multiset().insert(s.last()));
            assert(t.to_multiset().insert(x).insert(s.last()) =~= t.to_multiset().insert(
                s.last(),
            ).insert(x));
        }
    }
}

/// The sort leaves a date-sorted sequence holding exactly the articles it
/// was given.
pub proof fn lemma_sort_by_date_sorted(s: Seq<BlogArticleV>)
    ensures
        spec_sorted_by_date(spec_sort_by_date(s)),
        spec_sort_by_date(s).to_multiset() == s.to_multiset(),
        spec_sort_by_date(s).len() == s.len(),
    decreases s.len(),
{
    broadcast use vstd::seq_lib::group_to_multiset_ensures;

    if s.len() > 0 {
        lemma_sort_by_date_sorted(s.drop_last());
        lemma_insert_by_date_sorted(spec_sort_by_date(s.drop_last()), s.last());
        assert(s.drop_last().push(s.last()) =~= s);
        assert(s.drop_last().to_multiset().insert(s.last()) == s.to_multiset());
    }
}

/// The articles dated `d`.
pub open spec fn spec_dated(d: Date) -> spec_fn(BlogArticleV) -> bool {
    |a: BlogArticleV| a.date == d
}

/// Inserting keeps arrival order among articles of one date: the ones
/// dated like `x` gain `x` at the end, every other date's run is untouched.
pub proof fn lemma_insert_by_date_stable(s: Seq<BlogArticleV>, x: BlogArticleV, d: Date)
    requires
        spec_sorted_by_date(s),
    ensures
        spec_insert_by_date(s, x).filter(spec_dated(d)) == if x.date == d {
            s.filter(spec_dated(d)).push(x)
        } else {
            s.filter(spec_dated(d))
        },
    decreases s.len(),
{
    reveal(Seq::filter);
    let p = spec_dated(d);
    if s.len() == 0 {
        assert(seq![x] =~= Seq::<BlogArticleV>::empty().push(x));
        assert(seq![x].drop_last() =~= Seq::<BlogArticleV>::empty());
        assert(seq![x].filter(p) == if p(x) {
            Seq::<BlogArticleV>::empty().filter(p).push(x)
        } else {
            Seq::<BlogArticleV>::empty().filter(p)
        });
    } else if s.last().date.spec_le(x.date) {
        let r = s.push(x);
        assert(r.drop_last() =~= s);
        assert(r.last() == x);
    } else {
        let t = s.drop_last();
        assert forall|i: int, j: int| 0 <= i < j < t.len() implies (#[trigger] t[i]).date.spec_le(
            (#[trigger] t[j]).date,
        ) by {
            assert(s[i].date.spec_le(s[j].date));
        }
        lemma_insert_by_date_stable(t, x, d);
        let u = spec_insert_by_date(t, x);
        let r = u.push(s.last());
        assert(r.drop_last() =~= u);
        assert(r.last() == s.last());
        if x.date == d {
            // the displaced last element is dated strictly after x, so it
            // is not dated d and drops out of both filters
            lemma_date_order_total(s.last().date, x.date, x.date);
            assert(!p(s.last()));
            assert(r.filter(p) == u.filter(p));
            assert(s.filter(p) == t.filter(p));
        } else {
            assert(r.filter(p) == if p(s.last()) {
                t.filter(p).push(s.last())
            } else {
                t.filter(p)
            });
            assert(s.filter(p) == if p(s.last()) {
                t.filter(p).push(s.last())
            } else {
                t.filter(p)
            });
        }
    }
}

/// The sort is stable: for every date, the articles of that date come out
/// in exactly the order they arrived.
pub proof fn lemma_sort_by_date_stable(s: Seq<BlogArticleV>, d: Date)
    ensures
        spec_sort_by_date(s).filter(spec_dated(d)) == s.filter(spec_dated(d)),
    decreases s.len(),
{
    reveal(Seq::filter);
    let p = spec_dated(d);
    if s.len() > 0 {
        let t = s.drop_last();
        lemma_sort_by_date_stable(t, d);
        lemma_sort_by_date_sorted(t);
        lemma_insert_by_date_stable(spec_sort_by_date(t), s.last(), d);
        assert(s.filter(p) == if p(s.last()) {
            t.filter(p).push(s.last())
        } else {
            t.filter(p)
        });
    }
}

/// Exactly one failing source yields exactly one error entry, and it names
/// that source.
pub proof fn lemma_single_failure(outcomes: Seq<FetchOutcomeV>, f: int)
    requires
        0 <= f < outcomes.len(),
        outcomes[f].1 is Err,
        forall|j: int| 0 <= j < outcomes.len() && j != f ==> (#[trigger] outcomes[j].1) is Ok,
    ensures
        spec_error_list(outcomes).len() == 1,
        spec_error_list(outcomes)[0].0 == outcomes[f].0,
    decreases outcomes.len(),
{
    if f == 0 {
        lemma_all_ok_no_errors(outcomes.skip(1));
    } else {
        assert(outcomes[0].1 is Ok);
        assert forall|j: int| 0 <= j < outcomes.skip(1).len() && j != f - 1 implies (
        #[trigger] outcomes.skip(1)[j].1) is Ok by {
            assert(outcomes.skip(1)[j] == outcomes[j + 1]);
        }
        assert(outcomes.skip(1)[f - 1] == outcomes[f]);
        lemma_single_failure(outcomes.skip(1), f - 1);
    }
}

/// One source's failure loses nothing of the others: every article of
/// every successful outcome appears in the flattened list.
pub proof fn lemma_flatten_keeps_successes(outcomes: Seq<FetchOutcomeV>, j: int, k: int)
    requires
        0 <= j < outcomes.len(),
        outcomes[j].1 is Ok,
        0 <= k < (outcomes[j].1->Ok_0).len(),
    ensures
        spec_flatten_articles(outcomes).contains(outcomes[j].1->Ok_0[k]),
    decreases j,
{
    let head = (match outcomes[0].1 {
        Ok(arts) => arts,
        Err(_) => seq![],
    });
    let rest = spec_flatten_articles(outcomes.skip(1));
    if j == 0 {
        assert((head + rest)[k] == outcomes[j].1->Ok_0[k]);
    } else {
        assert(outcomes.skip(1)[j - 1] == outcomes[j]);
        lemma_flatten_keeps_successes(outcomes.skip(1), j - 1, k);
        let x = outcomes[j].1->Ok_0[k];
        let i = choose|i: int| 0 <= i < rest.len() && rest[i] == x;
        assert((head + rest)[head.len() + i] == x);
    }
}

/// Sources that all succeed report no errors.
pub proof fn lemma_all_ok_no_errors(outcomes: Seq<FetchOutcomeV>)
    requires
        forall|j: int| 0 <= j < outcomes.len() ==> (#[trigger] outcomes[j].1) is Ok,
    ensures
        spec_error_list(outcomes).len() == 0,
    decreases outcomes.len(),
{
    if outcomes.len() > 0 {
        assert forall|j: int| 0 <= j < outcomes.skip(1).len() implies (#[trigger] outcomes.skip(
            1,
        )[j].1) is Ok by {
            assert(outcomes.skip(1)[j] == outcomes[j + 1]);
        }
        lemma_all_ok_no_errors(outcomes.skip(1));
    }
}

/// Sort a bin by date ascending, stable.
fn sort_articles_by_date(v: Vec<BlogArticle>) -> (r: Vec<BlogArticle>)
    ensures
        r@.map_values(|a: BlogArticle| a@) == spec_sort_by_date(
            v@.map_values(|a: BlogArticle| a@),
        ),
{
    let ghost goal = v@.map_values(|a: BlogArticle| a@);
    let mut r: Vec<BlogArticle> = Vec::new();
    let n = v.len();
    let mut i: usize = 0;
    proof {
        assert(goal.take(0) =~= Seq::<BlogArticleV>::empty());
        assert(r@.map_values(|a: BlogArticle| a@) =~= Seq::<BlogArticleV>::empty());
    }
    while i < n
        invariant
            i <= n,
            n == v@.len(),
            goal == v@.map_values(|a: BlogArticle| a@),
            r@.map_values(|a: BlogArticle| a@) == spec_sort_by_date(goal.take(i as int)),
        decreases n - i,
    {
        let ghost rv = r@.map_values(|a: BlogArticle| a@);
        let x = v[i].duplicate();
        proof {
            assert(x@ == goal[i as int]);
            assert(goal.take(i + 1).drop_last() =~= goal.take(i as int));
            assert(goal.take(i + 1).last() == goal[i as int]);
        }
        // find the insertion point: after every element dated on or
        // before x, before the trailing run dated after x
        let mut p: usize = r.len();
        proof {
            assert(rv.take(p as int) =~= rv);
            assert(rv.skip(p as int) =~= Seq::<BlogArticleV>::empty());
            assert(spec_insert_by_date(rv, x@) + Seq::<BlogArticleV>::empty()
                =~= spec_insert_by_date(rv, x@));
        }
        while p > 0 && !r[p - 1].date.le(&x.date)
            invariant
                p <= r@.len(),
                rv == r@.map_values(|a: BlogArticle| a@),
                x@ == goal[i as int],
                spec_insert_by_date(rv, x@) == spec_insert_by_date(rv.take(p as int), x@)
                    + rv.skip(p as int),
            decreases p,
        {
            proof {
                let w = rv.take(p as int);
                assert(w.last() == rv[p - 1]);
                assert(rv[p - 1] == r@[p - 1]@);
                assert(w.drop_last() =~= rv.take(p - 1));
                assert(spec_insert_by_date(rv.take(p - 1), x@).push(rv[p - 1]) + rv.skip(
                    p as int,
                ) =~= spec_insert_by_date(rv.take(p - 1), x@) + rv.skip(p - 1));
            }
            p = p - 1;
        }
        proof {
            let w = rv.take(p as int);
            if p > 0 {
                assert(w.last() == rv[p - 1]);
                assert(rv[p - 1] == r@[p - 1]@);
                assert(spec_insert_by_date(w, x@) == w.push(x@));
            } else {
                assert(w =~= Seq::<BlogArticleV>::empty());
                assert(spec_insert_by_date(w, x@) == seq![x@]);
            }
            assert(spec_insert_by_date(rv, x@) == w.push(x@) + rv.skip(p as int));
        }
        r.insert(p, x);
        proof {
            assert(r@.map_values(|a: BlogArticle| a@) =~= rv.take(p as int).push(x@) + rv.skip(
                p as int,
            ));
        }
        i = i + 1;
    }
    proof {
        assert(goal.take(n as int) =~= goal);
    }
    r
}

/// Aggregate the settled outcomes: flatten the successes, partition into
/// the preprint bin and the rest, sort each bin by date ascending with
/// ties in arrival order, and collect one (source, message) pair per
/// failure.
pub fn aggregate_outcomes(outcomes: Vec<FetchOutcome>) -> (r: (
    Vec<BlogArticle>,
    Vec<BlogArticle>,
    Vec<(String, String)>,
))
    ensures
        r.0@.map_values(|a: BlogArticle| a@) == spec_sort_by_date(
            spec_select_bin(
                spec_flatten_articles(outcomes@.map_values(|p: FetchOutcome| spec_outcome_view(p))),
                true,
            ),
        ),
        r.1@.map_values(|a: BlogArticle| a@) == spec_sort_by_date(
            spec_select_bin(
                spec_flatten_articles(outcomes@.map_values(|p: FetchOutcome| spec_outcome_view(p))),
                false,
            ),
        ),
        r.2@.map_values(|p: (String, String)| (p.0@, p.1@)) == spec_error_list(
            outcomes@.map_values(|p: FetchOutcome| spec_outcome_view(p)),
        ),
{
    let ghost ov = outcomes@.map_values(|p: FetchOutcome| spec_outcome_view(p));
    let mut all: Vec<BlogArticle> = Vec::new();
    let mut errors: Vec<(String, String)> = Vec::new();
    let n = outcomes.len();
    let mut i: usize = 0;
    proof {
        assert(ov.skip(0) =~= ov);
        assert(all@.map_values(|a: BlogArticle| a@) =~= Seq::<BlogArticleV>::empty());
        assert(errors@.map_values(|p: (String, String)| (p.0@, p.1@)) =~= Seq::<
            (Seq<char>, Seq<char>),
        >::empty());
    }
    while i < n
        invariant
            i <= n,
            n == outcomes@.len(),
            ov == outcomes@.map_values(|p: FetchOutcome| spec_outcome_view(p)),
            spec_flatten_articles(ov) == all@.map_values(|a: BlogArticle| a@)
                + spec_flatten_articles(ov.skip(i as int)),
            spec_error_list(ov) == errors@.map_values(|p: (String, String)| (p.0@, p.1@))
                + spec_error_list(ov.skip(i as int)),
        decreases n - i,
    {
        let ghost rest = ov.skip(i as int);
        proof {
            assert(rest[0] == ov[i as int]);
            assert(ov[i as int] == spec_outcome_view(outcomes@[i as int]));
            assert(rest.skip(1) =~= ov.skip(i + 1));
        }
        let outcome = &outcomes[i];
        match &outcome.1 {
            Ok(articles) => {
                let ghost before = all@.map_values(|a: BlogArticle| a@);
                let m = articles.len();
                let mut j: usize = 0;
                proof {
                    assert(articles@.map_values(|a: BlogArticle| a@).take(0) =~= Seq::<
                        BlogArticleV,
                    >::empty());
                    assert(before + articles@.map_values(|a: BlogArticle| a@).take(0) =~= before);
                }
                while j < m
                    invariant
                        j <= m,
                        m == articles@.len(),
                        articles@ == outcomes@[i as int].1->Ok_0@,
                        i < outcomes@.len(),
                        all@.map_values(|a: BlogArticle| a@) == before + articles@.map_values(
                            |a: BlogArticle| a@,
                        ).take(j as int),
                    decreases m - j,
                {
                    let ghost av = articles@.map_values(|a: BlogArticle| a@);
                    all.push(articles[j].duplicate());
                    proof {
                        assert(articles@[j as int]@ == av[j as int]);
                        assert(all@.map_values(|a: BlogArticle| a@) =~= (before + av.take(
                            j as int,
                        )).push(av[j as int]));
                        assert((before + av.take(j as int)).push(av[j as int]) =~= before
                            + av.take(j + 1));
                    }
                    j = j + 1;
                }
                proof {
                    let av = articles@.map_values(|a: BlogArticle| a@);
                    assert(av.take(m as int) =~= av);
                    assert(rest[0].1 matches Ok(arts) && arts == av);
                    assert((before + av) + spec_flatten_articles(ov.skip(i + 1)) =~= before + (av
                        + spec_flatten_articles(ov.skip(i + 1))));
                    assert(spec_error_list(rest) == spec_error_list(ov.skip(i + 1)));
                }
            },
            Err(e) => {
                let ghost eb = errors@.map_values(|p: (String, String)| (p.0@, p.1@));
                let msg = e.message();
                errors.push((outcome.0.clone(), msg));
                proof {
                    assert(errors@.map_values(|p: (String, String)| (p.0@, p.1@)) =~= eb.push(
                        (outcomes@[i as int].0@, outcomes@[i as int].1->Err_0@.spec_message_v()),
                    ));
                    assert(eb + (seq![
                        (outcomes@[i as int].0@, outcomes@[i as int].1->Err_0@.spec_message_v()),
                    ] + spec_error_list(ov.skip(i + 1))) =~= eb.push(
                        (outcomes@[i as int].0@, outcomes@[i as int].1->Err_0@.spec_message_v()),
                    ) + spec_error_list(ov.skip(i + 1)));
                    assert(spec_flatten_articles(rest) == spec_flatten_articles(ov.skip(i + 1)));
                    assert(all@.map_values(|a: BlogArticle| a@) + (Seq::<BlogArticleV>::empty()
                        + spec_flatten_articles(ov.skip(i + 1))) =~= all@.map_values(
                        |a: BlogArticle| a@,
                    ) + spec_flatten_articles(ov.skip(i + 1)));
                }
            },
        }
        i = i + 1;
    }
    proof {
        assert(ov.skip(n as int) =~= Seq::<FetchOutcomeV>::empty());
        assert(all@.map_values(|a: BlogArticle| a@) + Seq::<BlogArticleV>::empty()
            =~= all@.map_values(|a: BlogArticle| a@));
        assert(errors@.map_values(|p: (String, String)| (p.0@, p.1@)) + Seq::<
            (Seq<char>, Seq<char>),
        >::empty() =~= errors@.map_values(|p: (String, String)| (p.0@, p.1@)));
    }
    // partition the flattened articles into the two bins, in arrival order
    let ghost flat = all@.map_values(|a: BlogArticle| a@);
    let mut eprint_bin: Vec<BlogArticle> = Vec::new();
    let mut other_bin: Vec<BlogArticle> = Vec::new();
    let total = all.len();
    let mut k: usize = 0;
    proof {
        assert(flat.skip(0) =~= flat);
        assert(eprint_bin@.map_values(|a: BlogArticle| a@) =~= Seq::<BlogArticleV>::empty());
        assert(other_bin@.map_values(|a: BlogArticle| a@) =~= Seq::<BlogArticleV>::empty());
    }
    while k < total
        invariant
            k <= total,
            total == all@.len(),
            flat == all@.map_values(|a: BlogArticle| a@),
            spec_select_bin(flat, true) == eprint_bin@.map_values(|a: BlogArticle| a@)
                + spec_select_bin(flat.skip(k as int), true),
            spec_select_bin(flat, false) == other_bin@.map_values(|a: BlogArticle| a@)
                + spec_select_bin(flat.skip(k as int), false),
        decreases total - k,
    {
        let ghost rest = flat.skip(k as int);
        proof {
            assert(rest[0] == flat[k as int]);
            assert(flat[k as int] == all@[k as int]@);
            assert(rest.skip(1) =~= flat.skip(k + 1));
        }
        let article = all[k].duplicate();
        if str_eq(article.blog_name.as_str(), "Eprint") {
            let ghost before = eprint_bin@.map_values(|a: BlogArticle| a@);
            eprint_bin.push(article);
            proof {
                assert(eprint_bin@.map_values(|a: BlogArticle| a@) =~= before.push(
                    flat[k as int],
                ));
                assert(before + (seq![flat[k as int]] + spec_select_bin(flat.skip(k + 1), true))
                    =~= before.push(flat[k as int]) + spec_select_bin(flat.skip(k + 1), true));
                assert(other_bin@.map_values(|a: BlogArticle| a@) + (Seq::<
                    BlogArticleV,
                >::empty() + spec_select_bin(flat.skip(k + 1), false)) =~= other_bin@.map_values(
                    |a: BlogArticle| a@,
                ) + spec_select_bin(flat.skip(k + 1), false));
            }
        } else {
            let ghost before = other_bin@.map_values(|a: BlogArticle| a@);
            other_bin.push(article);
            proof {
                assert(other_bin@.map_values(|a: BlogArticle| a@) =~= before.push(
                    flat[k as int],
                ));
                assert(before + (seq![flat[k as int]] + spec_select_bin(flat.skip(k + 1), false))
                    =~= before.push(flat[k as int]) + spec_select_bin(flat.skip(k + 1), false));
                assert(eprint_bin@.map_values(|a: BlogArticle| a@) + (Seq::<
                    BlogArticleV,
                >::empty() + spec_select_bin(flat.skip(k + 1), true)) =~= eprint_bin@.map_values(
                    |a: BlogArticle| a@,
                ) + spec_select_bin(flat.skip(k + 1), true));
            }
        }
        k = k + 1;
    }
    proof {
        assert(flat.skip(total as int) =~= Seq::<BlogArticleV>::empty());
        assert(eprint_bin@.map_values(|a: BlogArticle| a@) + Seq::<BlogArticleV>::empty()
            =~= eprint_bin@.map_values(|a: BlogArticle| a@));
        assert(other_bin@.map_values(|a: BlogArticle| a@) + Seq::<BlogArticleV>::empty()
            =~= other_bin@.map_values(|a: BlogArticle| a@));
    }
    let eprint_sorted = sort_articles_by_date(eprint_bin);
    let other_sorted = sort_articles_by_date(other_bin);
    (eprint_sorted, other_sorted, errors)
}

} // verus!
