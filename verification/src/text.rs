//! Character-level text helpers shared by the fetchers and utilities.
//!
//! All verified logic works on `Vec<char>`; the handful of Unicode questions
//! that std answers from its tables (case folding, whitespace, upper-case
//! classification) are reached through trusted wrappers.

use vstd::prelude::*;

verus! {

/// What `str::to_lowercase` returns: a function of the characters alone.
pub uninterp spec fn lower_of(s: Seq<char>) -> Seq<char>;

/// Whether `char::is_whitespace` holds: a function of the character alone.
pub uninterp spec fn whitespace_char(c: char) -> bool;

/// Whether `char::is_uppercase` holds: a function of the character alone.
pub uninterp spec fn uppercase_char(c: char) -> bool;

/// Relies on str::to_lowercase: the result depends on the characters alone;
/// an empty string stays empty.
#[verifier::external_body]
pub fn lowercase_str(s: &str) -> (r: String)
    ensures
        r@ == lower_of(s@),
        s@.len() == 0 ==> r@.len() == 0,
{
    s.to_lowercase()
}

/// Relies on char::is_whitespace: the answer depends on the character alone.
#[verifier::external_body]
pub fn is_whitespace_char(c: char) -> (r: bool)
    ensures
        r == whitespace_char(c),
{
    c.is_whitespace()
}

/// Relies on char::is_uppercase: the answer depends on the character alone.
#[verifier::external_body]
pub fn is_uppercase_char(c: char) -> (r: bool)
    ensures
        r == uppercase_char(c),
{
    c.is_uppercase()
}

/// Relies on String::push: appends exactly the given character.
#[verifier::external_body]
pub fn push_char(s: &mut String, c: char)
    ensures
        final(s)@ == old(s)@.push(c),
{
    s.push(c);
}

/// The characters of `s`, in order.
pub fn chars_of(s: &str) -> (r: Vec<char>)
    ensures
        r@ == s@,
{
    let n = s.unicode_len();
    let mut r: Vec<char> = Vec::new();
    let mut i: usize = 0;
    while i < n
        invariant
            i <= n,
            n == s@.len(),
            r@ == s@.subrange(0, i as int),
        decreases n - i,
    {
        r.push(s.get_char(i));
        proof {
            assert(r@ =~= s@.subrange(0, i + 1 as int));
        }
        i = i + 1;
    }
    proof {
        assert(r@ =~= s@);
    }
    r
}

/// A `String` holding exactly the characters of `v`.
pub fn string_from_chars(v: &Vec<char>) -> (r: String)
    ensures
        r@ == v@,
{
    let mut r = String::new();
    let mut i: usize = 0;
    while i < v.len()
        invariant
            i <= v@.len(),
            r@ == v@.subrange(0, i as int),
        decreases v@.len() - i,
    {
        push_char(&mut r, v[i]);
        proof {
            assert(r@ =~= v@.subrange(0, i + 1 as int));
        }
        i = i + 1;
    }
    proof {
        assert(r@ =~= v@);
    }
    r
}

/// The two strings hold the same characters.
pub fn str_eq(a: &str, b: &str) -> (r: bool)
    ensures
        r == (a@ == b@),
{
    let x: String = a.to_owned();
    let y: String = b.to_owned();
    x == y
}

/// `s` without its leading whitespace.
pub open spec fn spec_trim_start(s: Seq<char>) -> Seq<char>
    decreases s.len(),
{
    if s.len() == 0 {
        s
    } else if whitespace_char(s[0]) {
        spec_trim_start(s.skip(1))
    } else {
        s
    }
}

/// `s` without its trailing whitespace.
pub open spec fn spec_trim_end(s: Seq<char>) -> Seq<char>
    decreases s.len(),
{
    if s.len() == 0 {
        s
    } else if whitespace_char(s.last()) {
        spec_trim_end(s.drop_last())
    } else {
        s
    }
}

/// `s` without leading and trailing whitespace, as `str::trim` gives it.
pub open spec fn spec_trim(s: Seq<char>) -> Seq<char> {
    spec_trim_end(spec_trim_start(s))
}

/// The index of the first occurrence of `c` in `s`, if any.
pub open spec fn find_char(s: Seq<char>, c: char) -> Option<int>
    decreases s.len(),
{
    if s.len() == 0 {
        None
    } else if s[0] == c {
        Some(0)
    } else {
        match find_char(s.skip(1), c) {
            Some(i) => Some(i + 1),
            None => None,
        }
    }
}

/// A first occurrence at `i` makes `find_char` return `Some(i)`.
pub proof fn lemma_find_char_first(s: Seq<char>, c: char, i: int)
    requires
        0 <= i < s.len(),
        s[i] == c,
        forall|j: int| 0 <= j < i ==> s[j] != c,
    ensures
        find_char(s, c) == Some(i),
    decreases i,
{
    if i > 0 {
        assert forall|j: int| 0 <= j < i - 1 implies s.skip(1)[j] != c by {
            assert(s.skip(1)[j] == s[j + 1]);
        }
        assert(s.skip(1)[i - 1] == c);
        lemma_find_char_first(s.skip(1), c, i - 1);
    }
}

/// No occurrence makes `find_char` return `None`.
pub proof fn lemma_find_char_none(s: Seq<char>, c: char)
    requires
        forall|j: int| 0 <= j < s.len() ==> s[j] != c,
    ensures
        find_char(s, c) is None,
    decreases s.len(),
{
    if s.len() > 0 {
        assert forall|j: int| 0 <= j < s.skip(1).len() implies s.skip(1)[j] != c by {
            assert(s.skip(1)[j] == s[j + 1]);
        }
        lemma_find_char_none(s.skip(1), c);
    }
}

/// The first position of `c` in `v` at or after `start`, if any.
pub fn find_char_in(v: &Vec<char>, c: char, start: usize) -> (r: Option<usize>)
    requires
        start <= v@.len(),
    ensures
        match r {
            Some(i) => start <= i < v@.len() && find_char(v@.skip(start as int), c) == Some(
                i - start,
            ),
            None => find_char(v@.skip(start as int), c) is None,
        },
{
    let ghost tail = v@.skip(start as int);
    let mut i: usize = start;
    while i < v.len()
        invariant
            start <= i <= v@.len(),
            tail == v@.skip(start as int),
            forall|j: int| start <= j < i ==> v@[j] != c,
        decreases v@.len() - i,
    {
        if v[i] == c {
            proof {
                assert(tail[i - start] == c);
                assert forall|j: int| 0 <= j < i - start implies tail[j] != c by {
                    assert(tail[j] == v@[start + j]);
                }
                lemma_find_char_first(tail, c, i - start);
            }
            return Some(i);
        }
        i = i + 1;
    }
    proof {
        assert forall|j: int| 0 <= j < tail.len() implies tail[j] != c by {
            assert(tail[j] == v@[start + j]);
        }
        lemma_find_char_none(tail, c);
    }
    None
}

/// The characters of `v` from `a` (inclusive) to `b` (exclusive).
pub fn sub_chars(v: &Vec<char>, a: usize, b: usize) -> (r: Vec<char>)
    requires
        a <= b <= v@.len(),
    ensures
        r@ == v@.subrange(a as int, b as int),
{
    let mut r: Vec<char> = Vec::new();
    let mut i: usize = a;
    while i < b
        invariant
            a <= i <= b <= v@.len(),
            r@ == v@.subrange(a as int, i as int),
        decreases b - i,
    {
        r.push(v[i]);
        proof {
            assert(r@ =~= v@.subrange(a as int, i + 1 as int));
        }
        i = i + 1;
    }
    r
}

/// `v` without leading and trailing whitespace.
pub fn trim_chars(v: &Vec<char>) -> (r: Vec<char>)
    ensures
        r@ == spec_trim(v@),
{
    let n = v.len();
    let mut lo: usize = 0;
    proof {
        assert(v@.skip(0) =~= v@);
    }
    while lo < n && is_whitespace_char(v[lo])
        invariant
            lo <= n,
            n == v@.len(),
            spec_trim_start(v@) == spec_trim_start(v@.skip(lo as int)),
        decreases n - lo,
    {
        proof {
            assert(v@.skip(lo as int)[0] == v@[lo as int]);
            assert(v@.skip(lo as int).skip(1) =~= v@.skip(lo + 1));
        }
        lo = lo + 1;
    }
    let ghost t = v@.skip(lo as int);
    proof {
        if lo < n {
            assert(t[0] == v@[lo as int]);
            assert(!whitespace_char(t[0]));
        }
        assert(spec_trim_start(v@) == t);
        assert(t.take(t.len() as int) =~= t);
    }
    let mut hi: usize = n;
    while hi > lo && is_whitespace_char(v[hi - 1])
        invariant
            lo <= hi <= n,
            n == v@.len(),
            t == v@.skip(lo as int),
            spec_trim_end(t) == spec_trim_end(t.take(hi - lo as int)),
        decreases hi,
    {
        proof {
            let w = t.take(hi - lo as int);
            assert(w.last() == v@[hi - 1]);
            assert(w.drop_last() =~= t.take(hi - 1 - lo as int));
        }
        hi = hi - 1;
    }
    proof {
        let w = t.take(hi - lo as int);
        if hi > lo {
            assert(w.last() == v@[hi - 1]);
            assert(!whitespace_char(w.last()));
        }
        assert(spec_trim_end(t) == w);
        assert(w =~= v@.subrange(lo as int, hi as int));
    }
    sub_chars(v, lo, hi)
}

/// Replace every occurrence of `from` in `hay` by `to`, scanning left to
/// right over non-overlapping matches, as `str::replace` does. An empty
/// pattern changes nothing.
pub open spec fn spec_replace(hay: Seq<char>, from: Seq<char>, to: Seq<char>) -> Seq<char>
    decreases hay.len(),
{
    if from.len() == 0 || hay.len() < from.len() {
        hay
    } else if hay.take(from.len() as int) == from {
        to + spec_replace(hay.skip(from.len() as int), from, to)
    } else {
        seq![hay[0]] + spec_replace(hay.skip(1), from, to)
    }
}

/// The characters of `s` from `i` on start with `from`.
pub(crate) fn window_eq(s: &Vec<char>, i: usize, from: &Vec<char>) -> (r: bool)
    requires
        i + from@.len() <= s@.len(),
    ensures
        r == (s@.subrange(i as int, i + from@.len()) == from@),
{
    let n = s.len();
    let mut j: usize = 0;
    while j < from.len()
        invariant
            j <= from@.len(),
            n == s@.len(),
            i + from@.len() <= n,
            forall|k: int| 0 <= k < j ==> s@[i + k] == from@[k],
        decreases from@.len() - j,
    {
        if s[i + j] != from[j] {
            proof {
                assert(s@.subrange(i as int, i + from@.len())[j as int] != from@[j as int]);
            }
            return false;
        }
        j = j + 1;
    }
    proof {
        assert(s@.subrange(i as int, i + from@.len()) =~= from@);
    }
    true
}

/// `needle` occurs somewhere in `hay`, as `str::contains` decides it; an
/// empty needle occurs everywhere.
pub open spec fn spec_contains(hay: Seq<char>, needle: Seq<char>) -> bool {
    exists|i: int|
        0 <= i <= hay.len() - needle.len() && #[trigger] hay.subrange(i, i + needle.len())
            == needle
}

/// Whether `needle` occurs in `hay`.
pub fn contains_chars(hay: &Vec<char>, needle: &Vec<char>) -> (r: bool)
    ensures
        r == spec_contains(hay@, needle@),
{
    if needle.len() == 0 {
        proof {
            assert(hay@.subrange(0, 0 + needle@.len() as int) =~= needle@);
        }
        return true;
    }
    if needle.len() > hay.len() {
        return false;
    }
    let n = hay.len();
    let last = n - needle.len();
    let mut i: usize = 0;
    while i <= last
        invariant
            0 <= i <= last + 1,
            n == hay@.len(),
            needle@.len() > 0,
            last == hay@.len() - needle@.len(),
            forall|j: int|
                0 <= j < i ==> #[trigger] hay@.subrange(j, j + needle@.len()) != needle@,
        decreases last + 1 - i,
    {
        if window_eq(hay, i, needle) {
            return true;
        }
        i = i + 1;
    }
    false
}

/// `s` starts with `pre`.
pub open spec fn spec_starts_with(s: Seq<char>, pre: Seq<char>) -> bool {
    s.len() >= pre.len() && s.take(pre.len() as int) == pre
}

/// Whether `v` starts with `pre`.
pub fn starts_with_chars(v: &Vec<char>, pre: &Vec<char>) -> (r: bool)
    ensures
        r == spec_starts_with(v@, pre@),
{
    if pre.len() > v.len() {
        return false;
    }
    let r = window_eq(v, 0, pre);
    proof {
        assert(v@.take(pre@.len() as int) =~= v@.subrange(0, 0 + pre@.len() as int));
    }
    r
}

/// `s` without its leading repetitions of the character `c`.
pub open spec fn spec_trim_start_char(s: Seq<char>, c: char) -> Seq<char>
    decreases s.len(),
{
    if s.len() > 0 && s[0] == c {
        spec_trim_start_char(s.skip(1), c)
    } else {
        s
    }
}

/// `s` without its trailing repetitions of the character `c`.
pub open spec fn spec_trim_end_char(s: Seq<char>, c: char) -> Seq<char>
    decreases s.len(),
{
    if s.len() > 0 && s.last() == c {
        spec_trim_end_char(s.drop_last(), c)
    } else {
        s
    }
}

/// `v` without its leading repetitions of `c`.
pub fn trim_start_char_chars(v: &Vec<char>, c: char) -> (r: Vec<char>)
    ensures
        r@ == spec_trim_start_char(v@, c),
{
    let n = v.len();
    let mut lo: usize = 0;
    proof {
        assert(v@.skip(0) =~= v@);
    }
    while lo < n && v[lo] == c
        invariant
            lo <= n,
            n == v@.len(),
            spec_trim_start_char(v@, c) == spec_trim_start_char(v@.skip(lo as int), c),
        decreases n - lo,
    {
        proof {
            assert(v@.skip(lo as int)[0] == v@[lo as int]);
            assert(v@.skip(lo as int).skip(1) =~= v@.skip(lo + 1));
        }
        lo = lo + 1;
    }
    proof {
        if lo < n {
            assert(v@.skip(lo as int)[0] == v@[lo as int]);
        }
        assert(v@.skip(lo as int) =~= v@.subrange(lo as int, n as int));
    }
    sub_chars(v, lo, n)
}

/// `v` without its trailing repetitions of `c`.
pub fn trim_end_char_chars(v: &Vec<char>, c: char) -> (r: Vec<char>)
    ensures
        r@ == spec_trim_end_char(v@, c),
{
    let n = v.len();
    let mut hi: usize = n;
    proof {
        assert(v@.take(n as int) =~= v@);
    }
    while hi > 0 && v[hi - 1] == c
        invariant
            hi <= n,
            n == v@.len(),
            spec_trim_end_char(v@, c) == spec_trim_end_char(v@.take(hi as int), c),
        decreases hi,
    {
        proof {
            let w = v@.take(hi as int);
            assert(w.last() == v@[hi - 1]);
            assert(w.drop_last() =~= v@.take(hi - 1));
        }
        hi = hi - 1;
    }
    proof {
        let w = v@.take(hi as int);
        if hi > 0 {
            assert(w.last() == v@[hi - 1]);
        }
        assert(w =~= v@.subrange(0, hi as int));
    }
    sub_chars(v, 0, hi)
}

/// `s` ends with `suf`.
pub open spec fn spec_ends_with(s: Seq<char>, suf: Seq<char>) -> bool {
    s.len() >= suf.len() && s.skip(s.len() - suf.len()) == suf
}

/// Whether `v` ends with `suf`.
pub fn ends_with_chars(v: &Vec<char>, suf: &Vec<char>) -> (r: bool)
    ensures
        r == spec_ends_with(v@, suf@),
{
    if suf.len() > v.len() {
        return false;
    }
    let r = window_eq(v, v.len() - suf.len(), suf);
    proof {
        assert(v@.skip(v@.len() - suf@.len()) =~= v@.subrange(
            v@.len() - suf@.len(),
            v@.len() as int,
        ));
    }
    r
}

/// The parts joined with `sep` between consecutive parts.
pub open spec fn spec_join(parts: Seq<Seq<char>>, sep: Seq<char>) -> Seq<char>
    decreases parts.len(),
{
    if parts.len() == 0 {
        Seq::empty()
    } else if parts.len() == 1 {
        parts[0]
    } else {
        parts[0] + sep + spec_join(parts.skip(1), sep)
    }
}

/// Appending one part extends the join by a separator and that part.
pub proof fn lemma_join_push(parts: Seq<Seq<char>>, x: Seq<char>, sep: Seq<char>)
    ensures
        spec_join(parts.push(x), sep) == if parts.len() == 0 {
            x
        } else {
            spec_join(parts, sep) + sep + x
        },
    decreases parts.len(),
{
    if parts.len() == 0 {
        assert(parts.push(x)[0] == x);
    } else {
        lemma_join_push(parts.skip(1), x, sep);
        assert(parts.push(x).skip(1) =~= parts.skip(1).push(x));
        assert(parts.push(x)[0] == parts[0]);
        if parts.len() == 1 {
            assert(parts.skip(1).len() == 0);
            assert(spec_join(parts.push(x), sep) == parts[0] + sep + x);
        } else {
            assert((parts[0] + sep) + (spec_join(parts.skip(1), sep) + sep + x) =~= ((parts[0]
                + sep) + spec_join(parts.skip(1), sep)) + sep + x);
        }
    }
}

/// The first `upto` parts joined with `sep`.
pub fn join_strings(parts: &Vec<String>, upto: usize, sep: &str) -> (r: String)
    requires
        upto <= parts@.len(),
    ensures
        r@ == spec_join(parts.deep_view().take(upto as int), sep@),
{
    let mut r = String::new();
    let mut i: usize = 0;
    proof {
        assert(spec_join(parts.deep_view().take(0), sep@) =~= Seq::<char>::empty());
    }
    while i < upto
        invariant
            i <= upto <= parts@.len(),
            r@ == spec_join(parts.deep_view().take(i as int), sep@),
        decreases upto - i,
    {
        let ghost taken = parts.deep_view().take(i as int);
        if i == 0 {
            r = parts[0].clone();
            proof {
                assert(parts.deep_view().take(1) =~= seq![parts.deep_view()[0]]);
                assert(parts.deep_view()[0] == parts@[0]@);
            }
        } else {
            r = r.concat(sep).concat(parts[i].as_str());
            proof {
                assert(parts.deep_view().take(i + 1) =~= taken.push(
                    parts.deep_view()[i as int],
                ));
                lemma_join_push(taken, parts.deep_view()[i as int], sep@);
                assert(parts.deep_view()[i as int] == parts@[i as int]@);
            }
        }
        i = i + 1;
    }
    r
}

/// `s` with every trailing repetition of `suf` removed, as
/// `str::trim_end_matches` gives it for a non-empty pattern.
pub open spec fn spec_trim_end_matches(s: Seq<char>, suf: Seq<char>) -> Seq<char>
    decreases s.len(),
{
    if suf.len() > 0 && s.len() >= suf.len() && s.skip(s.len() - suf.len()) == suf {
        spec_trim_end_matches(s.take(s.len() - suf.len()), suf)
    } else {
        s
    }
}

/// `v` with every trailing repetition of `suf` removed.
pub fn trim_end_matches_chars(v: Vec<char>, suf: &Vec<char>) -> (r: Vec<char>)
    requires
        suf@.len() > 0,
    ensures
        r@ == spec_trim_end_matches(v@, suf@),
{
    let mut v = v;
    let ghost orig = v@;
    while v.len() >= suf.len() && window_eq(&v, v.len() - suf.len(), suf)
        invariant
            suf@.len() > 0,
            spec_trim_end_matches(v@, suf@) == spec_trim_end_matches(orig, suf@),
        decreases v@.len(),
    {
        let ghost prev = v@;
        proof {
            assert(prev.skip(prev.len() - suf@.len()) =~= prev.subrange(
                prev.len() - suf@.len(),
                prev.len() as int,
            ));
        }
        let k = v.len() - suf.len();
        v = sub_chars(&v, 0, k);
        proof {
            assert(v@ =~= prev.take(prev.len() - suf@.len()));
        }
    }
    proof {
        if v@.len() >= suf@.len() {
            assert(v@.skip(v@.len() - suf@.len()) =~= v@.subrange(
                v@.len() - suf@.len(),
                v@.len() as int,
            ));
        }
    }
    v
}

/// `hay` with every occurrence of `from` replaced by `to`.
pub fn replace_chars(hay: &Vec<char>, from: &Vec<char>, to: &Vec<char>) -> (r: Vec<char>)
    requires
        from@.len() > 0,
    ensures
        r@ == spec_replace(hay@, from@, to@),
{
    let mut r: Vec<char> = Vec::new();
    let mut i: usize = 0;
    proof {
        assert(hay@.skip(0) =~= hay@);
        assert(Seq::<char>::empty() + spec_replace(hay@, from@, to@) =~= spec_replace(
            hay@,
            from@,
            to@,
        ));
    }
    while i < hay.len()
        invariant
            i <= hay@.len(),
            from@.len() > 0,
            spec_replace(hay@, from@, to@) == r@ + spec_replace(
                hay@.skip(i as int),
                from@,
                to@,
            ),
        decreases hay@.len() - i,
    {
        let ghost rest = hay@.skip(i as int);
        if hay.len() - i >= from.len() && window_eq(hay, i, from) {
            proof {
                assert(rest.take(from@.len() as int) =~= hay@.subrange(
                    i as int,
                    i + from@.len(),
                ));
                assert(rest.skip(from@.len() as int) =~= hay@.skip(i + from@.len()));
            }
            let ghost r0 = r@;
            let mut j: usize = 0;
            while j < to.len()
                invariant
                    j <= to@.len(),
                    r@ == r0 + to@.subrange(0, j as int),
                decreases to@.len() - j,
            {
                r.push(to[j]);
                proof {
                    assert(r0 + to@.subrange(0, j + 1 as int) =~= (r0 + to@.subrange(
                        0,
                        j as int,
                    )).push(to@[j as int]));
                }
                j = j + 1;
            }
            proof {
                assert(to@.subrange(0, to@.len() as int) =~= to@);
                assert((r0 + to@) + spec_replace(hay@.skip(i + from@.len()), from@, to@) =~= r0
                    + (to@ + spec_replace(hay@.skip(i + from@.len()), from@, to@)));
            }
            i = i + from.len();
        } else {
            proof {
                if rest.len() >= from@.len() {
                    assert(rest.take(from@.len() as int) =~= hay@.subrange(
                        i as int,
                        i + from@.len(),
                    ));
                }
                assert(rest.skip(1) =~= hay@.skip(i + 1));
                if rest.len() < from@.len() {
                    assert(spec_replace(rest, from@, to@) == rest);
                    assert(spec_replace(hay@.skip(i + 1), from@, to@) == hay@.skip(i + 1));
                    assert(rest =~= seq![hay@[i as int]] + hay@.skip(i + 1));
                }
                assert((r@ + seq![hay@[i as int]]) + spec_replace(hay@.skip(i + 1), from@, to@)
                    =~= r@ + (seq![hay@[i as int]] + spec_replace(hay@.skip(i + 1), from@, to@)));
                assert(r@ + seq![hay@[i as int]] =~= r@.push(hay@[i as int]));
            }
            r.push(hay[i]);
            i = i + 1;
        }
    }
    proof {
        assert(hay@.skip(i as int) =~= Seq::<char>::empty());
        assert(r@ + Seq::<char>::empty() =~= r@);
    }
    r
}

} // verus!
