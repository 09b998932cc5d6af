//! Last-match lookup over a sequence of records.
//!
//! The stores keep their records in insertion order and resolve a key to the
//! most recently inserted record that matches it, so a later writer wins
//! over an earlier one. `find_last` is that resolution at the
//! specification level; the lemmas here relate it to the prefixes an
//! executable backward scan walks through and to the filtered sequences
//! that insertion and removal produce.

use vstd::prelude::*;

verus! {

/// The last element of `s` satisfying `p`, if any.
pub open spec fn find_last<T>(s: Seq<T>, p: spec_fn(T) -> bool) -> Option<T>
    decreases s.len(),
{
    if s.len() == 0 {
        None
    } else if p(s.last()) {
        Some(s.last())
    } else {
        find_last(s.drop_last(), p)
    }
}

/// A scan that has ruled out index `i` may shorten the prefix it still
/// has to search.
pub proof fn lemma_find_last_take_step<T>(s: Seq<T>, p: spec_fn(T) -> bool, i: int)
    requires
        0 <= i < s.len(),
        !p(s[i]),
    ensures
        find_last(s.take(i + 1), p) == find_last(s.take(i), p),
{
    assert(s.take(i + 1).drop_last() =~= s.take(i));
    assert(s.take(i + 1).last() == s[i]);
}

/// A scan that finds a match at index `i`, having ruled out everything
/// after it, is done.
pub proof fn lemma_find_last_take_found<T>(s: Seq<T>, p: spec_fn(T) -> bool, i: int)
    requires
        0 <= i < s.len(),
        p(s[i]),
    ensures
        find_last(s.take(i + 1), p) == Some(s[i]),
{
    assert(s.take(i + 1).last() == s[i]);
}

/// What `find_last` returns is an element of the sequence and satisfies
/// the predicate.
pub proof fn lemma_find_last_some<T>(s: Seq<T>, p: spec_fn(T) -> bool, v: T)
    requires
        find_last(s, p) == Some(v),
    ensures
        s.contains(v),
        p(v),
    decreases s.len(),
{
    if s.len() > 0 {
        if p(s.last()) {
        } else {
            lemma_find_last_some(s.drop_last(), p, v);
            let i = choose|i: int| 0 <= i < s.drop_last().len() && s.drop_last()[i] == v;
            assert(s[i] == v);
        }
    }
}

/// `find_last` misses exactly when no element matches.
pub proof fn lemma_find_last_none<T>(s: Seq<T>, p: spec_fn(T) -> bool)
    ensures
        find_last(s, p) is None <==> (forall|i: int| 0 <= i < s.len() ==> !p(s[i])),
    decreases s.len(),
{
    if s.len() > 0 {
        lemma_find_last_none(s.drop_last(), p);
        assert(forall|i: int| 0 <= i < s.len() - 1 ==> s.drop_last()[i] == s[i]);
        assert(s.last() == s[s.len() - 1]);
    }
}

/// Appending a record either answers every lookup it matches or leaves
/// the lookup as it was.
pub proof fn lemma_find_last_push<T>(s: Seq<T>, p: spec_fn(T) -> bool, x: T)
    ensures
        find_last(s.push(x), p) == if p(x) {
            Some(x)
        } else {
            find_last(s, p)
        },
{
    assert(s.push(x).drop_last() =~= s);
    assert(s.push(x).last() == x);
}

/// Appending a record extends the filtered sequence exactly when the
/// record passes the filter.
pub proof fn lemma_filter_push<T>(s: Seq<T>, q: spec_fn(T) -> bool, x: T)
    ensures
        s.push(x).filter(q) == if q(x) {
            s.filter(q).push(x)
        } else {
            s.filter(q)
        },
{
    reveal(Seq::filter);
    assert(s.push(x).drop_last() =~= s);
    assert(s.push(x).last() == x);
}

/// No two records of `s` share a key.
pub open spec fn distinct_by<T, K>(s: Seq<T>, key: spec_fn(T) -> K) -> bool {
    forall|i: int, j: int|
        0 <= i < s.len() && 0 <= j < s.len() && i != j ==> key(#[trigger] s[i]) != key(
            #[trigger] s[j],
        )
}

/// A filtered sequence holds only records of the original that pass the
/// filter.
pub proof fn lemma_filter_subset<T>(s: Seq<T>, q: spec_fn(T) -> bool)
    ensures
        forall|x: T| #[trigger] s.filter(q).contains(x) ==> s.contains(x) && q(x),
    decreases s.len(),
{
    reveal(Seq::filter);
    if s.len() > 0 {
        lemma_filter_subset(s.drop_last(), q);
        assert forall|x: T| #[trigger] s.filter(q).contains(x) implies s.contains(x) && q(x) by {
            let f = s.drop_last().filter(q);
            if q(s.last()) {
                if x == s.last() {
                    assert(s[s.len() - 1] == x);
                } else {
                    let i = choose|i: int| 0 <= i < f.push(s.last()).len() && f.push(s.last())[i]
                        == x;
                    assert(f[i] == x);
                    assert(f.contains(x));
                    let j = choose|j: int|
                        0 <= j < s.drop_last().len() && s.drop_last()[j] == x;
                    assert(s[j] == x);
                }
            } else {
                let j = choose|j: int| 0 <= j < s.drop_last().len() && s.drop_last()[j] == x;
                assert(s[j] == x);
            }
        }
    }
}

/// Filtering keeps keys distinct.
pub proof fn lemma_filter_distinct_by<T, K>(s: Seq<T>, q: spec_fn(T) -> bool, key: spec_fn(T) -> K)
    requires
        distinct_by(s, key),
    ensures
        distinct_by(s.filter(q), key),
    decreases s.len(),
{
    reveal(Seq::filter);
    if s.len() > 0 {
        assert(forall|i: int|
            0 <= i < s.drop_last().len() ==> #[trigger] s.drop_last()[i] == s[i]);
        lemma_filter_distinct_by(s.drop_last(), q, key);
        if q(s.last()) {
            let f = s.drop_last().filter(q);
            lemma_filter_subset(s.drop_last(), q);
            assert forall|i: int, j: int|
                0 <= i < f.push(s.last()).len() && 0 <= j < f.push(s.last()).len() && i
                    != j implies key(#[trigger] f.push(s.last())[i]) != key(
                #[trigger] f.push(s.last())[j],
            ) by {
                if i < f.len() && j < f.len() {
                } else {
                    let k = if i < f.len() {
                        i
                    } else {
                        j
                    };
                    assert(f.push(s.last())[k] == f[k]);
                    assert(f.contains(f[k]));
                    let m = choose|m: int|
                        0 <= m < s.drop_last().len() && s.drop_last()[m] == f[k];
                    assert(s[m] == f[k]);
                    assert(s[s.len() - 1] == s.last());
                }
            }
        }
    }
}

/// A record whose key no filtered record shares may be appended without
/// losing distinctness.
pub proof fn lemma_push_distinct_by<T, K>(s: Seq<T>, x: T, key: spec_fn(T) -> K)
    requires
        distinct_by(s, key),
        forall|i: int| 0 <= i < s.len() ==> key(#[trigger] s[i]) != key(x),
    ensures
        distinct_by(s.push(x), key),
{
    assert forall|i: int, j: int|
        0 <= i < s.push(x).len() && 0 <= j < s.push(x).len() && i != j implies key(
        #[trigger] s.push(x)[i],
    ) != key(#[trigger] s.push(x)[j]) by {
        if i < s.len() && j < s.len() {
        } else {
            let k = if i < s.len() {
                i
            } else {
                j
            };
            assert(s.push(x)[k] == s[k]);
        }
    }
}

/// A lookup's answer survives a filter that keeps it: no record the lookup
/// prefers stands behind it, and filtering drops none in front of it.
pub proof fn lemma_find_last_filter_keep<T>(
    s: Seq<T>,
    p: spec_fn(T) -> bool,
    q: spec_fn(T) -> bool,
    v: T,
)
    requires
        find_last(s, p) == Some(v),
        q(v),
    ensures
        find_last(s.filter(q), p) == Some(v),
    decreases s.len(),
{
    reveal(Seq::filter);
    if s.len() > 0 {
        let f = s.drop_last().filter(q);
        if p(s.last()) {
            lemma_find_last_push(f, p, s.last());
        } else {
            lemma_find_last_filter_keep(s.drop_last(), p, q, v);
            if q(s.last()) {
                lemma_find_last_push(f, p, s.last());
            }
        }
    }
}

/// A filter that every record passes keeps the sequence as it was.
pub proof fn lemma_filter_retains_all<T>(s: Seq<T>, q: spec_fn(T) -> bool)
    requires
        forall|i: int| 0 <= i < s.len() ==> q(#[trigger] s[i]),
    ensures
        s.filter(q) == s,
    decreases s.len(),
{
    reveal(Seq::filter);
    if s.len() > 0 {
        assert(forall|i: int|
            0 <= i < s.drop_last().len() ==> #[trigger] s.drop_last()[i] == s[i]);
        lemma_filter_retains_all(s.drop_last(), q);
        assert(q(s[s.len() - 1]));
        assert(s.drop_last().push(s.last()) =~= s);
    }
}

/// After all records a lookup could match are filtered away, it misses.
pub proof fn lemma_find_last_filter_excluded<T>(
    s: Seq<T>,
    p: spec_fn(T) -> bool,
    q: spec_fn(T) -> bool,
)
    requires
        forall|x: T| #[trigger] p(x) ==> !q(x),
    ensures
        find_last(s.filter(q), p) is None,
{
    broadcast use vstd::seq_lib::group_filter_ensures;

    lemma_find_last_none(s.filter(q), p);
}

} // verus!
