//! General facts about filtering and selecting from sequences.
//!
//! `matches_desc` selects, newest entry first, the elements of a sequence
//! that satisfy a predicate; the lemmas here relate it and `Seq::filter` to
//! membership, pairwise properties and ordering. The repository's contracts
//! are stated with these functions.

use vstd::prelude::*;

verus! {

/// The elements of `s` that satisfy `pred`, in reverse order of their
/// position in `s`: the last matching element of `s` comes first.
pub open spec fn matches_desc<A>(s: Seq<A>, pred: spec_fn(A) -> bool) -> Seq<A>
    decreases s.len(),
{
    if s.len() == 0 {
        Seq::empty()
    } else if pred(s.last()) {
        seq![s.last()] + matches_desc(s.drop_last(), pred)
    } else {
        matches_desc(s.drop_last(), pred)
    }
}

/// Appending one element extends a filter by that element exactly when the
/// element satisfies the predicate.
pub proof fn lemma_filter_push<A>(s: Seq<A>, pred: spec_fn(A) -> bool, x: A)
    ensures
        s.push(x).filter(pred) == if pred(x) {
            s.filter(pred).push(x)
        } else {
            s.filter(pred)
        },
{
    reveal(Seq::filter);
    assert(s.push(x).drop_last() =~= s);
}

/// A filter over a sequence without a matching element is empty.
pub proof fn lemma_filter_no_match<A>(s: Seq<A>, pred: spec_fn(A) -> bool)
    requires
        forall|i: int| 0 <= i < s.len() ==> !pred(#[trigger] s[i]),
    ensures
        s.filter(pred) == Seq::<A>::empty(),
    decreases s.len(),
{
    reveal(Seq::filter);
    if s.len() == 0 {
        assert(s.filter(pred) =~= Seq::<A>::empty());
    } else {
        lemma_filter_no_match(s.drop_last(), pred);
    }
}

/// Every element of a filter satisfies the predicate and occurs in the
/// sequence; every matching element of the sequence occurs in the filter.
pub proof fn lemma_filter_props<A>(s: Seq<A>, pred: spec_fn(A) -> bool)
    ensures
        forall|k: int|
            0 <= k < s.filter(pred).len() ==> pred(#[trigger] s.filter(pred)[k]) && s.contains(
                s.filter(pred)[k],
            ),
        forall|i: int| 0 <= i < s.len() && pred(#[trigger] s[i]) ==> s.filter(pred).contains(s[i]),
    decreases s.len(),
{
    reveal(Seq::filter);
    if s.len() > 0 {
        let dl = s.drop_last();
        lemma_filter_props(dl, pred);
        assert forall|k: int| 0 <= k < dl.len() implies s.contains(dl[k]) by {
            assert(s[k] == dl[k]);
        }
        assert forall|k: int|
            0 <= k < s.filter(pred).len() implies pred(#[trigger] s.filter(pred)[k])
            && s.contains(s.filter(pred)[k]) by {
            if k < dl.filter(pred).len() {
                assert(dl.contains(dl.filter(pred)[k]));
                let w = choose|j: int| 0 <= j < dl.len() && dl[j] == dl.filter(pred)[k];
                assert(s[w] == dl.filter(pred)[k]);
            } else {
                assert(s.filter(pred)[k] == s.last());
                assert(s[s.len() - 1] == s.last());
            }
        }
        assert forall|i: int|
            0 <= i < s.len() && pred(#[trigger] s[i]) implies s.filter(pred).contains(s[i]) by {
            if i < s.len() - 1 {
                assert(dl[i] == s[i]);
                assert(dl.filter(pred).contains(s[i]));
                let w = choose|j: int| 0 <= j < dl.filter(pred).len() && dl.filter(pred)[j] == s[i];
                if pred(s.last()) {
                    assert(s.filter(pred)[w] == s[i]);
                } else {
                    assert(s.filter(pred)[w] == s[i]);
                }
            } else {
                assert(s.filter(pred).last() == s[i]);
            }
        }
    }
}

/// A filter keeps every property that held of each pair of elements, in
/// their order of appearance.
pub proof fn lemma_filter_pairwise<A>(s: Seq<A>, pred: spec_fn(A) -> bool, r: spec_fn(A, A) -> bool)
    requires
        forall|i: int, j: int| 0 <= i < j < s.len() ==> r(#[trigger] s[i], #[trigger] s[j]),
    ensures
        forall|a: int, b: int|
            0 <= a < b < s.filter(pred).len() ==> r(
                #[trigger] s.filter(pred)[a],
                #[trigger] s.filter(pred)[b],
            ),
    decreases s.len(),
{
    reveal(Seq::filter);
    if s.len() > 0 {
        let dl = s.drop_last();
        assert forall|i: int, j: int| 0 <= i < j < dl.len() implies r(
            #[trigger] dl[i],
            #[trigger] dl[j],
        ) by {
            assert(s[i] == dl[i] && s[j] == dl[j]);
        }
        lemma_filter_pairwise(dl, pred, r);
        lemma_filter_props(dl, pred);
        assert forall|a: int, b: int| 0 <= a < b < s.filter(pred).len() implies r(
            #[trigger] s.filter(pred)[a],
            #[trigger] s.filter(pred)[b],
        ) by {
            if pred(s.last()) && b == s.filter(pred).len() - 1 {
                assert(s.filter(pred)[b] == s.last());
                assert(s.filter(pred)[a] == dl.filter(pred)[a]);
                assert(dl.contains(dl.filter(pred)[a]));
                let w = choose|j: int| 0 <= j < dl.len() && dl[j] == dl.filter(pred)[a];
                assert(s[w] == s.filter(pred)[a]);
                assert(s.last() == s[s.len() - 1]);
            } else {
                assert(s.filter(pred)[a] == dl.filter(pred)[a]);
                assert(s.filter(pred)[b] == dl.filter(pred)[b]);
            }
        }
    }
}

/// Where no two distinct elements both match, a filter keeps at most one
/// element.
pub proof fn lemma_filter_at_most_one<A>(s: Seq<A>, pred: spec_fn(A) -> bool)
    requires
        forall|i: int, j: int|
            0 <= i < j < s.len() ==> !(pred(#[trigger] s[i]) && pred(#[trigger] s[j])),
    ensures
        s.filter(pred).len() <= 1,
    decreases s.len(),
{
    reveal(Seq::filter);
    if s.len() > 0 {
        let dl = s.drop_last();
        assert forall|i: int, j: int| 0 <= i < j < dl.len() implies !(pred(#[trigger] dl[i])
            && pred(#[trigger] dl[j])) by {
            assert(s[i] == dl[i] && s[j] == dl[j]);
        }
        lemma_filter_at_most_one(dl, pred);
        if pred(s.last()) {
            lemma_filter_props(dl, pred);
            if dl.filter(pred).len() > 0 {
                assert(dl.contains(dl.filter(pred)[0]));
                let w = choose|j: int| 0 <= j < dl.len() && dl[j] == dl.filter(pred)[0];
                assert(pred(s[w]) && pred(s[s.len() - 1]));
                assert(false);
            }
        }
    }
}

/// Two sequences that agree on which elements match, and on the matching
/// elements themselves, have the same filter.
pub proof fn lemma_filter_congruent<A>(a: Seq<A>, b: Seq<A>, pred: spec_fn(A) -> bool)
    requires
        a.len() == b.len(),
        forall|i: int|
            0 <= i < a.len() ==> pred(#[trigger] a[i]) == pred(#[trigger] b[i]) && (pred(a[i])
                ==> a[i] == b[i]),
    ensures
        a.filter(pred) == b.filter(pred),
    decreases a.len(),
{
    reveal(Seq::filter);
    if a.len() == 0 {
        assert(a.filter(pred) =~= b.filter(pred));
    } else {
        let da = a.drop_last();
        let db = b.drop_last();
        assert forall|i: int| 0 <= i < da.len() implies pred(#[trigger] da[i]) == pred(
            #[trigger] db[i],
        ) && (pred(da[i]) ==> da[i] == db[i]) by {
            assert(a[i] == da[i] && b[i] == db[i]);
        }
        lemma_filter_congruent(da, db, pred);
        assert(a.last() == a[a.len() - 1] && b.last() == b[b.len() - 1]);
    }
}

/// Every element selected by `matches_desc` satisfies the predicate and
/// occurs in the sequence, and every matching element is selected.
pub proof fn lemma_matches_desc_props<A>(s: Seq<A>, pred: spec_fn(A) -> bool)
    ensures
        forall|k: int|
            0 <= k < matches_desc(s, pred).len() ==> pred(#[trigger] matches_desc(s, pred)[k])
                && s.contains(matches_desc(s, pred)[k]),
        forall|i: int|
            0 <= i < s.len() && pred(#[trigger] s[i]) ==> matches_desc(s, pred).contains(s[i]),
    decreases s.len(),
{
    if s.len() > 0 {
        let dl = s.drop_last();
        let md = matches_desc(s, pred);
        let mdl = matches_desc(dl, pred);
        lemma_matches_desc_props(dl, pred);
        assert forall|k: int| 0 <= k < dl.len() implies s.contains(dl[k]) by {
            assert(s[k] == dl[k]);
        }
        assert forall|k: int| 0 <= k < md.len() implies pred(#[trigger] md[k]) && s.contains(
            md[k],
        ) by {
            if pred(s.last()) {
                if k == 0 {
                    assert(md[k] == s.last());
                    assert(s[s.len() - 1] == s.last());
                } else {
                    assert(md[k] == mdl[k - 1]);
                    assert(dl.contains(mdl[k - 1]));
                    let w = choose|j: int| 0 <= j < dl.len() && dl[j] == mdl[k - 1];
                    assert(s[w] == md[k]);
                }
            } else {
                assert(md[k] == mdl[k]);
                assert(dl.contains(mdl[k]));
                let w = choose|j: int| 0 <= j < dl.len() && dl[j] == mdl[k];
                assert(s[w] == md[k]);
            }
        }
        assert forall|i: int| 0 <= i < s.len() && pred(#[trigger] s[i]) implies md.contains(
            s[i],
        ) by {
            if i < s.len() - 1 {
                assert(dl[i] == s[i]);
                assert(mdl.contains(s[i]));
                let w = choose|j: int| 0 <= j < mdl.len() && mdl[j] == s[i];
                if pred(s.last()) {
                    assert(md[w + 1] == s[i]);
                } else {
                    assert(md[w] == s[i]);
                }
            } else {
                assert(md[0] == s[i]);
            }
        }
    }
}

/// Over a sequence whose rank strictly increases, the selection comes out in
/// strictly decreasing rank, bounded by the rank of the last element.
pub proof fn lemma_matches_desc_sorted<A>(s: Seq<A>, pred: spec_fn(A) -> bool, rank: spec_fn(A) -> int)
    requires
        forall|i: int, j: int| 0 <= i < j < s.len() ==> rank(#[trigger] s[i]) < rank(#[trigger] s[j]),
    ensures
        forall|a: int, b: int|
            0 <= a < b < matches_desc(s, pred).len() ==> rank(#[trigger] matches_desc(s, pred)[a])
                > rank(#[trigger] matches_desc(s, pred)[b]),
        s.len() > 0 ==> forall|k: int|
            0 <= k < matches_desc(s, pred).len() ==> rank(#[trigger] matches_desc(s, pred)[k])
                <= rank(s.last()),
    decreases s.len(),
{
    if s.len() > 0 {
        let dl = s.drop_last();
        let md = matches_desc(s, pred);
        let mdl = matches_desc(dl, pred);
        assert forall|i: int, j: int| 0 <= i < j < dl.len() implies rank(#[trigger] dl[i]) < rank(
            #[trigger] dl[j],
        ) by {
            assert(s[i] == dl[i] && s[j] == dl[j]);
        }
        lemma_matches_desc_sorted(dl, pred, rank);
        lemma_matches_desc_props(dl, pred);
        assert forall|k: int| 0 <= k < mdl.len() implies rank(#[trigger] mdl[k]) < rank(
            s.last(),
        ) by {
            assert(dl.contains(mdl[k]));
            let w = choose|j: int| 0 <= j < dl.len() && dl[j] == mdl[k];
            assert(s[w] == mdl[k]);
            assert(s.last() == s[s.len() - 1]);
        }
        if pred(s.last()) {
            assert(md[0] == s.last());
            assert forall|a: int, b: int| 0 <= a < b < md.len() implies rank(#[trigger] md[a])
                > rank(#[trigger] md[b]) by {
                if a == 0 {
                    assert(md[b] == mdl[b - 1]);
                } else {
                    assert(md[a] == mdl[a - 1] && md[b] == mdl[b - 1]);
                }
            }
        }
    }
}

/// Where no two distinct elements both match, at most one is selected.
pub proof fn lemma_matches_desc_at_most_one<A>(s: Seq<A>, pred: spec_fn(A) -> bool)
    requires
        forall|i: int, j: int|
            0 <= i < j < s.len() ==> !(pred(#[trigger] s[i]) && pred(#[trigger] s[j])),
    ensures
        matches_desc(s, pred).len() <= 1,
    decreases s.len(),
{
    if s.len() > 0 {
        let dl = s.drop_last();
        assert forall|i: int, j: int| 0 <= i < j < dl.len() implies !(pred(#[trigger] dl[i])
            && pred(#[trigger] dl[j])) by {
            assert(s[i] == dl[i] && s[j] == dl[j]);
        }
        lemma_matches_desc_at_most_one(dl, pred);
        if pred(s.last()) {
            lemma_matches_desc_props(dl, pred);
            let mdl = matches_desc(dl, pred);
            if mdl.len() > 0 {
                assert(dl.contains(mdl[0]));
                let w = choose|j: int| 0 <= j < dl.len() && dl[j] == mdl[0];
                assert(pred(s[w]) && pred(s[s.len() - 1]));
                assert(false);
            }
        }
    }
}

} // verus!
