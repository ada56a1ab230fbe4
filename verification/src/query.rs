//! Canonical query strings: query parameters are sorted before they are
//! embedded in the signed URL, so any supply order yields the same
//! signature.

use vstd::prelude::*;
use vstd::relations::{sorted_by, total_ordering};
use vstd::seq_lib::lemma_sorted_unique;

use crate::model::pairs_view;
use crate::strings::{
    lemma_lex_lt_trans, lemma_lex_trichotomy, lex_lt, push_char, str_compare,
};

verus! {

broadcast use vstd::seq_lib::group_to_multiset_ensures;

/// The order query parameters are canonicalized by: ascending by key,
/// byte-wise, with the value breaking ties.
pub open spec fn qp_le(a: (Seq<char>, Seq<char>), b: (Seq<char>, Seq<char>)) -> bool {
    lex_lt(a.0, b.0) || (a.0 == b.0 && (lex_lt(a.1, b.1) || a.1 == b.1))
}

/// `qp_le` as a relation value, for `sorted_by`.
pub open spec fn qp_leq() -> spec_fn((Seq<char>, Seq<char>), (Seq<char>, Seq<char>)) -> bool {
    |a: (Seq<char>, Seq<char>), b: (Seq<char>, Seq<char>)| qp_le(a, b)
}

/// Any two parameter pairs are ordered one way or the other.
pub proof fn lemma_qp_le_total(a: (Seq<char>, Seq<char>), b: (Seq<char>, Seq<char>))
    ensures
        qp_le(a, b) || qp_le(b, a),
        qp_le(a, b) && qp_le(b, a) ==> a == b,
{
    lemma_lex_trichotomy(a.0, b.0);
    lemma_lex_trichotomy(a.1, b.1);
}

/// The canonicalization order is transitive.
pub proof fn lemma_qp_le_trans(
    a: (Seq<char>, Seq<char>),
    b: (Seq<char>, Seq<char>),
    c: (Seq<char>, Seq<char>),
)
    requires
        qp_le(a, b),
        qp_le(b, c),
    ensures
        qp_le(a, c),
{
    if lex_lt(a.0, b.0) && lex_lt(b.0, c.0) {
        lemma_lex_lt_trans(a.0, b.0, c.0);
    }
    if a.0 == b.0 && b.0 == c.0 && lex_lt(a.1, b.1) && lex_lt(b.1, c.1) {
        lemma_lex_lt_trans(a.1, b.1, c.1);
    }
}

/// The canonicalization order is a total ordering.
pub proof fn lemma_qp_total_ordering()
    ensures
        total_ordering(qp_leq()),
{
    let leq = qp_leq();
    assert forall|a: (Seq<char>, Seq<char>)| #[trigger] leq(a, a) by {
        lemma_qp_le_total(a, a);
    }
    assert forall|a: (Seq<char>, Seq<char>), b: (Seq<char>, Seq<char>)|
        #[trigger] leq(a, b) && #[trigger] leq(b, a) implies a == b by {
        lemma_qp_le_total(a, b);
    }
    assert forall|a: (Seq<char>, Seq<char>), b: (Seq<char>, Seq<char>), c: (Seq<char>, Seq<char>)|
        #[trigger] leq(a, b) && #[trigger] leq(b, c) implies leq(a, c) by {
        lemma_qp_le_trans(a, b, c);
    }
    assert forall|a: (Seq<char>, Seq<char>), b: (Seq<char>, Seq<char>)|
        #[trigger] leq(a, b) || #[trigger] leq(b, a) by {
        lemma_qp_le_total(a, b);
    }
}

/// Executable comparison in the canonicalization order.
fn pair_le(a: &(String, String), b: &(String, String)) -> (r: bool)
    ensures
        r == qp_le((a.0@, a.1@), (b.0@, b.1@)),
{
    match str_compare(a.0.as_str(), b.0.as_str()) {
        core::cmp::Ordering::Less => true,
        core::cmp::Ordering::Greater => false,
        core::cmp::Ordering::Equal => match str_compare(a.1.as_str(), b.1.as_str()) {
            core::cmp::Ordering::Greater => false,
            _ => true,
        },
    }
}

/// Sorts query parameters into the canonical order. The result holds
/// exactly the given pairs, ascending by key with values breaking ties.
pub fn sort_query_params(params: Vec<(String, String)>) -> (r: Vec<(String, String)>)
    ensures
        sorted_by(pairs_view(r@), qp_leq()),
        pairs_view(r@).to_multiset() == pairs_view(params@).to_multiset(),
{
    let ghost orig = pairs_view(params@);
    let mut rest = params;
    let mut out: Vec<(String, String)> = Vec::new();
    proof {
        assert(pairs_view(out@) =~= Seq::<(Seq<char>, Seq<char>)>::empty());
        assert(pairs_view(out@).to_multiset().add(pairs_view(rest@).to_multiset()) =~= orig.to_multiset());
    }
    while rest.len() > 0
        invariant
            pairs_view(out@).to_multiset().add(pairs_view(rest@).to_multiset())
                == orig.to_multiset(),
            sorted_by(pairs_view(out@), qp_leq()),
            forall|ii: int, jj: int|
                0 <= ii < out@.len() && 0 <= jj < rest@.len() ==> qp_le(
                    #[trigger] pairs_view(out@)[ii],
                    #[trigger] pairs_view(rest@)[jj],
                ),
        decreases rest.len(),
    {
        let mut k: usize = 0;
        let mut i: usize = 1;
        while i < rest.len()
            invariant
                rest.len() > 0,
                k < i,
                i <= rest.len(),
                forall|j: int|
                    0 <= j < i ==> qp_le(
                        pairs_view(rest@)[k as int],
                        #[trigger] pairs_view(rest@)[j],
                    ),
            decreases rest.len() - i,
        {
            let le = pair_le(&rest[i], &rest[k]);
            if le {
                proof {
                    let rv = pairs_view(rest@);
                    assert forall|j: int| 0 <= j < i + 1 implies qp_le(
                        rv[i as int],
                        #[trigger] rv[j],
                    ) by {
                        if j < i {
                            lemma_qp_le_trans(rv[i as int], rv[k as int], rv[j]);
                        } else {
                            lemma_qp_le_total(rv[i as int], rv[i as int]);
                        }
                    }
                }
                k = i;
            } else {
                proof {
                    lemma_qp_le_total(
                        pairs_view(rest@)[k as int],
                        pairs_view(rest@)[i as int],
                    );
                }
            }
            i = i + 1;
        }
        let ghost old_out = pairs_view(out@);
        let ghost old_rest = pairs_view(rest@);
        let p = rest.remove(k);
        out.push(p);
        proof {
            let ghost pv = (p.0@, p.1@);
            assert(pairs_view(out@) =~= old_out.push(pv));
            assert(pairs_view(rest@) =~= old_rest.remove(k as int));
            old_rest.to_multiset_ensures();
            assert(old_rest.remove(k as int).to_multiset() =~= old_rest.to_multiset().remove(pv));
            assert(old_out.push(pv).to_multiset() =~= old_out.to_multiset().insert(pv));
            assert(old_rest.to_multiset().contains(pv));
            assert(pairs_view(out@).to_multiset().add(pairs_view(rest@).to_multiset())
                =~= orig.to_multiset());
            assert forall|ii: int, jj: int|
                0 <= ii < out@.len() && 0 <= jj < rest@.len() implies qp_le(
                #[trigger] pairs_view(out@)[ii],
                #[trigger] pairs_view(rest@)[jj],
            ) by {
                let x = pairs_view(out@)[ii];
                let y = pairs_view(rest@)[jj];
                if ii < out@.len() - 1 {
                    assert(old_out.contains(x));
                } else {
                    assert(x == pv);
                    if jj < k as int {
                        assert(y == old_rest[jj]);
                    } else {
                        assert(y == old_rest[jj + 1]);
                    }
                }
            }
            assert(sorted_by(pairs_view(out@), qp_leq()));
        }
    }
    out
}

/// One `key=value` element of a query string.
pub open spec fn pair_str(p: (Seq<char>, Seq<char>)) -> Seq<char> {
    p.0 + seq!['='] + p.1
}

/// The query string written from the given pairs in order, joined
/// with `&`.
pub open spec fn spec_query_string(ps: Seq<(Seq<char>, Seq<char>)>) -> Seq<char>
    decreases ps.len(),
{
    if ps.len() == 0 {
        Seq::empty()
    } else if ps.len() == 1 {
        pair_str(ps[0])
    } else {
        spec_query_string(ps.drop_last()) + seq!['&'] + pair_str(ps.last())
    }
}

/// The canonical URL: the path, then `?` and the query string when any
/// parameters are present.
pub open spec fn spec_canonical_url(path: Seq<char>, ps: Seq<(Seq<char>, Seq<char>)>) -> Seq<
    char,
> {
    if ps.len() == 0 {
        path
    } else {
        path + seq!['?'] + spec_query_string(ps)
    }
}

/// Writes the query string of the given pairs, in their order.
pub fn build_query_string(ps: &Vec<(String, String)>) -> (r: String)
    ensures
        r@ == spec_query_string(pairs_view(ps@)),
{
    let mut s = String::new();
    let mut i: usize = 0;
    proof {
        assert(pairs_view(ps@).subrange(0, 0) =~= Seq::<(Seq<char>, Seq<char>)>::empty());
    }
    while i < ps.len()
        invariant
            i <= ps.len(),
            s@ == spec_query_string(pairs_view(ps@).subrange(0, i as int)),
        decreases ps.len() - i,
    {
        if i > 0 {
            push_char(&mut s, '&');
        }
        s.append(ps[i].0.as_str());
        push_char(&mut s, '=');
        s.append(ps[i].1.as_str());
        proof {
            let view = pairs_view(ps@);
            let pre = view.subrange(0, i as int);
            let cur = view.subrange(0, i + 1);
            assert(cur.drop_last() =~= pre);
            assert(cur.last() == view[i as int]);
            assert(s@ =~= spec_query_string(cur));
        }
        i = i + 1;
    }
    proof {
        assert(pairs_view(ps@).subrange(0, ps@.len() as int) =~= pairs_view(ps@));
    }
    s
}

/// Writes the canonical URL for a path and already-sorted parameters.
pub fn build_canonical_url(path: &str, ps: &Vec<(String, String)>) -> (r: String)
    ensures
        r@ == spec_canonical_url(path@, pairs_view(ps@)),
{
    let mut s = String::new();
    s.append(path);
    if ps.len() > 0 {
        push_char(&mut s, '?');
        let q = build_query_string(ps);
        s.append(q.as_str());
    }
    proof {
        assert(s@ =~= spec_canonical_url(path@, pairs_view(ps@)));
    }
    s
}

/// A sequence that is sorted in the canonical order and holds the same
/// pairs as `v` is exactly `v.sort_by(qp_leq())`.
pub proof fn lemma_sorted_is_sort_by(
    v: Seq<(Seq<char>, Seq<char>)>,
    w: Seq<(Seq<char>, Seq<char>)>,
)
    requires
        sorted_by(w, qp_leq()),
        w.to_multiset() == v.to_multiset(),
    ensures
        w == v.sort_by(qp_leq()),
{
    lemma_qp_total_ordering();
    v.lemma_sort_by_ensures(qp_leq());
    lemma_sorted_unique(w, v.sort_by(qp_leq()), qp_leq());
}

/// Canonicalization ignores supply order: two parameter lists holding
/// the same pairs sort to the same sequence, so a request signed over
/// either reads the same canonical URL.
pub proof fn lemma_sort_by_order_invariant(
    a: Seq<(Seq<char>, Seq<char>)>,
    b: Seq<(Seq<char>, Seq<char>)>,
)
    requires
        a.to_multiset() == b.to_multiset(),
    ensures
        a.sort_by(qp_leq()) == b.sort_by(qp_leq()),
{
    lemma_qp_total_ordering();
    a.lemma_sort_by_ensures(qp_leq());
    b.lemma_sort_by_ensures(qp_leq());
    lemma_sorted_unique(a.sort_by(qp_leq()), b.sort_by(qp_leq()), qp_leq());
}

/// Two supplies of the same parameters, in any order, canonicalize to
/// the same sequence, hence to the same query string and the same
/// signature input.
pub proof fn lemma_order_invariance(
    a: Seq<(Seq<char>, Seq<char>)>,
    b: Seq<(Seq<char>, Seq<char>)>,
    sa: Seq<(Seq<char>, Seq<char>)>,
    sb: Seq<(Seq<char>, Seq<char>)>,
)
    requires
        a.to_multiset() == b.to_multiset(),
        sorted_by(sa, qp_leq()),
        sorted_by(sb, qp_leq()),
        sa.to_multiset() == a.to_multiset(),
        sb.to_multiset() == b.to_multiset(),
    ensures
        sa == sb,
        spec_query_string(sa) == spec_query_string(sb),
{
    lemma_qp_total_ordering();
    lemma_sorted_unique(sa, sb, qp_leq());
}

} // verus!
