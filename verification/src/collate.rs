//! Case-insensitive collation of item lists: the stable sort behind sorted
//! list boxes, and the lower-bound search that type-to-search relies on.
use vstd::prelude::*;
use crate::text::{
    ci_lt, lex_lt, lowered, ci_less, lemma_lex_trichotomy, lemma_lex_transitive, lemma_lex_irreflexive,
    spec_ci_prefix_eq, lemma_prefix_not_before, lemma_prefix_between, lemma_ci_prefix_lowered,
};
use crate::widgets::list_box::texts;

verus! {

broadcast use vstd::seq_lib::group_to_multiset_ensures;

/// `s` (already in order) with `x` inserted after every element that is not
/// after it, so equal-ranked elements keep their arrival order.
pub open spec fn ci_insert(s: Seq<Seq<char>>, x: Seq<char>) -> Seq<Seq<char>>
    decreases s.len(),
{
    if s.len() == 0 {
        seq![x]
    } else if ci_lt(x, s.last()) {
        ci_insert(s.drop_last(), x).push(s.last())
    } else {
        s.push(x)
    }
}

/// The stable case-insensitive sort of `s`: its elements inserted one by one.
pub open spec fn ci_sorted(s: Seq<Seq<char>>) -> Seq<Seq<char>>
    decreases s.len(),
{
    if s.len() == 0 {
        s
    } else {
        ci_insert(ci_sorted(s.drop_last()), s.last())
    }
}

/// No element of `s` comes after a later one, case-insensitively.
pub open spec fn is_ci_sorted(s: Seq<Seq<char>>) -> bool {
    forall|i: int, j: int| 0 <= i < j < s.len() ==> !ci_lt(#[trigger] s[j], #[trigger] s[i])
}

/// `ci_lt` is irreflexive and asymmetric.
pub proof fn lemma_ci_asym(a: Seq<char>, b: Seq<char>)
    ensures
        !ci_lt(a, a),
        ci_lt(a, b) ==> !ci_lt(b, a),
{
    lemma_lex_irreflexive(lowered(a));
    lemma_lex_trichotomy(lowered(a), lowered(b));
}

/// "Not after" is transitive: `a <= b <= c` case-insensitively gives
/// `a <= c`.
pub proof fn lemma_ci_le_trans(a: Seq<char>, b: Seq<char>, c: Seq<char>)
    requires
        !ci_lt(b, a),
        !ci_lt(c, b),
    ensures
        !ci_lt(c, a),
{
    let (la, lb, lc) = (lowered(a), lowered(b), lowered(c));
    lemma_lex_trichotomy(la, lb);
    lemma_lex_trichotomy(lb, lc);
    lemma_lex_trichotomy(la, lc);
    if lex_lt(lc, la) {
        if lex_lt(la, lb) {
            lemma_lex_transitive(lc, la, lb);
        }
    }
}

/// Inserting keeps the elements: `x` and those of `s`.
proof fn lemma_insert_multiset(s: Seq<Seq<char>>, x: Seq<char>)
    ensures
        ci_insert(s, x).to_multiset() == s.to_multiset().insert(x),
        ci_insert(s, x).len() == s.len() + 1,
    decreases s.len(),
{
    if s.len() > 0 && ci_lt(x, s.last()) {
        lemma_insert_multiset(s.drop_last(), x);
        assert(s.drop_last().push(s.last()) =~= s);
        assert(s.drop_last().to_multiset().insert(x).insert(s.last()) =~= s.drop_last().to_multiset().insert(s.last()).insert(x));
    }
}

/// Every element of `ci_insert(s, x)` is `x` or one of `s`'s.
proof fn lemma_insert_members(s: Seq<Seq<char>>, x: Seq<char>, k: int)
    requires
        0 <= k < ci_insert(s, x).len(),
    ensures
        ci_insert(s, x)[k] == x || exists|m: int| 0 <= m < s.len() && s[m] == ci_insert(s, x)[k],
    decreases s.len(),
{
    lemma_insert_multiset(s, x);
    if s.len() > 0 && ci_lt(x, s.last()) {
        if k < s.len() as int {
            lemma_insert_members(s.drop_last(), x, k);
            let r = ci_insert(s.drop_last(), x);
            if r[k] != x {
                let m = choose|m: int| 0 <= m < s.drop_last().len() && s.drop_last()[m] == r[k];
                assert(s[m] == ci_insert(s, x)[k]);
            }
        } else {
            assert(s[s.len() - 1] == ci_insert(s, x)[k]);
        }
    } else if s.len() > 0 {
        if k < s.len() {
            assert(s[k] == ci_insert(s, x)[k]);
        }
    }
}

/// Inserting into a sorted sequence leaves it sorted.
proof fn lemma_insert_sorted(s: Seq<Seq<char>>, x: Seq<char>)
    requires
        is_ci_sorted(s),
    ensures
        is_ci_sorted(ci_insert(s, x)),
    decreases s.len(),
{
    lemma_insert_multiset(s, x);
    if s.len() == 0 {
    } else if ci_lt(x, s.last()) {
        let s1 = s.drop_last();
        let last = s.last();
        lemma_insert_sorted(s1, x);
        let r1 = ci_insert(s1, x);
        let r = r1.push(last);
        assert forall|i: int, j: int| 0 <= i < j < r.len() implies !ci_lt(#[trigger] r[j], #[trigger] r[i]) by {
            if j == r.len() - 1 {
                lemma_insert_members(s1, x, i);
                if r1[i] == x {
                    lemma_ci_asym(x, last);
                } else {
                    let m = choose|m: int| 0 <= m < s1.len() && s1[m] == r1[i];
                    assert(s[m] == r1[i]);
                    assert(s[s.len() - 1] == last);
                }
            } else {
                assert(r[i] == r1[i]);
                assert(r[j] == r1[j]);
            }
        }
    } else {
        let r = s.push(x);
        assert forall|i: int, j: int| 0 <= i < j < r.len() implies !ci_lt(#[trigger] r[j], #[trigger] r[i]) by {
            if j == r.len() - 1 {
                if i < s.len() - 1 {
                    assert(s[s.len() - 1] == s.last());
                    lemma_ci_le_trans(s[i], s.last(), x);
                }
            } else {
                assert(r[i] == s[i]);
                assert(r[j] == s[j]);
            }
        }
    }
}

/// The stable case-insensitive sort orders its result: no element comes
/// after a later one.
pub proof fn law_ci_sorted_is_sorted(s: Seq<Seq<char>>)
    ensures
        is_ci_sorted(ci_sorted(s)),
    decreases s.len(),
{
    if s.len() > 0 {
        law_ci_sorted_is_sorted(s.drop_last());
        lemma_insert_sorted(ci_sorted(s.drop_last()), s.last());
    }
}

/// The stable case-insensitive sort is a permutation: it keeps every
/// element, as often as it occurs.
pub proof fn law_ci_sorted_permutes(s: Seq<Seq<char>>)
    ensures
        ci_sorted(s).to_multiset() == s.to_multiset(),
        ci_sorted(s).len() == s.len(),
    decreases s.len(),
{
    if s.len() > 0 {
        law_ci_sorted_permutes(s.drop_last());
        lemma_insert_multiset(ci_sorted(s.drop_last()), s.last());
        assert(s.drop_last().push(s.last()) =~= s);
    }
}

/// The number of leading elements of `s` that come before `key`
/// case-insensitively: in a sorted `s`, the first position whose element is
/// not before `key`.
pub open spec fn ci_lower_bound(s: Seq<Seq<char>>, key: Seq<char>) -> int
    decreases s.len(),
{
    if s.len() == 0 {
        0
    } else if ci_lt(s[0], key) {
        1 + ci_lower_bound(s.drop_first(), key)
    } else {
        0
    }
}

/// The lower bound lies within the sequence's positions.
pub proof fn lemma_lower_bound_nonneg(s: Seq<Seq<char>>, key: Seq<char>)
    ensures
        0 <= ci_lower_bound(s, key) <= s.len(),
    decreases s.len(),
{
    if s.len() > 0 {
        lemma_lower_bound_nonneg(s.drop_first(), key);
    }
}

/// A position with only earlier elements before it, and itself not before
/// `key`, is the lower bound.
pub proof fn lemma_lower_bound_at(s: Seq<Seq<char>>, key: Seq<char>, i: int)
    requires
        0 <= i <= s.len(),
        forall|k: int| 0 <= k < i ==> ci_lt(#[trigger] s[k], key),
        i == s.len() || !ci_lt(s[i], key),
    ensures
        ci_lower_bound(s, key) == i,
    decreases s.len(),
{
    if s.len() > 0 && i > 0 {
        assert forall|k: int| 0 <= k < i - 1 implies ci_lt(#[trigger] s.drop_first()[k], key) by {
            assert(s.drop_first()[k] == s[k + 1]);
        }
        if i < s.len() {
            assert(s.drop_first()[i - 1] == s[i]);
        }
        lemma_lower_bound_at(s.drop_first(), key, i - 1);
    }
}

/// In a sorted sequence, the elements before the lower bound are before
/// `key` and the others are not.
pub proof fn lemma_lower_bound_splits(s: Seq<Seq<char>>, key: Seq<char>, k: int)
    requires
        is_ci_sorted(s),
        0 <= k < s.len(),
    ensures
        0 <= ci_lower_bound(s, key) <= s.len(),
        ci_lt(s[k], key) <==> k < ci_lower_bound(s, key),
    decreases s.len(),
{
    let t = s.drop_first();
    assert(is_ci_sorted(t)) by {
        assert forall|i: int, j: int| 0 <= i < j < t.len() implies !ci_lt(#[trigger] t[j], #[trigger] t[i]) by {
            assert(t[i] == s[i + 1]);
            assert(t[j] == s[j + 1]);
        }
    }
    if ci_lt(s[0], key) {
        if k > 0 {
            assert(t[k - 1] == s[k]);
            lemma_lower_bound_splits(t, key, k - 1);
        } else if t.len() > 0 {
            lemma_lower_bound_splits(t, key, 0);
        } else {
        }
    } else {
        if k > 0 {
            lemma_ci_le_trans(key, s[0], s[k]);
        }
    }
}

/// The answer of a binary search for the first position in `lo..hi`
/// where `pred` fails, probing the middle position each step.
pub open spec fn bsearch(pred: spec_fn(int) -> bool, lo: int, hi: int) -> int
    decreases hi - lo,
{
    if lo >= hi {
        lo
    } else {
        let mid = lo + (hi - lo) / 2;
        if pred(mid) {
            bsearch(pred, mid + 1, hi)
        } else {
            bsearch(pred, lo, mid)
        }
    }
}

/// `pred` holds on a prefix of `lo..hi` and fails on the rest.
pub open spec fn partitioned(pred: spec_fn(int) -> bool, lo: int, hi: int) -> bool {
    forall|i: int, j: int| lo <= i <= j < hi && #[trigger] pred(j) ==> #[trigger] pred(i)
}

/// On a partitioned range the binary search finds the boundary: `pred`
/// holds before its answer and fails from it on. Whatever the predicate,
/// the answer lies in `lo..=hi`.
pub proof fn lemma_bsearch(pred: spec_fn(int) -> bool, lo: int, hi: int)
    requires
        lo <= hi,
    ensures
        lo <= bsearch(pred, lo, hi) <= hi,
        partitioned(pred, lo, hi) ==> {
            let b = bsearch(pred, lo, hi);
            &&& forall|k: int| lo <= k < b ==> #[trigger] pred(k)
            &&& forall|k: int| b <= k < hi ==> !#[trigger] pred(k)
        },
    decreases hi - lo,
{
    if lo < hi {
        let mid = lo + (hi - lo) / 2;
        if pred(mid) {
            lemma_bsearch(pred, mid + 1, hi);
            if partitioned(pred, lo, hi) {
                assert(partitioned(pred, mid + 1, hi));
                assert forall|k: int| lo <= k < mid + 1 implies #[trigger] pred(k) by {
                    assert(lo <= k <= mid < hi && pred(mid));
                }
            }
        } else {
            lemma_bsearch(pred, lo, mid);
            if partitioned(pred, lo, hi) {
                assert(partitioned(pred, lo, mid));
                assert forall|k: int| mid <= k < hi implies !#[trigger] pred(k) by {
                    if pred(k) {
                        assert(lo <= mid <= k < hi);
                    }
                }
            }
        }
    }
}

/// Sort `items` case-insensitively (ASCII case folding), keeping the
/// arrival order of items that differ only in case: the order of a stable
/// sort by the folded strings.
pub fn ci_sort(items: Vec<String>) -> (r: Vec<String>)
    ensures
        texts(r@) == ci_sorted(texts(items@)),
{
    let ghost t = texts(items@);
    let mut r: Vec<String> = Vec::new();
    let mut i: usize = 0;
    assert(t.take(0) =~= Seq::<Seq<char>>::empty());
    assert(texts(r@) =~= Seq::<Seq<char>>::empty());
    while i < items.len()
        invariant
            t == texts(items@),
            i <= items@.len(),
            texts(r@) == ci_sorted(t.take(i as int)),
        decreases items@.len() - i,
    {
        let x = items[i].clone();
        let ghost s = texts(r@);
        let mut j: usize = r.len();
        assert(s.take(j as int) =~= s);
        assert(s.skip(j as int) =~= Seq::<Seq<char>>::empty());
        while j > 0 && ci_less(x.as_str(), r[j - 1].as_str())
            invariant
                s == texts(r@),
                j <= r@.len(),
                ci_insert(s, x@) == ci_insert(s.take(j as int), x@) + s.skip(j as int),
            decreases j,
        {
            let ghost tj = s.take(j as int);
            assert(tj.last() == s[j - 1]);
            assert(tj.drop_last() =~= s.take(j - 1));
            assert(seq![s[j - 1]] + s.skip(j as int) =~= s.skip(j - 1));
            assert(ci_insert(s.take(j - 1), x@).push(s[j - 1]) + s.skip(j as int)
                =~= ci_insert(s.take(j - 1), x@) + s.skip(j - 1));
            j = j - 1;
        }
        proof {
            if j == 0 {
                assert(s.take(0) =~= Seq::<Seq<char>>::empty());
            }
        }
        r.insert(j, x);
        assert(texts(r@) =~= s.insert(j as int, x@)) by {
            assert(texts(r@).len() == s.len() + 1);
        }
        assert(s.take(j as int).push(x@) + s.skip(j as int) =~= s.insert(j as int, x@));
        assert(seq![x@] + s.skip(0) =~= s.insert(0, x@));
        assert(t.take(i as int + 1).drop_last() =~= t.take(i as int));
        assert(t.take(i as int + 1).last() == x@);
        i = i + 1;
    }
    assert(t.take(items@.len() as int) =~= t);
    r
}

/// In a list sorted case-insensitively, when some item begins with `key`
/// (case-insensitively), the lower bound of `key` is the first such item: it
/// begins with `key`, and no item before it does.
pub proof fn law_lower_bound_finds_prefix(s: Seq<Seq<char>>, key: Seq<char>, j: int)
    requires
        is_ci_sorted(s),
        0 <= j < s.len(),
        spec_ci_prefix_eq(s[j], key, key.len() as int),
    ensures
        ci_lower_bound(s, key) <= j,
        spec_ci_prefix_eq(s[ci_lower_bound(s, key)], key, key.len() as int),
        forall|k: int| 0 <= k < ci_lower_bound(s, key) ==> !spec_ci_prefix_eq(#[trigger] s[k], key, key.len() as int),
{
    let lb = ci_lower_bound(s, key);
    lemma_ci_prefix_lowered(s[j], key);
    lemma_prefix_not_before(lowered(s[j]), lowered(key));
    lemma_lower_bound_splits(s, key, j);
    assert(lb < s.len());
    lemma_lower_bound_splits(s, key, lb);
    if lb < j {
        assert(!ci_lt(s[j], s[lb]));
    } else {
        lemma_lex_irreflexive(lowered(s[j]));
    }
    lemma_prefix_between(lowered(key), lowered(s[lb]), lowered(s[j]));
    lemma_ci_prefix_lowered(s[lb], key);
    assert forall|k: int| 0 <= k < lb implies !spec_ci_prefix_eq(#[trigger] s[k], key, key.len() as int) by {
        lemma_lower_bound_splits(s, key, k);
        lemma_ci_prefix_lowered(s[k], key);
        if spec_ci_prefix_eq(s[k], key, key.len() as int) {
            lemma_prefix_not_before(lowered(s[k]), lowered(key));
        }
    }
}

} // verus!
