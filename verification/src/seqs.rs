//! Searching sequences: the first position that satisfies a predicate.
use vstd::prelude::*;

verus! {

/// The first position of `s` whose element satisfies `p`.
pub open spec fn first_where<T>(s: Seq<T>, p: spec_fn(T) -> bool) -> Option<int>
    decreases s.len(),
{
    if s.len() == 0 {
        None
    } else if p(s[0]) {
        Some(0)
    } else {
        match first_where(s.drop_first(), p) {
            Some(i) => Some(i + 1),
            None => None,
        }
    }
}

/// `first_where` finds the least satisfying position, or reports that none
/// satisfies the predicate.
pub proof fn lemma_first_where<T>(s: Seq<T>, p: spec_fn(T) -> bool)
    ensures
        first_where(s, p) matches Some(i) ==> 0 <= i < s.len() && p(s[i]) && forall|j: int|
            0 <= j < i ==> !p(#[trigger] s[j]),
        first_where(s, p) is None ==> forall|j: int| 0 <= j < s.len() ==> !p(#[trigger] s[j]),
    decreases s.len(),
{
    if s.len() > 0 && !p(s[0]) {
        let t = s.drop_first();
        lemma_first_where(t, p);
        assert forall|j: int| 1 <= j < s.len() implies s[j] == t[j - 1] by {}
        if first_where(s, p) is None {
            assert forall|j: int| 0 <= j < s.len() implies !p(#[trigger] s[j]) by {
                if j > 0 {
                    assert(s[j] == t[j - 1]);
                }
            }
        } else {
            let i = first_where(s, p)->0;
            assert forall|j: int| 0 <= j < i implies !p(#[trigger] s[j]) by {
                if j > 0 {
                    assert(s[j] == t[j - 1]);
                }
            }
        }
    }
}

/// A position that satisfies `p` after only failing positions is the first.
pub proof fn lemma_first_where_at<T>(s: Seq<T>, p: spec_fn(T) -> bool, i: int)
    requires
        0 <= i < s.len(),
        p(s[i]),
        forall|j: int| 0 <= j < i ==> !p(#[trigger] s[j]),
    ensures
        first_where(s, p) == Some(i),
{
    lemma_first_where(s, p);
    match first_where(s, p) {
        Some(k) => {
            if k < i {
                assert(!p(s[k]));
            } else if k > i {
                assert(!p(s[i]));
            }
        },
        None => {
            assert(!p(s[i]));
        },
    }
}

/// When no position satisfies `p`, there is no first one.
pub proof fn lemma_first_where_none<T>(s: Seq<T>, p: spec_fn(T) -> bool)
    requires
        forall|j: int| 0 <= j < s.len() ==> !p(#[trigger] s[j]),
    ensures
        first_where(s, p) is None,
{
    lemma_first_where(s, p);
    if first_where(s, p) is Some {
        let k = first_where(s, p)->0;
        assert(p(s[k]));
    }
}

/// Extending a filtered prefix by one element.
pub proof fn lemma_filter_step<T>(s: Seq<T>, p: spec_fn(T) -> bool, i: int)
    requires
        0 <= i < s.len(),
    ensures
        s.subrange(0, i + 1).filter(p) == if p(s[i]) {
            s.subrange(0, i).filter(p).push(s[i])
        } else {
            s.subrange(0, i).filter(p)
        },
{
    reveal(Seq::filter);
    assert(s.subrange(0, i + 1).drop_last() =~= s.subrange(0, i));
}

/// The elements of `items` whose flag in `present` is set, in order.
pub open spec fn kept<T>(items: Seq<T>, present: Seq<bool>) -> Seq<T>
    decreases items.len(),
{
    if items.len() == 0 {
        Seq::empty()
    } else {
        let rest = kept(items.drop_last(), present.drop_last());
        if present.last() {
            rest.push(items.last())
        } else {
            rest
        }
    }
}

/// Extending the kept prefix by one element.
pub proof fn lemma_kept_step<T>(items: Seq<T>, present: Seq<bool>, i: int)
    requires
        0 <= i < items.len(),
        items.len() == present.len(),
    ensures
        kept(items.subrange(0, i + 1), present.subrange(0, i + 1)) == if present[i] {
            kept(items.subrange(0, i), present.subrange(0, i)).push(items[i])
        } else {
            kept(items.subrange(0, i), present.subrange(0, i))
        },
{
    assert(items.subrange(0, i + 1).drop_last() =~= items.subrange(0, i));
    assert(present.subrange(0, i + 1).drop_last() =~= present.subrange(0, i));
}

/// With every flag set, everything is kept.
pub proof fn lemma_kept_all<T>(items: Seq<T>, present: Seq<bool>)
    requires
        items.len() == present.len(),
        forall|j: int| 0 <= j < present.len() ==> #[trigger] present[j],
    ensures
        kept(items, present) == items,
    decreases items.len(),
{
    if items.len() > 0 {
        lemma_kept_all(items.drop_last(), present.drop_last());
        assert(present.last() == present[present.len() - 1]);
        assert(items.drop_last().push(items.last()) =~= items);
    }
}

} // verus!
