//! First-match lookup in a table of rows, the way a `LIMIT 1` query reads it.
use vstd::prelude::*;

verus! {

/// The index of the first row that satisfies `p`, or -1 when none does.
pub open spec fn first_index<T>(s: Seq<T>, p: spec_fn(T) -> bool) -> int
    decreases s.len(),
{
    if s.len() == 0 {
        -1
    } else if p(s[0]) {
        0
    } else {
        let r = first_index(s.drop_first(), p);
        if r < 0 {
            -1
        } else {
            r + 1
        }
    }
}

/// The first row that satisfies `p`.
pub open spec fn find_first<T>(s: Seq<T>, p: spec_fn(T) -> bool) -> Option<T> {
    let i = first_index(s, p);
    if i >= 0 {
        Some(s[i])
    } else {
        None
    }
}

/// The number of rows that satisfy `p`.
pub open spec fn count_where<T>(s: Seq<T>, p: spec_fn(T) -> bool) -> nat
    decreases s.len(),
{
    if s.len() == 0 {
        0
    } else {
        count_where(s.drop_last(), p) + if p(s.last()) {
            1nat
        } else {
            0nat
        }
    }
}

/// A scan that saw no match before `i` identifies the first match.
pub proof fn lemma_first_index_scan<T>(s: Seq<T>, p: spec_fn(T) -> bool, i: int)
    requires
        0 <= i <= s.len(),
        forall|k: int| 0 <= k < i ==> !p(#[trigger] s[k]),
    ensures
        i < s.len() && p(s[i]) ==> first_index(s, p) == i,
        i == s.len() ==> first_index(s, p) == -1,
    decreases i,
{
    if i > 0 {
        assert forall|k: int| 0 <= k < i - 1 implies !p(#[trigger] s.drop_first()[k]) by {
            assert(s.drop_first()[k] == s[k + 1]);
        }
        lemma_first_index_scan(s.drop_first(), p, i - 1);
    }
}

/// What the first index says of the rows.
pub proof fn lemma_first_index_props<T>(s: Seq<T>, p: spec_fn(T) -> bool)
    ensures
        -1 <= first_index(s, p) < s.len(),
        first_index(s, p) == -1 <==> forall|k: int| 0 <= k < s.len() ==> !p(#[trigger] s[k]),
        first_index(s, p) >= 0 ==> p(s[first_index(s, p)]) && forall|k: int|
            0 <= k < first_index(s, p) ==> !p(#[trigger] s[k]),
    decreases s.len(),
{
    if s.len() > 0 {
        lemma_first_index_props(s.drop_first(), p);
        if !p(s[0]) {
            let r = first_index(s.drop_first(), p);
            if r == -1 {
                assert forall|k: int| 0 <= k < s.len() implies !p(#[trigger] s[k]) by {
                    if k > 0 {
                        assert(s[k] == s.drop_first()[k - 1]);
                    }
                }
            } else {
                assert(s[r + 1] == s.drop_first()[r]);
                assert forall|k: int| 0 <= k < r + 1 implies !p(#[trigger] s[k]) by {
                    if k > 0 {
                        assert(s[k] == s.drop_first()[k - 1]);
                    }
                }
            }
        }
    }
}

/// Appending a row changes the first match only when there was none.
pub proof fn lemma_first_index_push<T>(s: Seq<T>, p: spec_fn(T) -> bool, x: T)
    ensures
        first_index(s.push(x), p) == if first_index(s, p) >= 0 {
            first_index(s, p)
        } else if p(x) {
            s.len() as int
        } else {
            -1
        },
{
    lemma_first_index_props(s, p);
    let t = s.push(x);
    if first_index(s, p) >= 0 {
        let i = first_index(s, p);
        assert forall|k: int| 0 <= k < i implies !p(#[trigger] t[k]) by {
            assert(t[k] == s[k]);
        }
        assert(t[i] == s[i]);
        lemma_first_index_scan(t, p, i);
    } else {
        assert forall|k: int| 0 <= k < s.len() implies !p(#[trigger] t[k]) by {
            assert(t[k] == s[k]);
        }
        lemma_first_index_scan(t, p, s.len() as int);
        if !p(x) {
            lemma_first_index_scan(t, p, t.len() as int);
        }
    }
}

/// Replacing a row by one that agrees with it on `p` keeps the first match.
pub proof fn lemma_first_index_update<T>(s: Seq<T>, p: spec_fn(T) -> bool, j: int, x: T)
    requires
        0 <= j < s.len(),
        p(s[j]) == p(x),
    ensures
        first_index(s.update(j, x), p) == first_index(s, p),
{
    lemma_first_index_props(s, p);
    let t = s.update(j, x);
    let i = first_index(s, p);
    if i >= 0 {
        assert forall|k: int| 0 <= k < i implies !p(#[trigger] t[k]) by {
            if k != j {
                assert(t[k] == s[k]);
            }
        }
        if i != j {
            assert(t[i] == s[i]);
        }
        lemma_first_index_scan(t, p, i);
    } else {
        assert forall|k: int| 0 <= k < s.len() implies !p(#[trigger] t[k]) by {
            if k != j {
                assert(t[k] == s[k]);
            }
        }
        lemma_first_index_scan(t, p, s.len() as int);
    }
}

/// Appending one row adds one to the count when it matches.
pub proof fn lemma_count_push<T>(s: Seq<T>, p: spec_fn(T) -> bool, x: T)
    ensures
        count_where(s.push(x), p) == count_where(s, p) + if p(x) {
            1nat
        } else {
            0nat
        },
{
    assert(s.push(x).drop_last() == s);
}

/// Replacing one row changes the count by what the old and new row contribute.
pub proof fn lemma_count_update<T>(s: Seq<T>, p: spec_fn(T) -> bool, j: int, x: T)
    requires
        0 <= j < s.len(),
    ensures
        count_where(s.update(j, x), p) + (if p(s[j]) { 1int } else { 0int }) == count_where(s, p) + (
        if p(x) {
            1int
        } else {
            0int
        }),
    decreases s.len(),
{
    let t = s.update(j, x);
    if j == s.len() - 1 {
        assert(t.drop_last() == s.drop_last());
    } else {
        assert(t.drop_last() == s.drop_last().update(j, x));
        lemma_count_update(s.drop_last(), p, j, x);
    }
}

} // verus!
