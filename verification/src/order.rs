//! The order of strings (by code point, which is also the order of their UTF-8
//! bytes) and a stable sort of API key owner rows by key id.
use vstd::prelude::*;
use crate::storage::{ApiKeyOwner, copy_owner};
use crate::text::chars_of;

verus! {

broadcast use vstd::seq_lib::group_to_multiset_ensures;

/// `a` comes no later than `b` in lexicographic order by code point.
pub open spec fn lex_le(a: Seq<char>, b: Seq<char>) -> bool
    decreases a.len(),
{
    if a.len() == 0 {
        true
    } else if b.len() == 0 {
        false
    } else if (a[0] as u32) < (b[0] as u32) {
        true
    } else if (a[0] as u32) > (b[0] as u32) {
        false
    } else {
        lex_le(a.drop_first(), b.drop_first())
    }
}

/// No two rows name the same key.
pub open spec fn keys_distinct(s: Seq<ApiKeyOwner>) -> bool {
    forall|i: int, j: int| 0 <= i < j < s.len() ==> (#[trigger] s[i]).key_id@ != (#[trigger] s[j]).key_id@
}

/// One of the first `n` rows names the key.
pub open spec fn key_in_prefix(rows: Seq<ApiKeyOwner>, n: int, key: Seq<char>) -> bool {
    exists|m: int| 0 <= m < n && rows[m].key_id@ == key
}

/// The rows are in nondecreasing order of key id.
pub open spec fn sorted_by_key(s: Seq<ApiKeyOwner>) -> bool {
    forall|i: int, j: int| 0 <= i < j < s.len() ==> lex_le(#[trigger] s[i].key_id@, #[trigger] s[j].key_id@)
}

/// Any two strings are ordered one way or the other.
pub proof fn lemma_lex_total(a: Seq<char>, b: Seq<char>)
    ensures
        lex_le(a, b) || lex_le(b, a),
    decreases a.len(),
{
    if a.len() > 0 && b.len() > 0 && a[0] as u32 == b[0] as u32 {
        lemma_lex_total(a.drop_first(), b.drop_first());
    }
}

/// The order is transitive.
pub proof fn lemma_lex_trans(a: Seq<char>, b: Seq<char>, c: Seq<char>)
    requires
        lex_le(a, b),
        lex_le(b, c),
    ensures
        lex_le(a, c),
    decreases a.len(),
{
    if a.len() > 0 && b.len() > 0 && c.len() > 0 && a[0] as u32 == b[0] as u32 && b[0] as u32
        == c[0] as u32 {
        lemma_lex_trans(a.drop_first(), b.drop_first(), c.drop_first());
    }
}

/// Whether `a` comes no later than `b`.
pub fn str_lex_le(a: &str, b: &str) -> (res: bool)
    ensures
        res == lex_le(a@, b@),
{
    let x = chars_of(a);
    let y = chars_of(b);
    let mut i: usize = 0;
    assert(x@.skip(0) == x@);
    assert(y@.skip(0) == y@);
    while i < x.len() && i < y.len() && (x[i] as u32) == (y[i] as u32)
        invariant
            x@ == a@,
            y@ == b@,
            0 <= i <= x@.len(),
            i <= y@.len(),
            lex_le(a@, b@) == lex_le(x@.skip(i as int), y@.skip(i as int)),
        decreases x@.len() - i,
    {
        assert(x@.skip(i as int).drop_first() == x@.skip(i + 1));
        assert(y@.skip(i as int).drop_first() == y@.skip(i + 1));
        i += 1;
    }
    if i == x.len() {
        return true;
    }
    if i == y.len() {
        return false;
    }
    assert(x@.skip(i as int)[0] == x@[i as int]);
    assert(y@.skip(i as int)[0] == y@[i as int]);
    (x[i] as u32) < (y[i] as u32)
}

/// The rows sorted by key id; rows with equal keys keep their order.
pub fn sort_owners_by_key(rows: &Vec<ApiKeyOwner>) -> (res: Vec<ApiKeyOwner>)
    ensures
        sorted_by_key(res@),
        res@.to_multiset() == rows@.to_multiset(),
        res@.len() == rows@.len(),
        keys_distinct(rows@) ==> keys_distinct(res@),
{
    let mut out: Vec<ApiKeyOwner> = Vec::new();
    let mut i: usize = 0;
    while i < rows.len()
        invariant
            0 <= i <= rows@.len(),
            sorted_by_key(out@),
            out@.len() == i,
            out@.to_multiset() == rows@.take(i as int).to_multiset(),
            keys_distinct(rows@) ==> keys_distinct(out@),
            forall|k: int| 0 <= k < out@.len() ==> key_in_prefix(rows@, i as int, #[trigger] out@[k].key_id@),
        decreases rows@.len() - i,
    {
        let x = copy_owner(&rows[i]);
        let mut j: usize = 0;
        while j < out.len() && str_lex_le(out[j].key_id.as_str(), x.key_id.as_str())
            invariant
                0 <= j <= out@.len(),
                forall|k: int| 0 <= k < j ==> lex_le(#[trigger] out@[k].key_id@, x.key_id@),
            decreases out@.len() - j,
        {
            j += 1;
        }
        let ghost before = out@;
        proof {
            assert forall|k: int| j <= k < before.len() implies lex_le(
                x.key_id@,
                #[trigger] before[k].key_id@,
            ) by {
                if j < before.len() {
                    lemma_lex_total(before[j as int].key_id@, x.key_id@);
                    if k > j {
                        lemma_lex_trans(x.key_id@, before[j as int].key_id@, before[k].key_id@);
                    }
                }
            }
        }
        out.insert(j, x);
        proof {
            let after = before.insert(j as int, x);
            assert(out@ == after);
            assert forall|a: int, b: int| 0 <= a < b < after.len() implies lex_le(
                #[trigger] after[a].key_id@,
                #[trigger] after[b].key_id@,
            ) by {
                if b < j {
                } else if b == j {
                } else if a < j {
                    assert(after[b] == before[b - 1]);
                    lemma_lex_trans(before[a].key_id@, x.key_id@, before[b - 1].key_id@);
                } else if a == j {
                    assert(after[b] == before[b - 1]);
                } else {
                    assert(after[a] == before[a - 1]);
                    assert(after[b] == before[b - 1]);
                }
            }
            assert forall|k: int| 0 <= k < after.len() implies key_in_prefix(
                rows@,
                i + 1,
                #[trigger] after[k].key_id@,
            ) by {
                if k < j {
                    assert(key_in_prefix(rows@, i as int, before[k].key_id@));
                } else if k == j {
                    assert(rows@[i as int].key_id@ == x.key_id@);
                } else {
                    assert(after[k] == before[k - 1]);
                    assert(key_in_prefix(rows@, i as int, before[k - 1].key_id@));
                }
            }
            if keys_distinct(rows@) {
                assert forall|k: int| 0 <= k < before.len() implies before[k].key_id@ != x.key_id@ by {
                    assert(key_in_prefix(rows@, i as int, before[k].key_id@));
                    let m = choose|m: int| 0 <= m < i && rows@[m].key_id@ == before[k].key_id@;
                    assert(rows@[m].key_id@ != rows@[i as int].key_id@);
                }
                assert forall|a: int, b: int| 0 <= a < b < after.len() implies (#[trigger] after[a]).key_id@
                    != (#[trigger] after[b]).key_id@ by {
                    if b < j {
                    } else if b == j {
                    } else if a < j {
                        assert(after[b] == before[b - 1]);
                    } else if a == j {
                        assert(after[b] == before[b - 1]);
                    } else {
                        assert(after[a] == before[a - 1]);
                        assert(after[b] == before[b - 1]);
                    }
                }
            }
            vstd::seq_lib::to_multiset_insert(before, j as int, x);
            assert(rows@.take(i + 1) == rows@.take(i as int).push(rows@[i as int]));
            vstd::seq_lib::to_multiset_build(rows@.take(i as int), rows@[i as int]);
        }
        i += 1;
    }
    assert(rows@.take(i as int) == rows@);
    out
}

} // verus!
