//! Background-task settings: the warm-up schedule, a five-field cron expression,
//! and the checks a settings change must pass.
//!
//! A cron expression is five fields separated by whitespace: minute (0-59), hour
//! (0-23), day of month (1-31), month (1-12) and day of week (0-7). A field is a
//! comma-separated list of items; an item is `*`, a number or a range `a-b` with
//! `a <= b`, optionally followed by `/step` with a step from 1 to the field's
//! maximum.
use vstd::prelude::*;
use crate::table::{first_index, lemma_first_index_props, lemma_first_index_scan};
use crate::text::{
    chars_of, concat_str, is_whitespace_char, is_ws, lemma_trim_start_props, trim, trim_seq,
    trim_start_seq,
};

verus! {

/// The character `c`.
pub open spec fn is_char(c: char) -> spec_fn(char) -> bool {
    |x: char| x == c
}

/// A whitespace character.
pub open spec fn is_ws_pred() -> spec_fn(char) -> bool {
    |x: char| is_ws(x)
}

/// An ASCII decimal digit.
pub open spec fn is_digit(c: char) -> bool {
    '0' <= c && c <= '9'
}

/// A non-empty run of decimal digits.
pub open spec fn is_number(s: Seq<char>) -> bool {
    s.len() > 0 && forall|i: int| 0 <= i < s.len() ==> is_digit(#[trigger] s[i])
}

/// The value of a run of decimal digits.
pub open spec fn number_value(s: Seq<char>) -> int
    decreases s.len(),
{
    if s.len() == 0 {
        0
    } else {
        number_value(s.drop_last()) * 10 + (s.last() as int - '0' as int)
    }
}

/// A number from `lo` to `hi`.
pub open spec fn number_in(s: Seq<char>, lo: int, hi: int) -> bool {
    is_number(s) && lo <= number_value(s) && number_value(s) <= hi
}

/// `*`, a number, or a range `a-b` with `a <= b`, within `lo..=hi`.
pub open spec fn cron_base_valid(b: Seq<char>, lo: int, hi: int) -> bool {
    let d = first_index(b, is_char('-'));
    if b == seq!['*'] {
        true
    } else if d < 0 {
        number_in(b, lo, hi)
    } else {
        number_in(b.take(d), lo, hi) && number_in(b.skip(d + 1), lo, hi) && number_value(b.take(d))
            <= number_value(b.skip(d + 1))
    }
}

/// A base, optionally followed by `/step` with a step from 1 to `hi`.
pub open spec fn cron_item_valid(s: Seq<char>, lo: int, hi: int) -> bool {
    let k = first_index(s, is_char('/'));
    if k < 0 {
        cron_base_valid(s, lo, hi)
    } else {
        cron_base_valid(s.take(k), lo, hi) && number_in(s.skip(k + 1), 1, hi)
    }
}

/// A comma-separated list of valid items.
pub open spec fn cron_field_valid(f: Seq<char>, lo: int, hi: int) -> bool
    decreases f.len(),
{
    let c = first_index(f, is_char(','));
    if c < 0 {
        cron_item_valid(f, lo, hi)
    } else {
        proof {
            lemma_first_index_props(f, is_char(','));
        }
        cron_item_valid(f.take(c), lo, hi) && cron_field_valid(f.skip(c + 1), lo, hi)
    }
}

/// The whitespace-separated words of `s`, in order.
pub open spec fn cron_words(s: Seq<char>) -> Seq<Seq<char>>
    decreases s.len(),
{
    let t = trim_start_seq(s);
    if t.len() == 0 {
        seq![]
    } else {
        let e = first_index(t, is_ws_pred());
        if e < 0 {
            seq![t]
        } else {
            proof {
                lemma_trim_start_props(s);
                lemma_first_index_props(t, is_ws_pred());
            }
            seq![t.take(e)] + cron_words(t.skip(e))
        }
    }
}

/// The smallest value of field `k`.
pub open spec fn field_lo(k: int) -> int {
    if k == 2 || k == 3 {
        1
    } else {
        0
    }
}

/// The largest value of field `k`.
pub open spec fn field_hi(k: int) -> int {
    if k == 0 {
        59
    } else if k == 1 {
        23
    } else if k == 2 {
        31
    } else if k == 3 {
        12
    } else {
        7
    }
}

/// Five fields, each valid for its position.
pub open spec fn cron_expression_valid(expr: Seq<char>) -> bool {
    let w = cron_words(expr);
    w.len() == 5 && forall|k: int| 0 <= k < 5 ==> cron_field_valid(#[trigger] w[k], field_lo(k), field_hi(k))
}

/// The first `c` in `v[a..b]`, as an index of `v`.
fn find_char(v: &Vec<char>, a: usize, b: usize, c: char) -> (res: Option<usize>)
    requires
        a <= b <= v@.len(),
    ensures
        match res {
            None => first_index(v@.subrange(a as int, b as int), is_char(c)) == -1,
            Some(k) => a <= k < b && first_index(v@.subrange(a as int, b as int), is_char(c)) == k - a,
        },
{
    let ghost s = v@.subrange(a as int, b as int);
    let mut i = a;
    while i < b
        invariant
            a <= i <= b <= v@.len(),
            s == v@.subrange(a as int, b as int),
            forall|k: int| 0 <= k < i - a ==> !is_char(c)(#[trigger] s[k]),
        decreases b - i,
    {
        if v[i] == c {
            proof {
                lemma_first_index_scan(s, is_char(c), i - a);
            }
            return Some(i);
        }
        i += 1;
    }
    proof {
        lemma_first_index_scan(s, is_char(c), i - a);
    }
    None
}

/// The value of the digits `v[a..b]`, saturated at 1001; `None` unless they are a
/// non-empty run of digits.
fn parse_bounded(v: &Vec<char>, a: usize, b: usize) -> (res: Option<u32>)
    requires
        a <= b <= v@.len(),
    ensures
        match res {
            None => !is_number(v@.subrange(a as int, b as int)),
            Some(x) => is_number(v@.subrange(a as int, b as int)) && (if number_value(
                v@.subrange(a as int, b as int),
            ) <= 1000 {
                x == number_value(v@.subrange(a as int, b as int))
            } else {
                x == 1001
            }),
        },
{
    if a == b {
        return None;
    }
    let mut acc: u32 = 0;
    let mut i = a;
    while i < b
        invariant
            a <= i <= b <= v@.len(),
            forall|k: int| a <= k < i ==> is_digit(#[trigger] v@[k]),
            number_value(v@.subrange(a as int, i as int)) >= 0,
            if number_value(v@.subrange(a as int, i as int)) <= 1000 {
                acc == number_value(v@.subrange(a as int, i as int))
            } else {
                acc == 1001
            },
        decreases b - i,
    {
        let c = v[i];
        if !('0' <= c && c <= '9') {
            proof {
                assert(!is_digit(v@.subrange(a as int, b as int)[i - a]));
            }
            return None;
        }
        let ghost pre = v@.subrange(a as int, i as int);
        let ghost next = v@.subrange(a as int, i + 1);
        proof {
            assert(next.drop_last() =~= pre);
            assert(next.last() == c);
        }
        let d = (c as u32) - ('0' as u32);
        if acc <= 1000 {
            let n = acc * 10 + d;
            acc = if n > 1000 {
                1001
            } else {
                n
            };
        }
        i += 1;
    }
    proof {
        let s = v@.subrange(a as int, b as int);
        assert forall|k: int| 0 <= k < s.len() implies is_digit(#[trigger] s[k]) by {
            assert(s[k] == v@[a + k]);
        }
    }
    Some(acc)
}

/// Whether `v[a..b]` is a number from `lo` to `hi`.
fn number_in_exec(v: &Vec<char>, a: usize, b: usize, lo: u32, hi: u32) -> (res: bool)
    requires
        a <= b <= v@.len(),
        hi <= 1000,
    ensures
        res == number_in(v@.subrange(a as int, b as int), lo as int, hi as int),
{
    match parse_bounded(v, a, b) {
        Some(x) => lo <= x && x <= hi,
        None => false,
    }
}

/// Whether `v[a..b]` is a valid base.
fn cron_base_exec(v: &Vec<char>, a: usize, b: usize, lo: u32, hi: u32) -> (res: bool)
    requires
        a <= b <= v@.len(),
        hi <= 1000,
    ensures
        res == cron_base_valid(v@.subrange(a as int, b as int), lo as int, hi as int),
{
    let ghost s = v@.subrange(a as int, b as int);
    if b > a && b - a == 1 && v[a] == '*' {
        assert(s =~= seq!['*']);
        return true;
    }
    assert(s != seq!['*']) by {
        if s == seq!['*'] {
            assert(s.len() == 1);
            assert(s[0] == v@[a as int]);
        }
    }
    match find_char(v, a, b, '-') {
        None => number_in_exec(v, a, b, lo, hi),
        Some(d) => {
            assert(s.take(d - a) =~= v@.subrange(a as int, d as int));
            assert(s.skip(d - a + 1) =~= v@.subrange(d + 1, b as int));
            match (parse_bounded(v, a, d), parse_bounded(v, d + 1, b)) {
                (Some(x), Some(y)) => lo <= x && x <= hi && lo <= y && y <= hi && x <= y,
                _ => false,
            }
        },
    }
}

/// Whether `v[a..b]` is a valid item.
fn cron_item_exec(v: &Vec<char>, a: usize, b: usize, lo: u32, hi: u32) -> (res: bool)
    requires
        a <= b <= v@.len(),
        hi <= 1000,
    ensures
        res == cron_item_valid(v@.subrange(a as int, b as int), lo as int, hi as int),
{
    let ghost s = v@.subrange(a as int, b as int);
    match find_char(v, a, b, '/') {
        None => cron_base_exec(v, a, b, lo, hi),
        Some(k) => {
            assert(s.take(k - a) =~= v@.subrange(a as int, k as int));
            assert(s.skip(k - a + 1) =~= v@.subrange(k + 1, b as int));
            cron_base_exec(v, a, k, lo, hi) && number_in_exec(v, k + 1, b, 1, hi)
        },
    }
}

/// Whether `v[a..b]` is a valid field.
fn cron_field_exec(v: &Vec<char>, a: usize, b: usize, lo: u32, hi: u32) -> (res: bool)
    requires
        a <= b <= v@.len(),
        hi <= 1000,
    ensures
        res == cron_field_valid(v@.subrange(a as int, b as int), lo as int, hi as int),
    decreases b - a,
{
    let ghost s = v@.subrange(a as int, b as int);
    match find_char(v, a, b, ',') {
        None => cron_item_exec(v, a, b, lo, hi),
        Some(c) => {
            assert(s.take(c - a) =~= v@.subrange(a as int, c as int));
            assert(s.skip(c - a + 1) =~= v@.subrange(c + 1, b as int));
            cron_item_exec(v, a, c, lo, hi) && cron_field_exec(v, c + 1, b, lo, hi)
        },
    }
}

/// The bounds of field `k`.
fn field_bounds(k: usize) -> (res: (u32, u32))
    requires
        k < 5,
    ensures
        res.0 == field_lo(k as int),
        res.1 == field_hi(k as int),
{
    if k == 0 {
        (0, 59)
    } else if k == 1 {
        (0, 23)
    } else if k == 2 {
        (1, 31)
    } else if k == 3 {
        (1, 12)
    } else {
        (0, 7)
    }
}

/// Skipping whitespace does not change the words.
proof fn lemma_words_skip_ws(s: Seq<char>, i: int)
    requires
        0 <= i <= s.len(),
        forall|k: int| 0 <= k < i ==> is_ws(#[trigger] s[k]),
    ensures
        cron_words(s) == cron_words(s.skip(i)),
    decreases i,
{
    if i > 0 {
        assert(s.drop_first() =~= s.skip(1));
        assert forall|k: int| 0 <= k < i - 1 implies is_ws(#[trigger] s.drop_first()[k]) by {
            assert(s.drop_first()[k] == s[k + 1]);
        }
        lemma_words_skip_ws(s.drop_first(), i - 1);
        assert(s.drop_first().skip(i - 1) =~= s.skip(i));
        assert(trim_start_seq(s) == trim_start_seq(s.drop_first()));
    } else {
        assert(s.skip(0) =~= s);
    }
}

/// A word that starts at the beginning of `s` and ends at `j`.
proof fn lemma_words_first(s: Seq<char>, j: int)
    requires
        0 < j <= s.len(),
        !is_ws(s[0]),
        forall|k: int| 0 <= k < j ==> !is_ws(#[trigger] s[k]),
        j < s.len() ==> is_ws(s[j]),
    ensures
        cron_words(s) == seq![s.take(j)] + cron_words(s.skip(j)),
{
    assert(trim_start_seq(s) == s);
    lemma_first_index_scan(s, is_ws_pred(), j);
    if j == s.len() {
        assert(s.take(j) =~= s);
        assert(trim_start_seq(s.skip(j)) == s.skip(j));
        assert(cron_words(s.skip(j)) =~= Seq::<Seq<char>>::empty());
    }
}

/// Whether `expr` is a valid five-field cron expression.
pub fn cron_expression_is_valid(expr: &str) -> (res: bool)
    ensures
        res == cron_expression_valid(expr@),
{
    let v = chars_of(expr);
    let n = v.len();
    let ghost mut done: Seq<Seq<char>> = seq![];
    let mut count: usize = 0;
    let mut ok = true;
    let mut a: usize = 0;
    assert(v@.skip(0) =~= v@);
    assert(done + cron_words(v@.skip(0)) =~= cron_words(expr@));
    while a < n
        invariant
            v@ == expr@,
            n == v@.len(),
            a <= n,
            count == done.len(),
            count <= 5,
            cron_words(expr@) == done + cron_words(v@.skip(a as int)),
            ok == forall|k: int| 0 <= k < count ==> cron_field_valid(#[trigger] done[k], field_lo(k), field_hi(k)),
        decreases n - a,
    {
        let mut i = a;
        while i < n && is_whitespace_char(v[i])
            invariant
                a <= i <= n,
                n == v@.len(),
                forall|k: int| a <= k < i ==> is_ws(#[trigger] v@[k]),
            decreases n - i,
        {
            i += 1;
        }
        proof {
            let t = v@.skip(a as int);
            assert forall|k: int| 0 <= k < i - a implies is_ws(#[trigger] t[k]) by {
                assert(t[k] == v@[a + k]);
            }
            lemma_words_skip_ws(t, i - a);
            assert(t.skip(i - a) =~= v@.skip(i as int));
        }
        if i == n {
            proof {
                assert(v@.skip(n as int) =~= Seq::<char>::empty());
                assert(cron_words(v@.skip(n as int)) =~= Seq::<Seq<char>>::empty());
                assert(done + cron_words(v@.skip(n as int)) =~= done);
            }
            a = i;
            continue;
        }
        let mut j = i + 1;
        while j < n && !is_whitespace_char(v[j])
            invariant
                i < j <= n,
                n == v@.len(),
                forall|k: int| i < k < j ==> !is_ws(#[trigger] v@[k]),
            decreases n - j,
        {
            j += 1;
        }
        let ghost word = v@.subrange(i as int, j as int);
        proof {
            let t = v@.skip(i as int);
            assert forall|k: int| 0 <= k < j - i implies !is_ws(#[trigger] t[k]) by {
                assert(t[k] == v@[i + k]);
            }
            lemma_words_first(t, j - i);
            assert(t.take(j - i) =~= word);
            assert(t.skip(j - i) =~= v@.skip(j as int));
            assert(done + cron_words(t) =~= done.push(word) + cron_words(v@.skip(j as int)));
        }
        if count == 5 {
            proof {
                assert(cron_words(expr@).len() > 5);
            }
            return false;
        }
        let (lo, hi) = field_bounds(count);
        let valid = cron_field_exec(&v, i, j, lo, hi);
        let ghost old_done = done;
        let ghost old_ok = ok;
        proof {
            done = done.push(word);
        }
        ok = ok && valid;
        proof {
            assert(done[count as int] == word);
            assert(forall|k: int| 0 <= k < count ==> done[k] == old_done[k]);
            if ok {
                assert forall|k: int| 0 <= k < count + 1 implies cron_field_valid(
                    #[trigger] done[k],
                    field_lo(k),
                    field_hi(k),
                ) by {
                    if k < count {
                        assert(done[k] == old_done[k]);
                    }
                }
            } else if !old_ok {
                let k = choose|k: int|
                    0 <= k < count && !cron_field_valid(#[trigger] old_done[k], field_lo(k), field_hi(k));
                assert(done[k] == old_done[k]);
            } else {
                assert(!cron_field_valid(done[count as int], field_lo(count as int), field_hi(count as int)));
            }
        }
        count += 1;
        a = j;
    }
    proof {
        if a == n {
            assert(v@.skip(n as int) =~= Seq::<char>::empty());
            assert(cron_words(v@.skip(n as int)) =~= Seq::<Seq<char>>::empty());
            assert(done + cron_words(v@.skip(n as int)) =~= done);
        }
    }
    count == 5 && ok
}

/// The settings of the background tasks that a change can touch.
pub struct BackgroundTasksSettings {
    pub warmup_cron_enabled: bool,
    pub warmup_cron_expression: String,
}

/// A change of the background-task settings; an absent field is left as it is.
#[derive(Debug, Clone, Default)]
pub struct BackgroundTasksSettingsPatch {
    pub warmup_cron_enabled: Option<bool>,
    pub warmup_cron_expression: Option<String>,
}

/// The settings after a change.
pub open spec fn patched(
    settings: BackgroundTasksSettings,
    patch: BackgroundTasksSettingsPatch,
) -> (bool, Seq<char>) {
    (
        match patch.warmup_cron_enabled {
            Some(e) => e,
            None => settings.warmup_cron_enabled,
        },
        match patch.warmup_cron_expression {
            Some(e) => e@,
            None => settings.warmup_cron_expression@,
        },
    )
}

/// The error for an enabled schedule without an expression.
pub open spec fn cron_required_message() -> Seq<char> {
    "warmup cron expression is required when the warmup schedule is enabled"@
}

/// The error for an expression that is not a valid cron expression.
pub open spec fn cron_invalid_message(expr: Seq<char>) -> Seq<char> {
    "invalid warmup cron expression: "@ + expr
}

/// What checking a change gives: the trimmed expression the change leaves must be
/// a valid cron expression when the change sets it or the schedule is enabled,
/// and must not be blank when the schedule is enabled.
pub open spec fn patch_check(settings: BackgroundTasksSettings, patch: BackgroundTasksSettingsPatch) -> Result<
    (),
    Seq<char>,
> {
    let (enabled, raw) = patched(settings, patch);
    let expr = trim_seq(raw);
    if expr.len() > 0 && (patch.warmup_cron_expression is Some || enabled) && !cron_expression_valid(
        expr,
    ) {
        Err(cron_invalid_message(expr))
    } else if expr.len() == 0 && enabled {
        Err(cron_required_message())
    } else {
        Ok(())
    }
}

/// Checks a change of the background-task settings against the current ones.
pub fn validate_background_tasks_settings_patch(
    settings: &BackgroundTasksSettings,
    patch: &BackgroundTasksSettingsPatch,
) -> (res: Result<(), String>)
    ensures
        match patch_check(*settings, *patch) {
            Ok(()) => res is Ok,
            Err(m) => res matches Err(e) && e@ == m,
        },
{
    let enabled = match patch.warmup_cron_enabled {
        Some(e) => e,
        None => settings.warmup_cron_enabled,
    };
    let expr = match &patch.warmup_cron_expression {
        Some(e) => trim(e.as_str()),
        None => trim(settings.warmup_cron_expression.as_str()),
    };
    let blank = expr.as_str().is_empty();
    if !blank && (patch.warmup_cron_expression.is_some() || enabled) && !cron_expression_is_valid(
        expr.as_str(),
    ) {
        return Err(concat_str("invalid warmup cron expression: ", expr.as_str()));
    }
    if blank && enabled {
        return Err("warmup cron expression is required when the warmup schedule is enabled".to_owned());
    }
    Ok(())
}

/// Applies a change to the background-task settings.
pub fn set_background_tasks_settings(
    settings: &mut BackgroundTasksSettings,
    patch: BackgroundTasksSettingsPatch,
)
    ensures
        (final(settings).warmup_cron_enabled, final(settings).warmup_cron_expression@) == patched(
            *old(settings),
            patch,
        ),
{
    if let Some(e) = patch.warmup_cron_enabled {
        settings.warmup_cron_enabled = e;
    }
    if let Some(e) = patch.warmup_cron_expression {
        settings.warmup_cron_expression = e;
    }
}

} // verus!
