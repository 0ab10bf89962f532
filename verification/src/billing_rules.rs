//! Billing rules: which rule applies to a request, and booking a request's charge
//! on the wallet of its API key's owner.
//!
//! A rule applies when it is enabled and in its time window, and each of its scope
//! fields is unset or blank or equal (trimmed, ignoring ASCII case) to the
//! request's value; its model pattern, when set, must match the model. Of the
//! rules that apply, the one with the greatest priority wins, then the one with
//! more scope fields set, then the longer model pattern, then the later update;
//! on a complete tie the one listed last wins.
use vstd::prelude::*;
use vstd::utf8::encode_utf8;
use crate::app_manager::{
    billing_target, billing_target_spec, distribution_enabled_for_storage, distribution_on_for_billing,
    fails_with, AppError, StorageStep,
};
use crate::crypto::{generate_id, is_generated_id};
use crate::storage::{
    copy_opt_string, lemma_ledger_id_drawn, wallet_id_is, ApiKeyOwner, AppWallet, AppWalletLedgerEntry, BillingRule, Storage,
    StorageError,
};
use crate::table::first_index;
use crate::text::{
    chars_of, concat_str, eq_ignore_ascii_case, eq_ignore_case, has_prefix, lower_seq, normalize_optional_seq,
    normalize_optional_text, opt_str_view, opt_view, starts_with, str_equal, to_ascii_lowercase,
};

verus! {

/// `pattern` matches `text`, where `*` in the pattern stands for any run of
/// characters and every other character stands for itself.
pub open spec fn glob_match(pattern: Seq<char>, text: Seq<char>) -> bool
    decreases pattern.len(), text.len(),
{
    if pattern.len() == 0 {
        text.len() == 0
    } else if pattern[0] == '*' {
        glob_match(pattern.drop_first(), text) || (text.len() > 0 && glob_match(
            pattern,
            text.drop_first(),
        ))
    } else {
        text.len() > 0 && text[0] == pattern[0] && glob_match(pattern.drop_first(), text.drop_first())
    }
}

/// One step of `glob_match` on suffixes of the pattern and the text.
proof fn lemma_glob_step(p: Seq<char>, s: Seq<char>, i: int, j: int)
    requires
        0 <= i < p.len(),
        0 <= j <= s.len(),
    ensures
        glob_match(p.skip(i), s.skip(j)) == if p[i] == '*' {
            glob_match(p.skip(i + 1), s.skip(j)) || (j < s.len() && glob_match(p.skip(i), s.skip(j + 1)))
        } else {
            j < s.len() && s[j] == p[i] && glob_match(p.skip(i + 1), s.skip(j + 1))
        },
{
    assert(p.skip(i).drop_first() =~= p.skip(i + 1));
    assert(p.skip(i)[0] == p[i]);
    if j < s.len() {
        assert(s.skip(j).drop_first() =~= s.skip(j + 1));
        assert(s.skip(j)[0] == s[j]);
    }
}

/// Whether `pattern` matches `text`, `*` standing for any run of characters.
pub fn wildcard_matches(pattern: &str, text: &str) -> (res: bool)
    ensures
        res == glob_match(pattern@, text@),
{
    let p = chars_of(pattern);
    let s = chars_of(text);
    let n = s.len();
    let ghost ps = p@;
    let ghost ss = s@;
    proof {
        assert(ps.skip(ps.len() as int) =~= Seq::<char>::empty());
        assert(ss.skip(n as int) =~= Seq::<char>::empty());
    }
    // row@[j] is whether the pattern from `i` on matches the text from `j` on (j < n);
    // `end` is whether it matches the empty rest of the text.
    let mut row: Vec<bool> = Vec::new();
    let mut k: usize = 0;
    while k < n
        invariant
            k <= n,
            n == ss.len(),
            row@.len() == k,
            ps.skip(ps.len() as int) == Seq::<char>::empty(),
            forall|j: int| 0 <= j < k ==> row@[j] == glob_match(ps.skip(ps.len() as int), ss.skip(j)),
        decreases n - k,
    {
        proof {
            assert(ss.skip(k as int).len() > 0);
        }
        row.push(false);
        k += 1;
    }
    let mut end = true;
    let mut i: usize = p.len();
    while i > 0
        invariant
            i <= ps.len(),
            p@ == ps,
            s@ == ss,
            n == ss.len(),
            row@.len() == n,
            end == glob_match(ps.skip(i as int), ss.skip(n as int)),
            forall|j: int| 0 <= j < n ==> row@[j] == glob_match(ps.skip(i as int), ss.skip(j)),
        decreases i,
    {
        i -= 1;
        let c = p[i];
        proof {
            lemma_glob_step(ps, ss, i as int, n as int);
        }
        let new_end = if c == '*' {
            end
        } else {
            false
        };
        let mut next: Vec<bool> = Vec::new();
        let mut k: usize = 0;
        while k < n
            invariant
                k <= n,
                next@.len() == k,
            decreases n - k,
        {
            next.push(false);
            k += 1;
        }
        let mut j: usize = n;
        while j > 0
            invariant
                i < ps.len(),
                p@ == ps,
                s@ == ss,
                n == ss.len(),
                c == ps[i as int],
                j <= n,
                row@.len() == n,
                next@.len() == n,
                end == glob_match(ps.skip(i + 1), ss.skip(n as int)),
                new_end == glob_match(ps.skip(i as int), ss.skip(n as int)),
                forall|t: int| 0 <= t < n ==> row@[t] == glob_match(ps.skip(i + 1), ss.skip(t)),
                forall|t: int| j <= t < n ==> next@[t] == glob_match(ps.skip(i as int), ss.skip(t)),
            decreases j,
        {
            j -= 1;
            proof {
                lemma_glob_step(ps, ss, i as int, j as int);
            }
            let v = if c == '*' {
                let later = if j + 1 < n {
                    next[j + 1]
                } else {
                    new_end
                };
                row[j] || later
            } else {
                let later = if j + 1 < n {
                    row[j + 1]
                } else {
                    end
                };
                s[j] == c && later
            };
            next.set(j, v);
        }
        row = next;
        end = new_end;
    }
    proof {
        assert(ps.skip(0) =~= ps);
        assert(ss.skip(0) =~= ss);
    }
    if n == 0 {
        end
    } else {
        row[0]
    }
}

/// Whether `c` occurs in `s`.
fn contains_char(s: &str, c: char) -> (res: bool)
    ensures
        res == s@.contains(c),
{
    let v = chars_of(s);
    let mut i: usize = 0;
    while i < v.len()
        invariant
            v@ == s@,
            0 <= i <= v@.len(),
            forall|k: int| 0 <= k < i ==> v@[k] != c,
        decreases v@.len() - i,
    {
        if v[i] == c {
            assert(s@[i as int] == c);
            return true;
        }
        i += 1;
    }
    false
}

/// A rule's scope value admits the request's value: a rule value that is unset or
/// blank admits anything; otherwise the request's value must be set, not blank,
/// and equal to it after trimming, ignoring ASCII case.
pub open spec fn matches_optional_spec(rule_value: Option<Seq<char>>, context_value: Option<Seq<char>>) -> bool {
    match normalize_optional_seq(rule_value) {
        None => true,
        Some(r) => match normalize_optional_seq(context_value) {
            None => false,
            Some(c) => eq_ignore_case(c, r),
        },
    }
}

/// Whether a rule's scope value admits the request's value.
pub fn matches_optional_text(rule_value: Option<&str>, context_value: Option<&str>) -> (res: bool)
    ensures
        res == matches_optional_spec(opt_str_view(rule_value), opt_str_view(context_value)),
{
    match normalize_optional_text(rule_value) {
        None => true,
        Some(r) => match normalize_optional_text(context_value) {
            None => false,
            Some(c) => eq_ignore_ascii_case(c.as_str(), r.as_str()),
        },
    }
}

/// A rule's model pattern admits the model: an unset, blank or `*` pattern admits
/// any model; otherwise the model must be set, not blank and not `unknown`, and,
/// both trimmed and in ASCII lowercase, the pattern must match it as a wildcard
/// pattern when it holds `*`, or be a prefix of it.
pub open spec fn billing_model_spec(pattern: Option<Seq<char>>, model: Option<Seq<char>>) -> bool {
    match normalize_optional_seq(pattern) {
        None => true,
        Some(p) => if p == "*"@ {
            true
        } else {
            match normalize_optional_seq(model) {
                None => false,
                Some(m) => if eq_ignore_case(m, "unknown"@) {
                    false
                } else if lower_seq(p).contains('*') {
                    glob_match(lower_seq(p), lower_seq(m))
                } else {
                    has_prefix(lower_seq(m), lower_seq(p))
                },
            }
        },
    }
}

/// Whether a rule's model pattern admits the model.
pub fn billing_model_matches(rule_pattern: Option<&str>, model: Option<&str>) -> (res: bool)
    ensures
        res == billing_model_spec(opt_str_view(rule_pattern), opt_str_view(model)),
{
    let pattern = match normalize_optional_text(rule_pattern) {
        None => {
            return true;
        },
        Some(p) => p,
    };
    if str_equal(pattern.as_str(), "*") {
        return true;
    }
    let model = match normalize_optional_text(model) {
        None => {
            return false;
        },
        Some(m) => m,
    };
    if eq_ignore_ascii_case(model.as_str(), "unknown") {
        return false;
    }
    let lp = to_ascii_lowercase(pattern.as_str());
    let lm = to_ascii_lowercase(model.as_str());
    if contains_char(lp.as_str(), '*') {
        wildcard_matches(lp.as_str(), lm.as_str())
    } else {
        starts_with(lm.as_str(), lp.as_str())
    }
}

/// An optional text field that is set and not blank.
pub open spec fn is_set_text(o: Option<String>) -> bool {
    normalize_optional_seq(opt_view(o)) is Some
}

/// 1 for a set field, 0 otherwise.
pub open spec fn set_count(o: Option<String>) -> int {
    if is_set_text(o) {
        1
    } else {
        0
    }
}

/// How many of a rule's five scope fields are set.
pub open spec fn scope_score_spec(r: BillingRule) -> i64 {
    (set_count(r.api_key_id) + set_count(r.user_id) + set_count(r.project_id) + set_count(
        r.service_tier,
    ) + set_count(r.model_pattern)) as i64
}

/// The field as a string slice.
fn opt_as_str(o: &Option<String>) -> (res: Option<&str>)
    ensures
        opt_str_view(res) == opt_view(*o),
{
    match o {
        Some(s) => Some(s.as_str()),
        None => None,
    }
}

/// 1 when the field is set, 0 otherwise.
fn set_count_exec(o: &Option<String>) -> (res: i64)
    ensures
        res == set_count(*o),
{
    match normalize_optional_text(opt_as_str(o)) {
        Some(_) => 1,
        None => 0,
    }
}

/// How many of a rule's five scope fields (key, user, project, service tier, model
/// pattern) are set and not blank.
pub fn billing_rule_scope_score(rule: &BillingRule) -> (res: i64)
    ensures
        res == scope_score_spec(*rule),
{
    set_count_exec(&rule.api_key_id) + set_count_exec(&rule.user_id) + set_count_exec(&rule.project_id)
        + set_count_exec(&rule.service_tier) + set_count_exec(&rule.model_pattern)
}

/// A rule applies to a request made with the key, billed to the owner, for the
/// model and service tier.
pub open spec fn rule_matches_spec(
    r: BillingRule,
    key_id: Seq<char>,
    owner: ApiKeyOwner,
    model: Option<Seq<char>>,
    service_tier: Option<Seq<char>>,
) -> bool {
    &&& matches_optional_spec(opt_view(r.api_key_id), Some(key_id))
    &&& matches_optional_spec(opt_view(r.user_id), opt_view(owner.owner_user_id))
    &&& matches_optional_spec(opt_view(r.project_id), opt_view(owner.project_id))
    &&& matches_optional_spec(opt_view(r.service_tier), service_tier)
    &&& billing_model_spec(opt_view(r.model_pattern), model)
}

/// Whether a rule applies to a request with the key, owner, model and tier.
pub fn billing_rule_matches(
    rule: &BillingRule,
    key_id: &str,
    owner: &ApiKeyOwner,
    model: Option<&str>,
    service_tier: Option<&str>,
) -> (res: bool)
    ensures
        res == rule_matches_spec(*rule, key_id@, *owner, opt_str_view(model), opt_str_view(service_tier)),
{
    if !matches_optional_text(opt_as_str(&rule.api_key_id), Some(key_id)) {
        return false;
    }
    if !matches_optional_text(opt_as_str(&rule.user_id), opt_as_str(&owner.owner_user_id)) {
        return false;
    }
    if !matches_optional_text(opt_as_str(&rule.project_id), opt_as_str(&owner.project_id)) {
        return false;
    }
    if !matches_optional_text(opt_as_str(&rule.service_tier), service_tier) {
        return false;
    }
    billing_model_matches(opt_as_str(&rule.model_pattern), model)
}

/// A rule is enabled and `now` lies in its time window.
pub open spec fn rule_active_at(r: BillingRule, now: i64) -> bool {
    &&& r.enabled
    &&& match r.starts_at {
        Some(t) => t <= now,
        None => true,
    }
    &&& match r.ends_at {
        Some(t) => now < t,
        None => true,
    }
}

/// Whether a rule is enabled and `now` lies in its time window.
pub fn billing_rule_active(rule: &BillingRule, now: i64) -> (res: bool)
    ensures
        res == rule_active_at(*rule, now),
{
    if !rule.enabled {
        return false;
    }
    let started = match rule.starts_at {
        Some(t) => t <= now,
        None => true,
    };
    let not_ended = match rule.ends_at {
        Some(t) => now < t,
        None => true,
    };
    started && not_ended
}

/// The length in UTF-8 bytes of a rule's model pattern as it is stored, 0 when unset.
pub open spec fn pattern_len_spec(r: BillingRule) -> i64 {
    match r.model_pattern {
        Some(p) => (encode_utf8(p@).len() as usize) as i64,
        None => 0,
    }
}

/// The sort key of a rule: priority, scope score, pattern length, update time.
pub open spec fn rule_key(r: BillingRule) -> (i64, i64, i64, i64) {
    (r.priority, scope_score_spec(r), pattern_len_spec(r), r.updated_at)
}

/// `a` sorts before `b`, comparing the components in order.
pub open spec fn key_lt(a: (i64, i64, i64, i64), b: (i64, i64, i64, i64)) -> bool {
    a.0 < b.0 || (a.0 == b.0 && (a.1 < b.1 || (a.1 == b.1 && (a.2 < b.2 || (a.2 == b.2 && a.3
        < b.3)))))
}

/// Whether `a` sorts before `b`.
fn key_lt_exec(a: (i64, i64, i64, i64), b: (i64, i64, i64, i64)) -> (res: bool)
    ensures
        res == key_lt(a, b),
{
    a.0 < b.0 || (a.0 == b.0 && (a.1 < b.1 || (a.1 == b.1 && (a.2 < b.2 || (a.2 == b.2 && a.3
        < b.3)))))
}

/// The sort key of a rule.
fn rule_key_exec(rule: &BillingRule) -> (res: (i64, i64, i64, i64))
    ensures
        res == rule_key(*rule),
{
    let len: i64 = match &rule.model_pattern {
        Some(p) => p.as_str().len() as i64,
        None => 0,
    };
    (rule.priority, billing_rule_scope_score(rule), len, rule.updated_at)
}

/// The rules that apply at `now` to a request with the key, owner, model and tier.
pub open spec fn eligible_for(
    now: i64,
    key_id: Seq<char>,
    owner: ApiKeyOwner,
    model: Option<Seq<char>>,
    service_tier: Option<Seq<char>>,
) -> spec_fn(BillingRule) -> bool {
    |r: BillingRule| rule_active_at(r, now) && rule_matches_spec(r, key_id, owner, model, service_tier)
}

/// `res` is the rule that wins among the eligible rules of `rules`: `None` when
/// none is eligible; otherwise an eligible rule whose key no eligible rule
/// exceeds, and which every eligible rule listed after it sorts before.
pub open spec fn chosen_rule(
    rules: Seq<BillingRule>,
    eligible: spec_fn(BillingRule) -> bool,
    res: Option<BillingRule>,
) -> bool {
    match res {
        None => forall|i: int| 0 <= i < rules.len() ==> !eligible(#[trigger] rules[i]),
        Some(r) => exists|k: int|
            {
                &&& 0 <= k < rules.len()
                &&& eligible(rules[k])
                &&& rules[k] == r
                &&& forall|i: int|
                    0 <= i < rules.len() && eligible(#[trigger] rules[i]) ==> if i <= k {
                        !key_lt(rule_key(r), rule_key(rules[i]))
                    } else {
                        key_lt(rule_key(rules[i]), rule_key(r))
                    }
            },
    }
}

/// A copy of a billing rule.
pub(crate) fn copy_rule(r: &BillingRule) -> (res: BillingRule)
    ensures
        res == *r,
{
    BillingRule {
        id: r.id.clone(),
        name: r.name.clone(),
        api_key_id: copy_opt_string(&r.api_key_id),
        user_id: copy_opt_string(&r.user_id),
        project_id: copy_opt_string(&r.project_id),
        service_tier: copy_opt_string(&r.service_tier),
        model_pattern: copy_opt_string(&r.model_pattern),
        multiplier_millis: r.multiplier_millis,
        priority: r.priority,
        enabled: r.enabled,
        starts_at: r.starts_at,
        ends_at: r.ends_at,
        updated_at: r.updated_at,
    }
}

/// The billing rule for a request made at `now` with the key, billed to the owner,
/// for the model and service tier: of the rules that apply, the greatest by
/// priority, scope score, pattern length and update time, the last listed on a tie.
pub fn resolve_billing_rule_for_request(
    store: &Storage,
    key_id: &str,
    owner: &ApiKeyOwner,
    model: Option<&str>,
    service_tier: Option<&str>,
    now: i64,
) -> (res: Result<Option<BillingRule>, String>)
    ensures
        res is Ok,
        chosen_rule(
            store.billing_rules@,
            eligible_for(now, key_id@, *owner, opt_str_view(model), opt_str_view(service_tier)),
            res->Ok_0,
        ),
{
    let ghost el = eligible_for(now, key_id@, *owner, opt_str_view(model), opt_str_view(service_tier));
    let rules = &store.billing_rules;
    let mut best: Option<usize> = None;
    let mut best_key: (i64, i64, i64, i64) = (0, 0, 0, 0);
    let mut i: usize = 0;
    while i < rules.len()
        invariant
            0 <= i <= rules@.len(),
            el == eligible_for(now, key_id@, *owner, opt_str_view(model), opt_str_view(service_tier)),
            match best {
                None => forall|t: int| 0 <= t < i ==> !el(#[trigger] rules@[t]),
                Some(k) => {
                    &&& k < i
                    &&& el(rules@[k as int])
                    &&& best_key == rule_key(rules@[k as int])
                    &&& forall|t: int|
                        0 <= t < i && el(#[trigger] rules@[t]) ==> if t <= k {
                            !key_lt(best_key, rule_key(rules@[t]))
                        } else {
                            key_lt(rule_key(rules@[t]), best_key)
                        }
                },
            },
        decreases rules@.len() - i,
    {
        let r = &rules[i];
        if billing_rule_active(r, now) && billing_rule_matches(r, key_id, owner, model, service_tier) {
            let key = rule_key_exec(r);
            let take = match best {
                None => true,
                Some(_) => !key_lt_exec(key, best_key),
            };
            if take {
                best = Some(i);
                best_key = key;
            }
        }
        i += 1;
    }
    match best {
        None => Ok(None),
        Some(k) => {
            let chosen = copy_rule(&rules[k]);
            assert(chosen_rule(rules@, el, Some(chosen)));
            Ok(Some(chosen))
        },
    }
}

/// Where a request's charge is booked, found before its amount is known: the
/// trimmed key, the wallet of the key's owner, the winning rule and the multiplier
/// in thousandths that the charge is scaled by.
#[derive(Debug, Clone)]
pub struct RequestChargeTarget {
    pub key_id: String,
    pub wallet_id: String,
    pub rule: Option<BillingRule>,
    pub multiplier_millis: i64,
}

/// The multiplier of a rule, negative ones counting as 0; 1000 without a rule.
pub open spec fn multiplier_spec(rule: Option<BillingRule>) -> i64 {
    match rule {
        Some(r) => if r.multiplier_millis < 0 {
            0
        } else {
            r.multiplier_millis
        },
        None => 1000,
    }
}

/// What finding the charge target of a request may give: nothing to charge while
/// distribution is off or without a key; the key's billing error; or the target
/// with the winning rule among the store's rules.
pub open spec fn charge_target_outcome(
    store: &Storage,
    key_id: Option<Seq<char>>,
    model: Option<Seq<char>>,
    service_tier: Option<Seq<char>>,
    now: i64,
    res: Result<Option<RequestChargeTarget>, String>,
) -> bool {
    if !distribution_on_for_billing(store) {
        res matches Ok(None)
    } else {
        match normalize_optional_seq(key_id) {
            None => res matches Ok(None),
            Some(k) => match billing_target_spec(store, k) {
                Err(e) => fails_with(res, e),
                Ok((o, w)) => res matches Ok(Some(t)) && t.key_id@ == k && t.wallet_id@ == w.id@
                    && chosen_rule(store.billing_rules@, eligible_for(now, k, o, model, service_tier), t.rule)
                    && t.multiplier_millis == multiplier_spec(t.rule),
            },
        }
    }
}

/// Where the charge of a request made at `now` with the key, for the model and
/// service tier, is booked: nothing while distribution is off or when the key is
/// absent or blank; otherwise the key's owner must have a usable wallet, and the
/// winning billing rule sets the multiplier.
pub fn request_charge_target(
    store: &Storage,
    key_id: Option<&str>,
    model: Option<&str>,
    service_tier: Option<&str>,
    now: i64,
) -> (res: Result<Option<RequestChargeTarget>, String>)
    ensures
        charge_target_outcome(
            store,
            opt_str_view(key_id),
            opt_str_view(model),
            opt_str_view(service_tier),
            now,
            res,
        ),
{
    if !distribution_enabled_for_storage(store) {
        return Ok(None);
    }
    let key = match normalize_optional_text(key_id) {
        None => {
            return Ok(None);
        },
        Some(k) => k,
    };
    let (owner, wallet) = match billing_target(store, key.as_str()) {
        Ok(t) => t,
        Err(e) => {
            return Err(e.message());
        },
    };
    let rule = match resolve_billing_rule_for_request(store, key.as_str(), &owner, model, service_tier, now) {
        Ok(r) => r,
        Err(e) => {
            return Err(e);
        },
    };
    let multiplier_millis = match &rule {
        Some(r) => if r.multiplier_millis < 0 {
            0
        } else {
            r.multiplier_millis
        },
        None => 1000,
    };
    Ok(Some(RequestChargeTarget { key_id: key, wallet_id: wallet.id, rule, multiplier_millis }))
}

/// The ledger entry of a request charge on the target's wallet.
pub open spec fn request_charge_entry(
    target: RequestChargeTarget,
    request_log_id: i64,
    charge: i64,
    raw_usage_json: Option<Seq<char>>,
    now: i64,
    e: AppWalletLedgerEntry,
) -> bool {
    &&& is_generated_id(e.id@, "wl"@, 8)
    &&& e.wallet_id@ == target.wallet_id@
    &&& e.entry_kind@ == "request_charge"@
    &&& e.amount_credit_micros == -charge
    &&& e.request_log_id == Some(request_log_id)
    &&& opt_view(e.api_key_id) == Some(target.key_id@)
    &&& opt_view(e.pricing_rule_id) == match target.rule {
        Some(r) => Some(r.id@),
        None => None::<Seq<char>>,
    }
    &&& opt_view(e.raw_usage_json) == raw_usage_json
    &&& opt_view(e.note) == match target.rule {
        Some(r) => Some("billing_rule="@ + r.name@),
        None => None::<Seq<char>>,
    }
    &&& e.created_by_user_id is None
    &&& e.created_at == now
}

/// Books a request's charge of `charge_micros` credit micros on the target's
/// wallet with a `request_charge` entry; a charge that is not positive books
/// nothing.
pub fn book_request_charge(
    store: &mut Storage,
    target: &RequestChargeTarget,
    request_log_id: i64,
    charge_micros: i64,
    raw_usage_json: Option<String>,
    now: i64,
) -> (res: Result<Option<AppWalletLedgerEntry>, String>)
    requires
        old(store).wallet_ids_unique(),
    ensures
        final(store).wallet_ids_unique(),
        charge_micros <= 0 ==> (res matches Ok(None) && *final(store) == *old(store)),
        charge_micros > 0 ==> ({
            let wi = first_index(old(store).wallets@, wallet_id_is(target.wallet_id@));
            let w = old(store).wallets@[wi];
            match res {
                Ok(Some(e)) => {
                    &&& wi >= 0
                    &&& request_charge_entry(*target, request_log_id, charge_micros, opt_view(raw_usage_json), now, e)
                    &&& e.balance_after_credit_micros == w.balance_credit_micros - charge_micros
                    &&& final(store).ledger@ == old(store).ledger@.push(e)
                    &&& final(store).wallets@ == old(store).wallets@.update(
                        wi,
                        AppWallet { balance_credit_micros: e.balance_after_credit_micros, updated_at: now, ..w },
                    )
                    &&& final(store).unchanged_except(old(store), false, false, true, true, false, false, false)
                },
                Ok(None) => false,
                Err(_) => {
                    &&& *final(store) == *old(store)
                    &&& exists|se: StorageError|
                        {
                            &&& fails_with(res, AppError::Storage(StorageStep::ChargeWallet, se))
                            &&& wi < 0 ==> se == StorageError::WalletNotFound
                            &&& wi >= 0 && w.balance_credit_micros - charge_micros >= i64::MIN ==> se
                                == StorageError::Duplicate
                            &&& se == StorageError::Duplicate ==> old(store).ledger_id_drawn("wl"@, 8)
                        }
                },
            }
        }),
        ({
            let wi = first_index(old(store).wallets@, wallet_id_is(target.wallet_id@));
            charge_micros > 0 && wi >= 0 && old(store).wallets@[wi].balance_credit_micros - charge_micros
                >= i64::MIN && !old(store).ledger_id_drawn("wl"@, 8) ==> res matches Ok(Some(_))
        }),
{
    if charge_micros <= 0 {
        return Ok(None);
    }
    let pricing_rule_id = match &target.rule {
        Some(r) => Some(r.id.clone()),
        None => None,
    };
    let note = match &target.rule {
        Some(r) => Some(concat_str("billing_rule=", r.name.as_str())),
        None => None,
    };
    let ledger = AppWalletLedgerEntry {
        id: generate_id("wl", 8),
        wallet_id: target.wallet_id.clone(),
        entry_kind: "request_charge".to_owned(),
        amount_credit_micros: -charge_micros,
        balance_after_credit_micros: 0,
        request_log_id: Some(request_log_id),
        api_key_id: Some(target.key_id.clone()),
        pricing_rule_id,
        raw_usage_json,
        note,
        created_by_user_id: None,
        created_at: now,
    };
    let ghost s0 = *store;
    match store.adjust_wallet_balance(&ledger) {
        Ok(e) => Ok(Some(e)),
        Err(e) => {
            proof {
                if e == StorageError::Duplicate {
                    lemma_ledger_id_drawn(&s0, ledger.id@, "wl"@, 8);
                }
            }
            let res: Result<Option<AppWalletLedgerEntry>, String> = Err(
                AppError::Storage(StorageStep::ChargeWallet, e).message(),
            );
            assert(fails_with(res, AppError::Storage(StorageStep::ChargeWallet, e)));
            res
        },
    }
}


/// Of the rules that apply, the winner has the greatest priority: no applicable
/// rule has a higher one, whatever its scope; among those of that priority, none
/// has more scope fields set.
pub proof fn law_highest_priority_wins(
    rules: Seq<BillingRule>,
    eligible: spec_fn(BillingRule) -> bool,
    winner: BillingRule,
)
    requires
        chosen_rule(rules, eligible, Some(winner)),
    ensures
        forall|i: int|
            0 <= i < rules.len() && eligible(#[trigger] rules[i]) ==> rules[i].priority <= winner.priority,
        forall|i: int|
            0 <= i < rules.len() && eligible(#[trigger] rules[i]) && rules[i].priority == winner.priority
                ==> scope_score_spec(rules[i]) <= scope_score_spec(winner),
{
}

} // verus!
