use codexmanager::app_manager::{create_app_user, set_api_key_owner, set_distribution_enabled, wallet_top_up, AppUserCreateInput};
use codexmanager::billing_rules::{
    billing_model_matches, billing_rule_active, billing_rule_matches, billing_rule_scope_score,
    book_request_charge, matches_optional_text, request_charge_target, resolve_billing_rule_for_request,
    wildcard_matches,
};
use codexmanager::storage::{ApiKeyOwner, BillingRule, Storage};

fn rule(id: &str) -> BillingRule {
    BillingRule {
        id: id.to_string(),
        name: format!("rule {id}"),
        api_key_id: None,
        user_id: None,
        project_id: None,
        service_tier: None,
        model_pattern: None,
        multiplier_millis: 1_000,
        priority: 0,
        enabled: true,
        starts_at: None,
        ends_at: None,
        updated_at: 0,
    }
}

fn project_owner(key: &str, project: &str) -> ApiKeyOwner {
    ApiKeyOwner {
        key_id: key.to_string(),
        owner_kind: "project".to_string(),
        owner_user_id: None,
        project_id: Some(project.to_string()),
        updated_at: 0,
    }
}

#[test]
fn wildcard_star_matches_any_run() {
    assert!(wildcard_matches("gpt-*", "gpt-5.4"));
    assert!(wildcard_matches("*", ""));
    assert!(wildcard_matches("a*b*c", "aXXbYc"));
    assert!(wildcard_matches("*mini", "gpt-5.4-mini"));
    assert!(!wildcard_matches("*mini", "gpt-5.4-mini-x"));
    assert!(!wildcard_matches("gpt-?", "gpt-5"));
    assert!(wildcard_matches("", ""));
    assert!(!wildcard_matches("", "a"));
    assert!(!wildcard_matches("abc", "ab"));
}

#[test]
fn optional_scope_values_match_ignoring_case_and_space() {
    assert!(matches_optional_text(None, None));
    assert!(matches_optional_text(Some("  "), Some("x")));
    assert!(matches_optional_text(Some(" Key-1 "), Some("key-1")));
    assert!(!matches_optional_text(Some("key-1"), None));
    assert!(!matches_optional_text(Some("key-1"), Some("   ")));
    assert!(!matches_optional_text(Some("key-1"), Some("key-2")));
}

#[test]
fn model_patterns_use_prefix_or_wildcard() {
    assert!(billing_model_matches(None, None));
    assert!(billing_model_matches(Some(" * "), None));
    assert!(!billing_model_matches(Some("gpt-5"), None));
    assert!(!billing_model_matches(Some("gpt-5"), Some("Unknown")));
    assert!(billing_model_matches(Some("GPT-5"), Some(" gpt-5.4-mini ")));
    assert!(!billing_model_matches(Some("gpt-5.5"), Some("gpt-5.4")));
    assert!(billing_model_matches(Some("gpt-*-mini"), Some("GPT-5.4-MINI")));
    assert!(!billing_model_matches(Some("gpt-*-mini"), Some("gpt-5.4")));
}

#[test]
fn scope_score_counts_set_fields() {
    let mut r = rule("r");
    assert_eq!(billing_rule_scope_score(&r), 0);
    r.api_key_id = Some("k".into());
    r.user_id = Some("   ".into());
    r.model_pattern = Some("gpt".into());
    assert_eq!(billing_rule_scope_score(&r), 2);
}

#[test]
fn rules_apply_in_their_window_and_scope() {
    let mut r = rule("r");
    r.starts_at = Some(10);
    r.ends_at = Some(20);
    assert!(!billing_rule_active(&r, 9));
    assert!(billing_rule_active(&r, 10));
    assert!(!billing_rule_active(&r, 20));
    r.enabled = false;
    assert!(!billing_rule_active(&r, 15));
    let owner = project_owner("k1", "p1");
    let mut s = rule("s");
    s.project_id = Some("P1".into());
    s.service_tier = Some("flex".into());
    assert!(billing_rule_matches(&s, "k1", &owner, Some("gpt-5"), Some("FLEX")));
    assert!(!billing_rule_matches(&s, "k1", &owner, Some("gpt-5"), None));
}

#[test]
fn greatest_rule_wins_and_last_wins_ties() {
    let mut store = Storage::new();
    let owner = project_owner("k1", "p1");
    let mut low = rule("low");
    low.priority = 1;
    let mut scoped = rule("scoped");
    scoped.priority = 1;
    scoped.api_key_id = Some("k1".into());
    let mut tie = rule("tie");
    tie.priority = 1;
    tie.api_key_id = Some("k1".into());
    let mut other = rule("other");
    other.priority = 9;
    other.api_key_id = Some("k2".into());
    store.billing_rules = vec![low, scoped, tie, other];
    let r = resolve_billing_rule_for_request(&store, "k1", &owner, Some("gpt-5"), None, 0).unwrap();
    assert_eq!(r.map(|r| r.id), Some("tie".to_string()));
    store.billing_rules[2].updated_at = -1;
    let r = resolve_billing_rule_for_request(&store, "k1", &owner, Some("gpt-5"), None, 0).unwrap();
    assert_eq!(r.map(|r| r.id), Some("scoped".to_string()));
    let r = resolve_billing_rule_for_request(&store, "k3", &owner, None, None, 0).unwrap();
    assert_eq!(r.map(|r| r.id), Some("low".to_string()));
    store.billing_rules.clear();
    assert_eq!(resolve_billing_rule_for_request(&store, "k1", &owner, None, None, 0).unwrap(), None);
}

#[test]
fn longer_pattern_breaks_priority_ties() {
    let mut store = Storage::new();
    let owner = project_owner("k1", "p1");
    let mut short = rule("short");
    short.model_pattern = Some("gpt".into());
    let mut long = rule("long");
    long.model_pattern = Some("gpt-5".into());
    store.billing_rules = vec![long, short];
    let r = resolve_billing_rule_for_request(&store, "k1", &owner, Some("gpt-5.4"), None, 0).unwrap();
    assert_eq!(r.map(|r| r.id), Some("long".to_string()));
}

#[test]
fn request_charge_is_booked_with_the_winning_rule() {
    let mut store = Storage::new();
    store.add_api_key("k1".to_string());
    assert_eq!(request_charge_target(&store, Some("k1"), None, None, 0).unwrap().is_none(), true);
    set_distribution_enabled(&mut store, true).unwrap();
    assert!(request_charge_target(&store, Some("  "), None, None, 0).unwrap().is_none());
    assert_eq!(
        request_charge_target(&store, Some("k1"), None, None, 0).err(),
        Some("API Key 未分配额度归属".to_string())
    );
    set_api_key_owner(&mut store, "k1", "project", None, Some("p1")).unwrap();
    wallet_top_up(&mut store, "project", "p1", 5_000, None, None).unwrap();
    let mut r = rule("half");
    r.name = "half price".into();
    r.multiplier_millis = 500;
    store.billing_rules.push(r);
    let target = request_charge_target(&store, Some(" k1 "), Some("gpt-5"), None, 0)
        .unwrap()
        .unwrap();
    assert_eq!(target.key_id, "k1");
    assert_eq!(target.multiplier_millis, 500);
    assert_eq!(target.rule.as_ref().map(|r| r.id.as_str()), Some("half"));
    assert_eq!(book_request_charge(&mut store, &target, 7, 0, None, 100).unwrap(), None);
    let entry = book_request_charge(&mut store, &target, 7, 1_200, Some("{}".into()), 100)
        .unwrap()
        .unwrap();
    assert_eq!(entry.amount_credit_micros, -1_200);
    assert_eq!(entry.balance_after_credit_micros, 3_800);
    assert_eq!(entry.entry_kind, "request_charge");
    assert_eq!(entry.pricing_rule_id.as_deref(), Some("half"));
    assert_eq!(entry.note.as_deref(), Some("billing_rule=half price"));
    assert_eq!(entry.request_log_id, Some(7));
    assert!(entry.id.starts_with("wl_"));
    assert_eq!(store.wallets[0].balance_credit_micros, 3_800);
}

#[test]
fn negative_multiplier_counts_as_zero_and_user_owner_needs_a_member() {
    let mut store = Storage::new();
    store.add_api_key("k1".to_string());
    set_distribution_enabled(&mut store, true).unwrap();
    let user = create_app_user(
        &mut store,
        AppUserCreateInput {
            username: "member1".into(),
            password: "password123".into(),
            initial_balance_credit_micros: Some(10),
            ..Default::default()
        },
    )
    .unwrap();
    set_api_key_owner(&mut store, "k1", "user", Some(&user.id), None).unwrap();
    let mut r = rule("neg");
    r.multiplier_millis = -5;
    store.billing_rules.push(r);
    let target = request_charge_target(&store, Some("k1"), None, None, 0).unwrap().unwrap();
    assert_eq!(target.multiplier_millis, 0);
    let mut missing = target;
    missing.wallet_id = "nope".into();
    assert_eq!(
        book_request_charge(&mut store, &missing, 1, 5, None, 0),
        Err("charge wallet failed: wallet not found".to_string())
    );
}
