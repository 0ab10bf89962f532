use codexmanager::app_manager::{
    api_key_belongs_to_user, app_auth_status_value, app_session_result, bootstrap_app_admin,
    change_app_user_password, create_app_user, current_web_auth_mode, distribution_enabled,
    list_api_key_ids_for_user, list_api_key_owners, list_app_users, login_app_user,
    logout_app_user_session, parse_bool_with_default, resolve_app_user_session, set_api_key_owner,
    set_distribution_enabled, set_web_auth_mode, update_app_user, update_app_user_profile,
    wallet_precheck_for_api_key, wallet_top_up, AppUserCreateInput, AppUserUpdateInput, RpcActor,
    SESSION_TTL_SECONDS,
};
use codexmanager::crypto::{hash_password, token_hash, verify_password_hash};
use codexmanager::storage::Storage;

fn admin_store() -> (Storage, String) {
    let mut store = Storage::new();
    let login = bootstrap_app_admin(&mut store, " Admin ", "password123", Some("Boss")).unwrap();
    (store, login.user.id)
}

fn member(store: &mut Storage, name: &str, balance: Option<i64>) -> String {
    create_app_user(
        store,
        AppUserCreateInput {
            username: name.to_string(),
            password: "member-pass".to_string(),
            display_name: None,
            role: None,
            initial_balance_credit_micros: balance,
        },
    )
    .unwrap()
    .id
}

fn actor(id: &str) -> RpcActor {
    RpcActor { user_id: Some(id.to_string()), role: "member".to_string(), permissions: vec![] }
}

#[test]
fn bootstrap_creates_one_admin_and_then_refuses() {
    let (mut store, _) = admin_store();
    let users = list_app_users(&store).unwrap();
    assert_eq!(users.len(), 1);
    assert_eq!(users[0].username, "admin");
    assert_eq!(users[0].role, "admin");
    assert_eq!(users[0].display_name.as_deref(), Some("Boss"));
    assert!(users[0].wallet.is_none());
    assert_eq!(
        bootstrap_app_admin(&mut store, "other", "password123", None).err(),
        Some("管理员已初始化".to_string())
    );
}

#[test]
fn login_session_resolves_until_logout() {
    let (mut store, admin_id) = admin_store();
    let login = login_app_user(&mut store, "ADMIN", "password123").unwrap();
    assert!(login.token.starts_with("cms_"));
    assert_eq!(login.token.len(), 4 + 64);
    assert!(login.user.last_login_at.is_some());
    let resolved = resolve_app_user_session(&mut store, &format!(" {} ", login.token))
        .unwrap()
        .unwrap();
    assert_eq!(resolved.user.id, admin_id);
    assert_eq!(resolved.expires_at, login.expires_at);
    logout_app_user_session(&mut store, &login.token).unwrap();
    assert!(resolve_app_user_session(&mut store, &login.token).unwrap().is_none());
    assert!(resolve_app_user_session(&mut store, "   ").unwrap().is_none());
}

#[test]
fn sessions_last_fourteen_days() {
    assert_eq!(SESSION_TTL_SECONDS, 14 * 24 * 60 * 60);
}

#[test]
fn wrong_credentials_are_refused_alike() {
    let (mut store, _) = admin_store();
    assert_eq!(
        login_app_user(&mut store, "admin", "wrong-password").err(),
        Some("用户名或密码错误".to_string())
    );
    assert_eq!(
        login_app_user(&mut store, "nobody", "password123").err(),
        Some("用户名或密码错误".to_string())
    );
    assert_eq!(
        login_app_user(&mut store, "ab", "password123").err(),
        Some("用户名长度需要在 3 到 64 之间".to_string())
    );
}

#[test]
fn password_hash_round_trips() {
    let stored = hash_password("s3cret-pass");
    assert!(stored.starts_with("sha256$"));
    assert!(verify_password_hash("s3cret-pass", &stored));
    assert!(!verify_password_hash("other", &stored));
    assert!(!verify_password_hash("s3cret-pass", "plain"));
    assert_eq!(token_hash("abc").len(), 64);
}

#[test]
fn user_creation_validates_and_grants_credit() {
    let (mut store, _) = admin_store();
    let id = member(&mut store, "Member.One", Some(2_500));
    let users = list_app_users(&store).unwrap();
    let m = users.iter().find(|u| u.id == id).unwrap();
    assert_eq!(m.username, "member.one");
    assert_eq!(m.role, "member");
    assert_eq!(m.wallet.as_ref().unwrap().balance_credit_micros, 2_500);
    let dup = create_app_user(
        &mut store,
        AppUserCreateInput { username: "member.one".into(), password: "member-pass".into(), ..Default::default() },
    );
    assert_eq!(dup.err(), Some("用户名已存在".to_string()));
    let short = create_app_user(
        &mut store,
        AppUserCreateInput { username: "member2".into(), password: "short".into(), ..Default::default() },
    );
    assert_eq!(short.err(), Some("密码至少需要 8 位".to_string()));
    let bad = create_app_user(
        &mut store,
        AppUserCreateInput { username: "bad name".into(), password: "member-pass".into(), ..Default::default() },
    );
    assert_eq!(bad.err(), Some("用户名仅支持字母、数字、点、下划线和短横线".to_string()));
}

#[test]
fn last_active_admin_cannot_be_demoted_or_disabled() {
    let (mut store, admin_id) = admin_store();
    let demote = update_app_user(
        &mut store,
        AppUserUpdateInput { id: admin_id.clone(), role: Some("member".into()), ..Default::default() },
    );
    assert_eq!(demote.err(), Some("至少需要保留一个启用的管理员账号".to_string()));
    let disable = update_app_user(
        &mut store,
        AppUserUpdateInput { id: admin_id.clone(), status: Some("disabled".into()), ..Default::default() },
    );
    assert_eq!(disable.err(), Some("至少需要保留一个启用的管理员账号".to_string()));
    let renamed = update_app_user(
        &mut store,
        AppUserUpdateInput { id: admin_id, display_name: Some("Root".into()), ..Default::default() },
    )
    .unwrap();
    assert_eq!(renamed.display_name.as_deref(), Some("Root"));
    assert_eq!(
        update_app_user(&mut store, AppUserUpdateInput { id: "  ".into(), ..Default::default() }).err(),
        Some("用户 ID 不能为空".to_string())
    );
}

#[test]
fn profile_and_password_need_a_session_user() {
    let (mut store, admin_id) = admin_store();
    let anonymous = RpcActor::default();
    assert_eq!(
        update_app_user_profile(&mut store, &anonymous, Some("x")).err(),
        Some("permission_denied: profile requires user session".to_string())
    );
    let shown = update_app_user_profile(&mut store, &actor(&admin_id), Some("  New  ")).unwrap();
    assert_eq!(shown.display_name.as_deref(), Some("New"));
    assert_eq!(
        change_app_user_password(&mut store, &actor(&admin_id), "wrong-one", "new-password").err(),
        Some("当前密码不正确".to_string())
    );
    change_app_user_password(&mut store, &actor(&admin_id), "password123", "new-password").unwrap();
    assert!(login_app_user(&mut store, "admin", "new-password").is_ok());
    assert!(login_app_user(&mut store, "admin", "password123").is_err());
}

#[test]
fn top_up_adds_exactly_the_amount() {
    let (mut store, _) = admin_store();
    let id = member(&mut store, "member1", None);
    let w1 = wallet_top_up(&mut store, "user", &id, 700, Some(" gift "), None).unwrap();
    assert_eq!(w1.balance_credit_micros, 700);
    let w2 = wallet_top_up(&mut store, " USER ", &id, 300, None, None).unwrap();
    assert_eq!(w2.balance_credit_micros, 1_000);
    assert_eq!(w2.available_credit_micros, 1_000);
    assert_eq!(store.ledger.len(), 2);
    assert_eq!(store.ledger[0].note.as_deref(), Some("gift"));
    assert_eq!(
        wallet_top_up(&mut store, "user", &id, 0, None, None).err(),
        Some("充值金额必须大于 0".to_string())
    );
    assert_eq!(
        wallet_top_up(&mut store, "team", &id, 5, None, None).err(),
        Some("归属类型必须是 user 或 project".to_string())
    );
}

#[test]
fn key_ownership_lists_and_checks_agree() {
    let (mut store, admin_id) = admin_store();
    let id = member(&mut store, "member1", Some(50));
    store.add_api_key("key-b".to_string());
    store.add_api_key("key-a".to_string());
    assert_eq!(
        set_api_key_owner(&mut store, "missing", "user", Some(&id), None).err(),
        Some("API Key 不存在".to_string())
    );
    assert_eq!(
        set_api_key_owner(&mut store, "key-a", "user", Some(&admin_id), None).err(),
        Some("管理员账号不参与额度分发".to_string())
    );
    set_api_key_owner(&mut store, "key-b", "user", Some(&id), None).unwrap();
    set_api_key_owner(&mut store, "key-a", "user", Some(&id), None).unwrap();
    assert_eq!(list_api_key_ids_for_user(&store, &id).unwrap(), vec!["key-a", "key-b"]);
    assert!(api_key_belongs_to_user(&store, " key-a ", &id).unwrap());
    assert!(!api_key_belongs_to_user(&store, "key-a", "someone").unwrap());
    assert!(list_api_key_ids_for_user(&store, "  ").unwrap().is_empty());
    let owners = list_api_key_owners(&store).unwrap();
    assert_eq!(owners.len(), 2);
    assert_eq!(owners[0].key_id, "key-a");
}

#[test]
fn wallet_precheck_follows_the_distribution_switch() {
    let (mut store, _) = admin_store();
    store.add_api_key("k".to_string());
    assert!(wallet_precheck_for_api_key(&store, "k").is_ok());
    set_distribution_enabled(&mut store, true).unwrap();
    assert_eq!(
        wallet_precheck_for_api_key(&store, "k").err(),
        Some("API Key 未分配额度归属".to_string())
    );
    set_api_key_owner(&mut store, "k", "project", None, Some("p")).unwrap();
    assert_eq!(
        wallet_precheck_for_api_key(&store, "k").err(),
        Some("归属钱包余额不足".to_string())
    );
    wallet_top_up(&mut store, "project", "p", 1, None, None).unwrap();
    assert!(wallet_precheck_for_api_key(&store, "k").is_ok());
}

#[test]
fn settings_switches_and_status() {
    let (mut store, admin_id) = admin_store();
    assert_eq!(current_web_auth_mode(&store), "none");
    assert_eq!(
        set_web_auth_mode(&mut store, "password").err(),
        Some("启用访问密码模式前需要先设置访问密码".to_string())
    );
    assert_eq!(set_web_auth_mode(&mut store, " Accounts ").unwrap(), "accounts");
    assert_eq!(set_web_auth_mode(&mut store, "weird").unwrap(), "none");
    assert!(!distribution_enabled(&store));
    assert_eq!(set_distribution_enabled(&mut store, true), Ok(true));
    assert!(distribution_enabled(&store));
    let status = app_auth_status_value(&store).unwrap();
    assert_eq!(status.mode, "none");
    assert_eq!(status.mode_options, vec!["none", "password", "accounts"]);
    assert!(!status.password_configured);
    assert!(status.app_users_configured);
    assert_eq!(status.app_user_count, 1);
    assert_eq!(status.active_admin_count, 1);
    assert!(status.distribution_enabled);
    let session = app_session_result(&store, &actor(&admin_id)).unwrap();
    assert_eq!(session.current_user.unwrap().id, admin_id);
    assert_eq!(
        app_session_result(&store, &actor("ghost")).err(),
        Some("当前用户不存在".to_string())
    );
}

#[test]
fn boolean_settings_parse_common_words() {
    assert!(parse_bool_with_default(" YES ", false));
    assert!(!parse_bool_with_default("off", true));
    assert!(parse_bool_with_default("maybe", true));
    assert!(!parse_bool_with_default("", false));
}

#[test]
fn stored_web_auth_mode_reads_back() {
    let (mut store, _) = admin_store();
    let stored = set_web_auth_mode(&mut store, "  ACCOUNTS ").unwrap();
    assert_eq!(current_web_auth_mode(&store), stored);
    let stored = set_web_auth_mode(&mut store, "none").unwrap();
    assert_eq!(current_web_auth_mode(&store), stored);
}

#[test]
fn malformed_password_hashes_never_verify() {
    let stored = hash_password("pw-123456");
    assert!(!verify_password_hash("pw-123456", &format!("{stored}$extra")));
    assert!(!verify_password_hash("pw-123456", &stored.replacen("sha256", "md5", 1)));
    assert!(!verify_password_hash("pw-123456", ""));
}

#[test]
fn changed_password_replaces_the_old_one() {
    let (mut store, admin_id) = admin_store();
    change_app_user_password(&mut store, &actor(&admin_id), "password123", "another-pass").unwrap();
    let users = list_app_users(&store).unwrap();
    assert_eq!(users[0].username, "admin");
    assert_eq!(users[0].role, "admin");
    assert_eq!(users[0].display_name.as_deref(), Some("Boss"));
    assert!(login_app_user(&mut store, "admin", "password123").is_err());
}
