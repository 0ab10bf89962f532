//! Application accounts: the web authentication mode, users and their sessions,
//! credit wallets and the ownership of API keys.
use vstd::prelude::*;
use vstd::utf8::encode_utf8;
use vstd::seq_lib::to_multiset_contains;
use crate::crypto::{
    hex_seq, is_hex_char, lemma_hex_seq_len, generate_id, generate_session_token, hash_password, now_ts, password_hash_matches,
    token_hash, token_hash_spec, verify_password_hash, is_generated_id,
};
use crate::order::{key_in_prefix, keys_distinct, lex_le, sort_owners_by_key, sorted_by_key};
use crate::storage::{
    is_active_admin, wallet_id_is, wallet_owned_by, copy_opt_string, copy_owner, copy_user, copy_wallet, owner_key_is, user_id_is, username_is,
    ApiKeyOwner, AppUser, AppUserSession, AppWallet, AppWalletLedgerEntry, Storage, StorageError,
    lemma_ledger_id_drawn, lemma_session_id_drawn, lemma_user_id_drawn, lemma_user_wallet_drawn, lemma_wallet_id_drawn,
};
use crate::table::{
    count_where, lemma_count_push, lemma_count_update, find_first, first_index, lemma_first_index_props, lemma_first_index_push,
    lemma_first_index_update,
};
use crate::text::{
    lemma_trim_idempotent, is_ws, trim_start_seq, trim_end_seq, chars_of, concat_str, eq_ignore_ascii_case, is_empty_str, lower_seq, normalize_optional_seq,
    normalize_optional_text, opt_str_view, opt_view, str_equal, to_ascii_lowercase, trim,
    trim_seq,
};

verus! {

/// The web authentication modes.
pub open spec fn mode_none() -> Seq<char> {
    "none"@
}

pub open spec fn mode_password() -> Seq<char> {
    "password"@
}

pub open spec fn mode_accounts() -> Seq<char> {
    "accounts"@
}

/// How long a login session lasts: fourteen days.
pub const SESSION_TTL_SECONDS: i64 = 1209600;

/// A user as shown to clients, with the wallet of a non-administrator.
#[derive(Debug, Clone, PartialEq, Eq)]
pub struct AppUserPublicResult {
    pub id: String,
    pub username: String,
    pub display_name: Option<String>,
    pub role: String,
    pub status: String,
    pub created_at: i64,
    pub updated_at: i64,
    pub last_login_at: Option<i64>,
    pub wallet: Option<AppWalletResult>,
}

/// A wallet as shown to clients.
#[derive(Debug, Clone, PartialEq, Eq)]
pub struct AppWalletResult {
    pub id: String,
    pub owner_kind: String,
    pub owner_id: String,
    pub balance_credit_micros: i64,
    pub frozen_credit_micros: i64,
    pub available_credit_micros: i64,
    pub status: String,
    pub created_at: i64,
    pub updated_at: i64,
}

/// A new session: its token, once, and the user.
#[derive(Debug, Clone, PartialEq, Eq)]
pub struct AppLoginResult {
    pub token: String,
    pub expires_at: i64,
    pub user: AppUserPublicResult,
}

/// The user behind a live session.
#[derive(Debug, Clone, PartialEq, Eq)]
pub struct AppSessionUserResult {
    pub session_id: String,
    pub expires_at: i64,
    pub user: AppUserPublicResult,
}

/// An API key's owner as shown to clients.
#[derive(Debug, Clone, PartialEq, Eq)]
pub struct ApiKeyOwnerResult {
    pub key_id: String,
    pub owner_kind: String,
    pub owner_user_id: Option<String>,
    pub project_id: Option<String>,
    pub updated_at: i64,
}

/// What a caller learns of its own session.
#[derive(Debug, Clone, PartialEq, Eq)]
pub struct AppSessionResult {
    pub mode: String,
    pub current_user: Option<AppUserPublicResult>,
    pub role: String,
    pub permissions: Vec<String>,
    pub distribution_enabled: bool,
}

/// A request to create a user.
#[derive(Debug, Clone, Default)]
pub struct AppUserCreateInput {
    pub username: String,
    pub password: String,
    pub display_name: Option<String>,
    pub role: Option<String>,
    pub initial_balance_credit_micros: Option<i64>,
}

/// A request to change a user.
#[derive(Debug, Clone, Default)]
pub struct AppUserUpdateInput {
    pub id: String,
    pub display_name: Option<String>,
    pub role: Option<String>,
    pub status: Option<String>,
    pub password: Option<String>,
}

/// The caller of a request: its user, if signed in, its role and permissions.
#[derive(Debug, Clone, Default)]
pub struct RpcActor {
    pub user_id: Option<String>,
    pub role: String,
    pub permissions: Vec<String>,
}

/// Where a table operation failed.
#[derive(Debug, Clone, Copy, PartialEq, Eq, Structural)]
pub enum StorageStep {
    CreateUser,
    GrantWallet,
    EnsureWallet,
    CreateSession,
    AdjustWallet,
    ChargeWallet,
}

/// Why a request was refused.
#[derive(Debug, Clone, Copy, PartialEq, Eq, Structural)]
pub enum AppError {
    CurrentUserMissing,
    AdminAlreadyInitialized,
    AdminCreationFailed,
    InvalidCredentials,
    UserIdEmpty,
    UserNotFound,
    LastActiveAdmin,
    ProfileNeedsSession,
    PasswordChangeNeedsSession,
    WrongCurrentPassword,
    TopUpNotPositive,
    WalletMissing,
    ApiKeyIdEmpty,
    ApiKeyNotFound,
    UserOwnerNeedsUserId,
    ProjectOwnerNeedsProjectId,
    KeyOwnerUnassigned,
    OwnerWalletMissing,
    OwnerWalletDisabled,
    OwnerWalletInsufficient,
    WalletOwnerIdEmpty,
    AdminNoWallet,
    UserDisabled,
    KeyUserOwnerMissing,
    KeyProjectOwnerMissing,
    KeyOwnerKindInvalid,
    OwnerKindInvalid,
    RoleInvalid,
    StatusInvalid,
    UsernameLength,
    UsernameChars,
    PasswordTooShort,
    UsernameTaken,
    PasswordModeNeedsPassword,
    Storage(StorageStep, StorageError),
}

/// The text of a storage error.
pub open spec fn storage_error_text(e: StorageError) -> Seq<char> {
    match e {
        StorageError::Duplicate => "UNIQUE constraint failed"@,
        StorageError::WalletNotFound => "wallet not found"@,
        StorageError::BalanceOverflow => "wallet balance overflow"@,
    }
}

/// The prefix of a storage error's message.
pub open spec fn storage_step_text(s: StorageStep) -> Seq<char> {
    match s {
        StorageStep::CreateUser => "create app user failed: "@,
        StorageStep::GrantWallet => "grant app wallet failed: "@,
        StorageStep::EnsureWallet => "ensure app wallet failed: "@,
        StorageStep::CreateSession => "create app session failed: "@,
        StorageStep::AdjustWallet => "adjust wallet failed: "@,
        StorageStep::ChargeWallet => "charge wallet failed: "@,
    }
}

impl AppError {
    /// The message of the error.
    pub open spec fn text(self) -> Seq<char> {
        match self {
            AppError::CurrentUserMissing => "当前用户不存在"@,
            AppError::AdminAlreadyInitialized => "管理员已初始化"@,
            AppError::AdminCreationFailed => "管理员创建失败"@,
            AppError::InvalidCredentials => "用户名或密码错误"@,
            AppError::UserIdEmpty => "用户 ID 不能为空"@,
            AppError::UserNotFound => "用户不存在"@,
            AppError::LastActiveAdmin => "至少需要保留一个启用的管理员账号"@,
            AppError::ProfileNeedsSession => "permission_denied: profile requires user session"@,
            AppError::PasswordChangeNeedsSession => "permission_denied: password change requires user session"@,
            AppError::WrongCurrentPassword => "当前密码不正确"@,
            AppError::TopUpNotPositive => "充值金额必须大于 0"@,
            AppError::WalletMissing => "钱包不存在"@,
            AppError::ApiKeyIdEmpty => "API Key ID 不能为空"@,
            AppError::ApiKeyNotFound => "API Key 不存在"@,
            AppError::UserOwnerNeedsUserId => "用户归属需要 userId"@,
            AppError::ProjectOwnerNeedsProjectId => "项目归属需要 projectId"@,
            AppError::KeyOwnerUnassigned => "API Key 未分配额度归属"@,
            AppError::OwnerWalletMissing => "归属钱包不存在"@,
            AppError::OwnerWalletDisabled => "归属钱包已停用"@,
            AppError::OwnerWalletInsufficient => "归属钱包余额不足"@,
            AppError::WalletOwnerIdEmpty => "钱包归属 ID 不能为空"@,
            AppError::AdminNoWallet => "管理员账号不参与额度分发"@,
            AppError::UserDisabled => "用户已禁用"@,
            AppError::KeyUserOwnerMissing => "API Key 用户归属缺失"@,
            AppError::KeyProjectOwnerMissing => "API Key 项目归属缺失"@,
            AppError::KeyOwnerKindInvalid => "API Key 归属类型无效"@,
            AppError::OwnerKindInvalid => "归属类型必须是 user 或 project"@,
            AppError::RoleInvalid => "角色必须是 admin 或 member"@,
            AppError::StatusInvalid => "状态必须是 active 或 disabled"@,
            AppError::UsernameLength => "用户名长度需要在 3 到 64 之间"@,
            AppError::UsernameChars => "用户名仅支持字母、数字、点、下划线和短横线"@,
            AppError::PasswordTooShort => "密码至少需要 8 位"@,
            AppError::UsernameTaken => "用户名已存在"@,
            AppError::PasswordModeNeedsPassword => "启用访问密码模式前需要先设置访问密码"@,
            AppError::Storage(step, e) => storage_step_text(step) + storage_error_text(e),
        }
    }

    /// The message of the error.
    pub fn message(&self) -> (res: String)
        ensures
            res@ == self.text(),
    {
        let s = match self {
            AppError::CurrentUserMissing => "当前用户不存在",
            AppError::AdminAlreadyInitialized => "管理员已初始化",
            AppError::AdminCreationFailed => "管理员创建失败",
            AppError::InvalidCredentials => "用户名或密码错误",
            AppError::UserIdEmpty => "用户 ID 不能为空",
            AppError::UserNotFound => "用户不存在",
            AppError::LastActiveAdmin => "至少需要保留一个启用的管理员账号",
            AppError::ProfileNeedsSession => "permission_denied: profile requires user session",
            AppError::PasswordChangeNeedsSession => "permission_denied: password change requires user session",
            AppError::WrongCurrentPassword => "当前密码不正确",
            AppError::TopUpNotPositive => "充值金额必须大于 0",
            AppError::WalletMissing => "钱包不存在",
            AppError::ApiKeyIdEmpty => "API Key ID 不能为空",
            AppError::ApiKeyNotFound => "API Key 不存在",
            AppError::UserOwnerNeedsUserId => "用户归属需要 userId",
            AppError::ProjectOwnerNeedsProjectId => "项目归属需要 projectId",
            AppError::KeyOwnerUnassigned => "API Key 未分配额度归属",
            AppError::OwnerWalletMissing => "归属钱包不存在",
            AppError::OwnerWalletDisabled => "归属钱包已停用",
            AppError::OwnerWalletInsufficient => "归属钱包余额不足",
            AppError::WalletOwnerIdEmpty => "钱包归属 ID 不能为空",
            AppError::AdminNoWallet => "管理员账号不参与额度分发",
            AppError::UserDisabled => "用户已禁用",
            AppError::KeyUserOwnerMissing => "API Key 用户归属缺失",
            AppError::KeyProjectOwnerMissing => "API Key 项目归属缺失",
            AppError::KeyOwnerKindInvalid => "API Key 归属类型无效",
            AppError::OwnerKindInvalid => "归属类型必须是 user 或 project",
            AppError::RoleInvalid => "角色必须是 admin 或 member",
            AppError::StatusInvalid => "状态必须是 active 或 disabled",
            AppError::UsernameLength => "用户名长度需要在 3 到 64 之间",
            AppError::UsernameChars => "用户名仅支持字母、数字、点、下划线和短横线",
            AppError::PasswordTooShort => "密码至少需要 8 位",
            AppError::UsernameTaken => "用户名已存在",
            AppError::PasswordModeNeedsPassword => "启用访问密码模式前需要先设置访问密码",
            AppError::Storage(step, e) => {
                return storage_message(*step, *e);
            },
        };
        s.to_owned()
    }
}

fn storage_message(step: StorageStep, e: StorageError) -> (res: String)
    ensures
        res@ == storage_step_text(step) + storage_error_text(e),
{
    let prefix = match step {
        StorageStep::CreateUser => "create app user failed: ",
        StorageStep::GrantWallet => "grant app wallet failed: ",
        StorageStep::EnsureWallet => "ensure app wallet failed: ",
        StorageStep::CreateSession => "create app session failed: ",
        StorageStep::AdjustWallet => "adjust wallet failed: ",
        StorageStep::ChargeWallet => "charge wallet failed: ",
    };
    let detail = match e {
        StorageError::Duplicate => "UNIQUE constraint failed",
        StorageError::WalletNotFound => "wallet not found",
        StorageError::BalanceOverflow => "wallet balance overflow",
    };
    concat_str(prefix, detail)
}

/// `res` is an error with the message of `e`.
pub open spec fn fails_with<T>(res: Result<T, String>, e: AppError) -> bool {
    res matches Err(m) && m@ == e.text()
}

// ---------------------------------------------------------------- settings

/// The mode a raw setting names: `password` or `accounts` in any case and spacing,
/// `none` for anything else.
pub open spec fn normalize_web_auth_mode_spec(raw: Option<Seq<char>>) -> Seq<char> {
    match raw {
        Some(r) => {
            let l = lower_seq(trim_seq(r));
            if l == mode_password() {
                mode_password()
            } else if l == mode_accounts() {
                mode_accounts()
            } else {
                mode_none()
            }
        },
        None => mode_none(),
    }
}

/// A web access password is set.
pub open spec fn password_configured(store: &Storage) -> bool {
    normalize_optional_seq(opt_view(store.web_access_password_hash)) is Some
}

/// The mode in force: the stored one, except that `password` without a password
/// counts as `none`; with nothing stored, `password` exactly when a password is set.
pub open spec fn web_auth_mode_spec(store: &Storage) -> Seq<char> {
    match store.web_auth_mode {
        Some(raw) => {
            let m = normalize_web_auth_mode_spec(Some(raw@));
            if m == mode_password() && !password_configured(store) {
                mode_none()
            } else {
                m
            }
        },
        None => if password_configured(store) {
            mode_password()
        } else {
            mode_none()
        },
    }
}

/// The words read as true and as false.
pub open spec fn true_word(l: Seq<char>) -> bool {
    l == "1"@ || l == "true"@ || l == "yes"@ || l == "on"@
}

pub open spec fn false_word(l: Seq<char>) -> bool {
    l == "0"@ || l == "false"@ || l == "no"@ || l == "off"@
}

/// A boolean setting: a true or false word in any case and spacing, else `default`.
pub open spec fn parse_bool_spec(raw: Seq<char>, default: bool) -> bool {
    let l = lower_seq(trim_seq(raw));
    if true_word(l) {
        true
    } else if false_word(l) {
        false
    } else {
        default
    }
}

/// The distribution switch: off unless the stored setting reads as true.
pub open spec fn distribution_enabled_spec(store: &Storage) -> bool {
    match store.distribution_enabled {
        Some(raw) => parse_bool_spec(raw@, false),
        None => false,
    }
}

fn normalize_web_auth_mode(raw: Option<&str>) -> (res: String)
    ensures
        res@ == normalize_web_auth_mode_spec(opt_str_view(raw)),
{
    match raw {
        Some(r) => {
            let t = trim(r);
            let l = to_ascii_lowercase(t.as_str());
            if str_equal(l.as_str(), "password") {
                "password".to_owned()
            } else if str_equal(l.as_str(), "accounts") {
                "accounts".to_owned()
            } else {
                "none".to_owned()
            }
        },
        None => "none".to_owned(),
    }
}

/// Whether a web access password is set.
pub fn web_access_password_configured(store: &Storage) -> (res: bool)
    ensures
        res == password_configured(store),
{
    match &store.web_access_password_hash {
        Some(h) => normalize_optional_text(Some(h.as_str())).is_some(),
        None => false,
    }
}

/// The web authentication mode in force.
pub fn current_web_auth_mode(store: &Storage) -> (res: String)
    ensures
        res@ == web_auth_mode_spec(store),
{
    let configured = web_access_password_configured(store);
    match &store.web_auth_mode {
        Some(raw) => {
            let mode = normalize_web_auth_mode(Some(raw.as_str()));
            if str_equal(mode.as_str(), "password") && !configured {
                return "none".to_owned();
            }
            mode
        },
        None => if configured {
            "password".to_owned()
        } else {
            "none".to_owned()
        },
    }
}

/// What storing the web authentication mode `mode` did and returned: `password`
/// without a web access password is refused and nothing changes; otherwise the
/// normalized mode is stored and returned.
pub open spec fn web_auth_mode_set(
    old_store: &Storage,
    new_store: &Storage,
    mode: Seq<char>,
    res: Result<String, String>,
) -> bool {
    let m = normalize_web_auth_mode_spec(Some(mode));
    if m == mode_password() && !password_configured(old_store) {
        fails_with(res, AppError::PasswordModeNeedsPassword) && *new_store == *old_store
    } else {
        &&& res matches Ok(s) && s@ == m
        &&& opt_view(new_store.web_auth_mode) == Some(m)
        &&& new_store.unchanged_except(old_store, false, false, false, false, false, true, false)
        &&& new_store.distribution_enabled == old_store.distribution_enabled
        &&& new_store.web_access_password_hash == old_store.web_access_password_hash
    }
}

/// Stores a web authentication mode; `password` needs a web access password.
pub fn set_web_auth_mode(store: &mut Storage, mode: &str) -> (res: Result<String, String>)
    ensures
        web_auth_mode_set(old(store), final(store), mode@, res),
{
    let normalized = normalize_web_auth_mode(Some(mode));
    if str_equal(normalized.as_str(), "password") && !web_access_password_configured(store) {
        return Err(AppError::PasswordModeNeedsPassword.message());
    }
    store.web_auth_mode = Some(normalized.clone());
    Ok(normalized)
}

/// A mode that was stored is the mode in force afterwards: reading the mode back
/// gives what setting it returned.
pub proof fn law_web_auth_mode_reads_back(before: Storage, after: Storage, mode: Seq<char>, stored: String)
    requires
        web_auth_mode_set(&before, &after, mode, Ok(stored)),
    ensures
        web_auth_mode_spec(&after) == stored@,
{
    reveal_strlit("none");
    reveal_strlit("password");
    reveal_strlit("accounts");
    lemma_plain_word(mode_none());
    lemma_plain_word(mode_password());
    lemma_plain_word(mode_accounts());
}

/// Reads a boolean setting: `1`, `true`, `yes`, `on` are true, `0`, `false`, `no`,
/// `off` false, in any case and spacing; anything else gives `default`.
pub fn parse_bool_with_default(raw: &str, default: bool) -> (res: bool)
    ensures
        res == parse_bool_spec(raw@, default),
{
    let t = trim(raw);
    let l = to_ascii_lowercase(t.as_str());
    let s = l.as_str();
    if str_equal(s, "1") || str_equal(s, "true") || str_equal(s, "yes") || str_equal(s, "on") {
        true
    } else if str_equal(s, "0") || str_equal(s, "false") || str_equal(s, "no") || str_equal(
        s,
        "off",
    ) {
        false
    } else {
        default
    }
}

/// Whether credit distribution is switched on.
pub fn distribution_enabled(store: &Storage) -> (res: bool)
    ensures
        res == distribution_enabled_spec(store),
{
    match &store.distribution_enabled {
        Some(raw) => parse_bool_with_default(raw.as_str(), false),
        None => false,
    }
}

/// Whether credit distribution is switched on, a blank setting counting as unset.
pub(crate) fn distribution_enabled_for_storage(store: &Storage) -> (res: bool)
    ensures
        res == match normalize_optional_seq(opt_view(store.distribution_enabled)) {
            Some(t) => parse_bool_spec(t, false),
            None => false,
        },
{
    let raw = match &store.distribution_enabled {
        Some(r) => Some(r.as_str()),
        None => None,
    };
    match normalize_optional_text(raw) {
        Some(t) => parse_bool_with_default(t.as_str(), false),
        None => false,
    }
}

/// Switches credit distribution on or off.
pub fn set_distribution_enabled(store: &mut Storage, enabled: bool) -> (res: Result<bool, String>)
    ensures
        res == Ok::<bool, String>(enabled),
        distribution_enabled_spec(final(store)) == enabled,
        opt_view(final(store).distribution_enabled) == Some(if enabled { "true"@ } else { "false"@ }),
        final(store).unchanged_except(old(store), false, false, false, false, false, true, false),
        final(store).web_auth_mode == old(store).web_auth_mode,
        final(store).web_access_password_hash == old(store).web_access_password_hash,
{
    let value = if enabled {
        "true".to_owned()
    } else {
        "false".to_owned()
    };
    proof {
        reveal_strlit("true");
        reveal_strlit("false");
        reveal_strlit("1");
        reveal_strlit("yes");
        reveal_strlit("on");
        reveal_strlit("0");
        reveal_strlit("no");
        reveal_strlit("off");
        let v = value@;
        assert(trim_seq(v) == v) by {
            assert(v.len() > 0);
        }
        assert(lower_seq(v) =~= v);
    }
    store.distribution_enabled = Some(value);
    Ok(enabled)
}

/// The authentication settings and account counts shown before login.
pub struct AppAuthStatus {
    pub mode: String,
    pub mode_options: Vec<String>,
    pub password_configured: bool,
    pub app_users_configured: bool,
    pub app_user_count: usize,
    pub active_admin_count: usize,
    pub distribution_enabled: bool,
}

/// The authentication status: the mode in force, the three modes, whether a web
/// access password is set, whether an active administrator exists, the user and
/// active-administrator counts, and the distribution switch.
pub fn app_auth_status_value(store: &Storage) -> (res: Result<AppAuthStatus, String>)
    ensures
        res matches Ok(st) && {
            &&& st.mode@ == web_auth_mode_spec(store)
            &&& st.mode_options@.len() == 3
            &&& st.mode_options@[0]@ == mode_none()
            &&& st.mode_options@[1]@ == mode_password()
            &&& st.mode_options@[2]@ == mode_accounts()
            &&& st.password_configured == password_configured(store)
            &&& st.app_users_configured == (store.active_admins() > 0)
            &&& st.app_user_count == store.users@.len()
            &&& st.active_admin_count == store.active_admins()
            &&& st.distribution_enabled == distribution_enabled_spec(store)
        },
{
    let user_count = store.app_user_count();
    let admin_count = store.active_admin_count();
    let mut options: Vec<String> = Vec::new();
    options.push("none".to_owned());
    options.push("password".to_owned());
    options.push("accounts".to_owned());
    Ok(AppAuthStatus {
        mode: current_web_auth_mode(store),
        mode_options: options,
        password_configured: web_access_password_configured(store),
        app_users_configured: admin_count > 0,
        app_user_count: user_count,
        active_admin_count: admin_count,
        distribution_enabled: distribution_enabled(store),
    })
}

// ---------------------------------------------------------------- normalization

/// A character allowed in a username.
pub open spec fn username_char_ok(c: char) -> bool {
    ('a' <= c && c <= 'z') || ('A' <= c && c <= 'Z') || ('0' <= c && c <= '9') || c == '_' || c
        == '-' || c == '.'
}

/// The username a raw one stands for: trimmed and ASCII-lowercased, 3 to 64 bytes
/// long, of ASCII letters, digits, `.`, `_` and `-`.
pub open spec fn username_spec(raw: Seq<char>) -> Result<Seq<char>, AppError> {
    let v = lower_seq(trim_seq(raw));
    let n = encode_utf8(v).len();
    if n < 3 || n > 64 {
        Err(AppError::UsernameLength)
    } else if exists|i: int| 0 <= i < v.len() && !username_char_ok(#[trigger] v[i]) {
        Err(AppError::UsernameChars)
    } else {
        Ok(v)
    }
}

/// A password is at least 8 bytes long.
pub open spec fn password_ok(password: Seq<char>) -> bool {
    encode_utf8(password).len() >= 8
}

/// The role a raw one stands for: blank or absent is `member`; else trimmed and
/// lowercased, `admin` or `member`.
pub open spec fn role_spec(raw: Option<Seq<char>>) -> Result<Seq<char>, AppError> {
    let r = match raw {
        Some(s) => if trim_seq(s).len() == 0 {
            "member"@
        } else {
            lower_seq(trim_seq(s))
        },
        None => "member"@,
    };
    if r == "admin"@ || r == "member"@ {
        Ok(r)
    } else {
        Err(AppError::RoleInvalid)
    }
}

/// The status a raw one stands for: `active` or `disabled`, in any case and spacing.
pub open spec fn status_spec(raw: Seq<char>) -> Result<Seq<char>, AppError> {
    let l = lower_seq(trim_seq(raw));
    if l == "active"@ {
        Ok("active"@)
    } else if l == "disabled"@ {
        Ok("disabled"@)
    } else {
        Err(AppError::StatusInvalid)
    }
}

/// The owner kind a raw one stands for: `user` or `project`, in any case and spacing.
pub open spec fn owner_kind_spec(raw: Seq<char>) -> Result<Seq<char>, AppError> {
    let l = lower_seq(trim_seq(raw));
    if l == "user"@ {
        Ok("user"@)
    } else if l == "project"@ {
        Ok("project"@)
    } else {
        Err(AppError::OwnerKindInvalid)
    }
}

fn normalize_owner_kind(raw: &str) -> (res: Result<String, AppError>)
    ensures
        match res {
            Ok(s) => owner_kind_spec(raw@) == Ok::<Seq<char>, AppError>(s@),
            Err(e) => owner_kind_spec(raw@) == Err::<Seq<char>, AppError>(e),
        },
{
    let l = to_ascii_lowercase(trim(raw).as_str());
    if str_equal(l.as_str(), "user") {
        Ok("user".to_owned())
    } else if str_equal(l.as_str(), "project") {
        Ok("project".to_owned())
    } else {
        Err(AppError::OwnerKindInvalid)
    }
}

fn normalize_role(raw: Option<&str>) -> (res: Result<String, AppError>)
    ensures
        match res {
            Ok(s) => role_spec(opt_str_view(raw)) == Ok::<Seq<char>, AppError>(s@),
            Err(e) => role_spec(opt_str_view(raw)) == Err::<Seq<char>, AppError>(e),
        },
{
    let role = match raw {
        Some(s) => {
            let t = trim(s);
            if t.as_str().is_empty() {
                "member".to_owned()
            } else {
                to_ascii_lowercase(t.as_str())
            }
        },
        None => "member".to_owned(),
    };
    if str_equal(role.as_str(), "admin") || str_equal(role.as_str(), "member") {
        Ok(role)
    } else {
        Err(AppError::RoleInvalid)
    }
}

fn normalize_status(raw: &str) -> (res: Result<String, AppError>)
    ensures
        match res {
            Ok(s) => status_spec(raw@) == Ok::<Seq<char>, AppError>(s@),
            Err(e) => status_spec(raw@) == Err::<Seq<char>, AppError>(e),
        },
{
    let l = to_ascii_lowercase(trim(raw).as_str());
    if str_equal(l.as_str(), "active") {
        Ok("active".to_owned())
    } else if str_equal(l.as_str(), "disabled") {
        Ok("disabled".to_owned())
    } else {
        Err(AppError::StatusInvalid)
    }
}

fn normalize_username(raw: &str) -> (res: Result<String, AppError>)
    ensures
        match res {
            Ok(s) => username_spec(raw@) == Ok::<Seq<char>, AppError>(s@),
            Err(e) => username_spec(raw@) == Err::<Seq<char>, AppError>(e),
        },
{
    let value = to_ascii_lowercase(trim(raw).as_str());
    let n = value.as_str().as_bytes().len();
    assert(n == encode_utf8(value@).len());
    if n < 3 || n > 64 {
        return Err(AppError::UsernameLength);
    }
    let v = chars_of(value.as_str());
    let mut i: usize = 0;
    while i < v.len()
        invariant
            v@ == value@,
            value@ == lower_seq(trim_seq(raw@)),
            3 <= encode_utf8(value@).len() <= 64,
            0 <= i <= v@.len(),
            forall|k: int| 0 <= k < i ==> username_char_ok(#[trigger] v@[k]),
        decreases v@.len() - i,
    {
        let c = v[i];
        if !(('a' <= c && c <= 'z') || ('A' <= c && c <= 'Z') || ('0' <= c && c <= '9') || c
            == '_' || c == '-' || c == '.') {
            assert(value@ == lower_seq(trim_seq(raw@)));
            assert(!username_char_ok(lower_seq(trim_seq(raw@))[i as int]));
            return Err(AppError::UsernameChars);
        }
        i += 1;
    }
    Ok(value)
}

fn validate_password(password: &str) -> (res: Result<(), AppError>)
    ensures
        password_ok(password@) ==> res is Ok,
        !password_ok(password@) ==> res == Err::<(), AppError>(AppError::PasswordTooShort),
{
    let n = password.as_bytes().len();
    assert(n == encode_utf8(password@).len());
    if n < 8 {
        return Err(AppError::PasswordTooShort);
    }
    Ok(())
}

// ---------------------------------------------------------------- projections

/// A user that is not an administrator, who alone can own a wallet.
pub open spec fn can_own_wallet(u: AppUser) -> bool {
    u.role@ != "admin"@
}

/// Balance minus frozen credit, at least 0 and at most `i64::MAX`.
pub open spec fn available_spec(balance: i64, frozen: i64) -> i64 {
    let d = balance - frozen;
    if d <= 0 {
        0
    } else if d > i64::MAX {
        i64::MAX
    } else {
        d as i64
    }
}

pub open spec fn wallet_result_spec(w: AppWallet) -> AppWalletResult {
    AppWalletResult {
        id: w.id,
        owner_kind: w.owner_kind,
        owner_id: w.owner_id,
        balance_credit_micros: w.balance_credit_micros,
        frozen_credit_micros: w.frozen_credit_micros,
        available_credit_micros: available_spec(w.balance_credit_micros, w.frozen_credit_micros),
        status: w.status,
        created_at: w.created_at,
        updated_at: w.updated_at,
    }
}

/// A user as shown to clients: the wallet only for a non-administrator.
pub open spec fn public_user_spec(u: AppUser, w: Option<AppWallet>) -> AppUserPublicResult {
    AppUserPublicResult {
        id: u.id,
        username: u.username,
        display_name: u.display_name,
        role: u.role,
        status: u.status,
        created_at: u.created_at,
        updated_at: u.updated_at,
        last_login_at: u.last_login_at,
        wallet: if can_own_wallet(u) {
            match w {
                Some(x) => Some(wallet_result_spec(x)),
                None => None,
            }
        } else {
            None
        },
    }
}

/// A user as shown to clients with the wallet the store holds for it.
pub open spec fn shown_user(store: &Storage, u: AppUser) -> AppUserPublicResult {
    public_user_spec(
        u,
        if can_own_wallet(u) {
            store.wallet_of("user"@, u.id@)
        } else {
            None
        },
    )
}

pub open spec fn owner_result_spec(o: ApiKeyOwner) -> ApiKeyOwnerResult {
    ApiKeyOwnerResult {
        key_id: o.key_id,
        owner_kind: o.owner_kind,
        owner_user_id: o.owner_user_id,
        project_id: o.project_id,
        updated_at: o.updated_at,
    }
}

fn app_user_can_own_wallet(user: &AppUser) -> (res: bool)
    ensures
        res == can_own_wallet(*user),
{
    !str_equal(user.role.as_str(), "admin")
}

fn wallet_result(wallet: AppWallet) -> (res: AppWalletResult)
    ensures
        res == wallet_result_spec(wallet),
{
    let b = wallet.balance_credit_micros as i128;
    let f = wallet.frozen_credit_micros as i128;
    let d = b - f;
    let available: i64 = if d <= 0 {
        0
    } else if d > i64::MAX as i128 {
        i64::MAX
    } else {
        d as i64
    };
    AppWalletResult {
        available_credit_micros: available,
        id: wallet.id,
        owner_kind: wallet.owner_kind,
        owner_id: wallet.owner_id,
        balance_credit_micros: wallet.balance_credit_micros,
        frozen_credit_micros: wallet.frozen_credit_micros,
        status: wallet.status,
        created_at: wallet.created_at,
        updated_at: wallet.updated_at,
    }
}

fn public_user(user: AppUser, wallet: Option<AppWallet>) -> (res: AppUserPublicResult)
    ensures
        res == public_user_spec(user, wallet),
{
    let can_own = app_user_can_own_wallet(&user);
    AppUserPublicResult {
        id: user.id,
        username: user.username,
        display_name: user.display_name,
        role: user.role,
        status: user.status,
        created_at: user.created_at,
        updated_at: user.updated_at,
        last_login_at: user.last_login_at,
        wallet: if can_own {
            match wallet {
                Some(w) => Some(wallet_result(w)),
                None => None,
            }
        } else {
            None
        },
    }
}

/// The user as shown to clients, with its wallet when it may own one.
fn show_user(store: &Storage, user: AppUser) -> (res: AppUserPublicResult)
    ensures
        res == shown_user(store, user),
{
    let wallet = if app_user_can_own_wallet(&user) {
        store.find_wallet_by_owner("user", user.id.as_str())
    } else {
        None
    };
    proof {
        reveal_strlit("user");
    }
    public_user(user, wallet)
}

fn api_key_owner_result(owner: ApiKeyOwner) -> (res: ApiKeyOwnerResult)
    ensures
        res == owner_result_spec(owner),
{
    ApiKeyOwnerResult {
        key_id: owner.key_id,
        owner_kind: owner.owner_kind,
        owner_user_id: owner.owner_user_id,
        project_id: owner.project_id,
        updated_at: owner.updated_at,
    }
}

fn copy_strings(v: &Vec<String>) -> (res: Vec<String>)
    ensures
        res@ == v@,
{
    let mut out: Vec<String> = Vec::new();
    let mut i: usize = 0;
    while i < v.len()
        invariant
            0 <= i <= v@.len(),
            out@ == v@.take(i as int),
        decreases v@.len() - i,
    {
        out.push(v[i].clone());
        assert(v@.take(i + 1) == v@.take(i as int).push(v@[i as int]));
        i += 1;
    }
    assert(v@.take(i as int) == v@);
    out
}

// ---------------------------------------------------------------- listings

/// All users as shown to clients, in table order.
pub fn list_app_users(store: &Storage) -> (res: Result<Vec<AppUserPublicResult>, String>)
    ensures
        res matches Ok(v) && v@.len() == store.users@.len() && forall|i: int|
            0 <= i < v@.len() ==> #[trigger] v@[i] == shown_user(store, store.users@[i]),
{
    let users = store.list_app_users();
    let mut out: Vec<AppUserPublicResult> = Vec::new();
    let mut i: usize = 0;
    while i < users.len()
        invariant
            users@ == store.users@,
            0 <= i <= users@.len(),
            out@.len() == i,
            forall|k: int| 0 <= k < i ==> #[trigger] out@[k] == shown_user(store, store.users@[k]),
        decreases users@.len() - i,
    {
        out.push(show_user(store, copy_user(&users[i])));
        i += 1;
    }
    Ok(out)
}

/// All API key owners as shown to clients, sorted by key id.
pub fn list_api_key_owners(store: &Storage) -> (res: Result<Vec<ApiKeyOwnerResult>, String>)
    ensures
        res matches Ok(v) && exists|rows: Seq<ApiKeyOwner>|
            rows.to_multiset() == store.api_key_owners@.to_multiset() && sorted_by_key(rows)
                && v@.len() == rows.len() && forall|i: int|
                0 <= i < rows.len() ==> #[trigger] v@[i] == owner_result_spec(rows[i]),
{
    let rows = store.list_api_key_owners();
    let sorted = sort_owners_by_key(&rows);
    let mut out: Vec<ApiKeyOwnerResult> = Vec::new();
    let mut i: usize = 0;
    while i < sorted.len()
        invariant
            0 <= i <= sorted@.len(),
            out@.len() == i,
            forall|k: int| 0 <= k < i ==> #[trigger] out@[k] == owner_result_spec(sorted@[k]),
        decreases sorted@.len() - i,
    {
        out.push(api_key_owner_result(copy_owner(&sorted[i])));
        i += 1;
    }
    Ok(out)
}

/// The key belongs to the user: a `user` owner whose user id, trimmed, is `user_id`.
pub open spec fn owned_by_user(o: ApiKeyOwner, user_id: Seq<char>) -> bool {
    o.owner_kind@ == "user"@ && match o.owner_user_id {
        Some(u) => trim_seq(u@) == user_id,
        None => false,
    }
}

pub open spec fn owned_by_user_pred(user_id: Seq<char>) -> spec_fn(ApiKeyOwner) -> bool {
    |o: ApiKeyOwner| owned_by_user(o, user_id)
}

fn owner_belongs_to(o: &ApiKeyOwner, user_id: &str) -> (res: bool)
    ensures
        res == owned_by_user(*o, user_id@),
{
    str_equal(o.owner_kind.as_str(), "user") && match &o.owner_user_id {
        Some(u) => str_equal(trim(u.as_str()).as_str(), user_id),
        None => false,
    }
}

/// The ids of the API keys owned by the user (trimmed), sorted; none for a blank id.
pub fn list_api_key_ids_for_user(store: &Storage, user_id: &str) -> (res: Result<Vec<String>, String>)
    ensures
        res matches Ok(ids) && (trim_seq(user_id@).len() == 0 ==> ids@.len() == 0) && (trim_seq(
            user_id@,
        ).len() != 0 ==> exists|rows: Seq<ApiKeyOwner>|
            rows.to_multiset() == store.api_key_owners@.filter(
                owned_by_user_pred(trim_seq(user_id@)),
            ).to_multiset() && sorted_by_key(rows) && ids@.len() == rows.len() && forall|i: int|
                0 <= i < rows.len() ==> (#[trigger] ids@[i])@ == rows[i].key_id@),
        res matches Ok(ids) && (store.owner_keys_unique() ==> forall|a: int, b: int|
            0 <= a < b < ids@.len() ==> (#[trigger] ids@[a])@ != (#[trigger] ids@[b])@),
{
    let uid = trim(user_id);
    if is_empty_str(uid.as_str()) {
        return Ok(Vec::new());
    }
    let ghost p = owned_by_user_pred(uid@);
    let rows = store.list_api_key_owners();
    let mut kept: Vec<ApiKeyOwner> = Vec::new();
    let mut i: usize = 0;
    while i < rows.len()
        invariant
            rows@ == store.api_key_owners@,
            p == owned_by_user_pred(uid@),
            0 <= i <= rows@.len(),
            kept@ == rows@.take(i as int).filter(p),
            store.owner_keys_unique() ==> keys_distinct(kept@),
            forall|k: int| 0 <= k < kept@.len() ==> key_in_prefix(rows@, i as int, #[trigger] kept@[k].key_id@),
        decreases rows@.len() - i,
    {
        proof {
            reveal_with_fuel(Seq::<_>::filter, 1);
            assert(rows@.take(i + 1).drop_last() == rows@.take(i as int));
        }
        let ghost before = kept@;
        if owner_belongs_to(&rows[i], uid.as_str()) {
            kept.push(copy_owner(&rows[i]));
            proof {
                let x = rows@[i as int];
                assert(kept@ == before.push(x));
                assert forall|k: int| 0 <= k < kept@.len() implies key_in_prefix(
                    rows@,
                    i + 1,
                    #[trigger] kept@[k].key_id@,
                ) by {
                    if k < before.len() {
                        assert(key_in_prefix(rows@, i as int, before[k].key_id@));
                    }
                }
                if store.owner_keys_unique() {
                    assert forall|k: int| 0 <= k < before.len() implies before[k].key_id@ != x.key_id@ by {
                        assert(key_in_prefix(rows@, i as int, before[k].key_id@));
                        let m = choose|m: int| 0 <= m < i && rows@[m].key_id@ == before[k].key_id@;
                        assert(rows@[m].key_id@ != rows@[i as int].key_id@);
                    }
                    assert forall|a: int, b: int| 0 <= a < b < kept@.len() implies (#[trigger] kept@[a]).key_id@
                        != (#[trigger] kept@[b]).key_id@ by {
                        if b < before.len() {
                            assert(kept@[a] == before[a] && kept@[b] == before[b]);
                        } else {
                            assert(kept@[a] == before[a]);
                        }
                    }
                }
            }
        } else {
            proof {
                assert forall|k: int| 0 <= k < kept@.len() implies key_in_prefix(
                    rows@,
                    i + 1,
                    #[trigger] kept@[k].key_id@,
                ) by {
                    assert(key_in_prefix(rows@, i as int, kept@[k].key_id@));
                }
            }
        }
        i += 1;
    }
    assert(rows@.take(i as int) == rows@);
    let sorted = sort_owners_by_key(&kept);
    let mut ids: Vec<String> = Vec::new();
    let mut j: usize = 0;
    while j < sorted.len()
        invariant
            0 <= j <= sorted@.len(),
            ids@.len() == j,
            forall|k: int| 0 <= k < j ==> (#[trigger] ids@[k])@ == sorted@[k].key_id@,
        decreases sorted@.len() - j,
    {
        ids.push(sorted[j].key_id.clone());
        j += 1;
    }
    proof {
        if store.owner_keys_unique() {
            assert forall|a: int, b: int| 0 <= a < b < ids@.len() implies (#[trigger] ids@[a])@
                != (#[trigger] ids@[b])@ by {
                assert(ids@[a]@ == sorted@[a].key_id@);
                assert(ids@[b]@ == sorted@[b].key_id@);
            }
        }
    }
    Ok(ids)
}

/// Whether the key (trimmed) belongs to the user (trimmed); false when either is blank.
pub fn api_key_belongs_to_user(store: &Storage, key_id: &str, user_id: &str) -> (res: Result<bool, String>)
    ensures
        res == Ok::<bool, String>(
            trim_seq(key_id@).len() != 0 && trim_seq(user_id@).len() != 0 && match store.owner_of_key(
                trim_seq(key_id@),
            ) {
                Some(o) => owned_by_user(o, trim_seq(user_id@)),
                None => false,
            },
        ),
{
    let key = trim(key_id);
    let uid = trim(user_id);
    if is_empty_str(key.as_str()) || is_empty_str(uid.as_str()) {
        return Ok(false);
    }
    match store.find_api_key_owner(key.as_str()) {
        Some(o) => Ok(owner_belongs_to(&o, uid.as_str())),
        None => Ok(false),
    }
}

/// A key belongs to a user exactly when it is among the key ids listed for that
/// user (the ids of the owner records owned by the user, in some order). That a
/// key that belongs is listed holds always; the converse needs that no two owner
/// records name the same key.
pub proof fn law_key_listed_iff_belongs(
    store: Storage,
    key_id: Seq<char>,
    user_id: Seq<char>,
    rows: Seq<ApiKeyOwner>,
    ids: Seq<Seq<char>>,
)
    requires
        trim_seq(key_id).len() != 0,
        trim_seq(user_id).len() != 0,
        rows.to_multiset() == store.api_key_owners@.filter(owned_by_user_pred(trim_seq(user_id))).to_multiset(),
        ids.len() == rows.len(),
        forall|i: int| 0 <= i < rows.len() ==> ids[i] == rows[i].key_id@,
    ensures
        (store.owner_of_key(trim_seq(key_id)) matches Some(o) && owned_by_user(o, trim_seq(user_id)))
            ==> ids.contains(trim_seq(key_id)),
        store.owner_keys_unique() && ids.contains(trim_seq(key_id)) ==> (store.owner_of_key(
            trim_seq(key_id),
        ) matches Some(o) && owned_by_user(o, trim_seq(user_id))),
{
    let key = trim_seq(key_id);
    let p = owned_by_user_pred(trim_seq(user_id));
    let owners = store.api_key_owners@;
    let pk = owner_key_is(key);
    let fi = first_index(owners, pk);
    lemma_first_index_props(owners, pk);
    if store.owner_of_key(key) matches Some(o) && owned_by_user(o, trim_seq(user_id)) {
        let o = owners[fi];
        owners.lemma_filter_contains(p, fi);
        to_multiset_contains(owners.filter(p), o);
        to_multiset_contains(rows, o);
        let k = choose|k: int| 0 <= k < rows.len() && rows[k] == o;
        assert(ids[k] == key);
    }
    if store.owner_keys_unique() && ids.contains(key) {
        let k = choose|k: int| 0 <= k < ids.len() && ids[k] == key;
        let r = rows[k];
        to_multiset_contains(rows, r);
        to_multiset_contains(owners.filter(p), r);
        let m = choose|m: int| 0 <= m < owners.filter(p).len() && owners.filter(p)[m] == r;
        owners.lemma_filter_pred(p, m);
        owners.lemma_filter_contains_rev(p, r);
        let j = choose|j: int| 0 <= j < owners.len() && owners[j] == r;
        assert(pk(owners[j]));
        assert(fi >= 0);
        if fi < j {
            assert(owners[fi].key_id@ == owners[j].key_id@);
        }
        assert(fi == j);
    }
}

/// What the caller learns of its session: the mode, its user (which must exist
/// when it names one), its role and permissions, and the distribution switch.
pub fn app_session_result(store: &Storage, actor: &RpcActor) -> (res: Result<AppSessionResult, String>)
    ensures
        match actor.user_id {
            Some(uid) => match store.user_by_id(uid@) {
                None => fails_with(res, AppError::CurrentUserMissing),
                Some(u) => res matches Ok(r) && r.current_user == Some(shown_user(store, u)),
            },
            None => res matches Ok(r) && r.current_user is None,
        },
        res matches Ok(r) ==> {
            &&& r.mode@ == web_auth_mode_spec(store)
            &&& r.role == actor.role
            &&& r.permissions@ == actor.permissions@
            &&& r.distribution_enabled == distribution_enabled_spec(store)
        },
{
    let current_user = match &actor.user_id {
        Some(uid) => match store.find_app_user_by_id(uid.as_str()) {
            Some(u) => Some(show_user(store, u)),
            None => {
                return Err(AppError::CurrentUserMissing.message());
            },
        },
        None => None,
    };
    Ok(
        AppSessionResult {
            mode: current_web_auth_mode(store),
            current_user,
            role: actor.role.clone(),
            permissions: copy_strings(&actor.permissions),
            distribution_enabled: distribution_enabled(store),
        },
    )
}


// ---------------------------------------------------------------- lemmas on names

/// A word of lowercase ASCII letters is its own trimmed, lowercased form.
proof fn lemma_plain_word(w: Seq<char>)
    requires
        w.len() > 0,
        forall|i: int| 0 <= i < w.len() ==> 'a' <= #[trigger] w[i] && w[i] <= 'z',
    ensures
        trim_seq(w) == w,
        lower_seq(w) == w,
{
    assert(!is_ws(w[0]));
    assert(trim_start_seq(w) == w);
    assert(!is_ws(w.last()));
    assert(trim_end_seq(w) == w);
    assert(lower_seq(w) =~= w);
}

/// The owner kind `user` is valid and stands for itself.
proof fn lemma_user_kind()
    ensures
        owner_kind_spec("user"@) == Ok::<Seq<char>, AppError>("user"@),
{
    reveal_strlit("user");
    lemma_plain_word("user"@);
}

/// The owner kind `project` is valid and stands for itself.
proof fn lemma_project_kind()
    ensures
        owner_kind_spec("project"@) == Ok::<Seq<char>, AppError>("project"@),
{
    reveal_strlit("project");
    reveal_strlit("user");
    lemma_plain_word("project"@);
}

/// A generated id with a lowercase prefix has no surrounding whitespace.
proof fn lemma_generated_id_trimmed(id: Seq<char>, prefix: Seq<char>, n: nat)
    requires
        is_generated_id(id, prefix, n),
        prefix.len() > 0,
        'a' <= prefix[0] && prefix[0] <= 'z',
    ensures
        trim_seq(id) == id,
        id.len() > 0,
{
    let b = choose|b: Seq<u8>| b.len() == n && id == prefix + seq!['_'] + hex_seq(b);
    lemma_hex_seq_len(b);
    assert(id[0] == prefix[0]);
    assert(!is_ws(id[0]));
    assert(trim_start_seq(id) == id);
    let h = hex_seq(b);
    if h.len() > 0 {
        assert(id.last() == h[h.len() - 1]);
        assert(is_hex_char(h[h.len() - 1]));
    } else {
        assert(id.last() == '_');
    }
    assert(!is_ws(id.last()));
    assert(trim_end_seq(id) == id);
}

/// The wallet that was found or opened for an owner is the owner's wallet.
proof fn lemma_ensured_is_owner_wallet(
    s1: &Storage,
    s2: &Storage,
    kind: Seq<char>,
    owner: Seq<char>,
    w: AppWallet,
)
    requires
        wallet_ensured(s1, s2, kind, owner, Ok(w)),
    ensures
        s2.wallet_of(kind, owner) == Some(w),
{
    if s1.wallet_of(kind, owner) is None {
        lemma_first_index_props(s1.wallets@, wallet_owned_by(kind, owner));
        lemma_first_index_push(s1.wallets@, wallet_owned_by(kind, owner), w);
    }
}

/// Booking on the owner's wallet by its id changes the owner's wallet.
proof fn lemma_booking_on_owner_wallet(
    s2: &Storage,
    s3: &Storage,
    kind: Seq<char>,
    owner: Seq<char>,
    w: AppWallet,
    amount: int,
    t: i64,
)
    requires
        s2.wallet_of(kind, owner) == Some(w),
        s2.wallet_ids_unique(),
        ({
            let wi = first_index(s2.wallets@, wallet_id_is(w.id@));
            wi >= 0 && s3.wallets@ == s2.wallets@.update(
                wi,
                AppWallet {
                    balance_credit_micros: (s2.wallets@[wi].balance_credit_micros + amount) as i64,
                    updated_at: t,
                    ..s2.wallets@[wi]
                },
            )
        }),
    ensures
        s3.wallet_of(kind, owner) == Some(
            AppWallet {
                balance_credit_micros: (w.balance_credit_micros + amount) as i64,
                updated_at: t,
                ..w
            },
        ),
        first_index(s2.wallets@, wallet_id_is(w.id@)) == first_index(s2.wallets@, wallet_owned_by(kind, owner)),
{
    let po = wallet_owned_by(kind, owner);
    let pi = wallet_id_is(w.id@);
    lemma_first_index_props(s2.wallets@, po);
    lemma_first_index_props(s2.wallets@, pi);
    let i = first_index(s2.wallets@, po);
    let j = first_index(s2.wallets@, pi);
    assert(s2.wallets@[i] == w);
    assert(pi(s2.wallets@[i]));
    if j < i {
        assert(s2.wallets@[j].id@ == s2.wallets@[i].id@);
    }
    assert(j == i);
    let nw = AppWallet {
        balance_credit_micros: (w.balance_credit_micros + amount) as i64,
        updated_at: t,
        ..w
    };
    lemma_first_index_update(s2.wallets@, po, i, nw);
}

/// With unique wallet ids, the owner's wallet is the first wallet with its id.
proof fn lemma_owner_wallet_index(s: &Storage, kind: Seq<char>, owner: Seq<char>, w: AppWallet)
    requires
        s.wallet_of(kind, owner) == Some(w),
        s.wallet_ids_unique(),
    ensures
        first_index(s.wallets@, wallet_id_is(w.id@)) == first_index(s.wallets@, wallet_owned_by(kind, owner)),
        first_index(s.wallets@, wallet_id_is(w.id@)) >= 0,
        s.wallets@[first_index(s.wallets@, wallet_id_is(w.id@))] == w,
{
    let po = wallet_owned_by(kind, owner);
    let pi = wallet_id_is(w.id@);
    lemma_first_index_props(s.wallets@, po);
    lemma_first_index_props(s.wallets@, pi);
    let i = first_index(s.wallets@, po);
    let j = first_index(s.wallets@, pi);
    assert(pi(s.wallets@[i]));
    if j < i {
        assert(s.wallets@[j].id@ == s.wallets@[i].id@);
    }
}

// ---------------------------------------------------------------- wallets of owners

/// A wallet just opened for an owner: empty, active, with a generated `wlt_` id.
pub open spec fn fresh_wallet(kind: Seq<char>, owner: Seq<char>, w: AppWallet) -> bool {
    &&& w.owner_kind@ == kind
    &&& w.owner_id@ == owner
    &&& w.balance_credit_micros == 0
    &&& w.frozen_credit_micros == 0
    &&& w.status@ == "active"@
    &&& w.created_at == w.updated_at
    &&& is_generated_id(w.id@, "wlt"@, 8)
}

/// The outcome of opening (or finding) the wallet of an owner whose kind and id
/// are already valid: the existing wallet, or a fresh one added to the table, or a
/// refusal because the drawn id is taken.
pub open spec fn wallet_ensured(
    old_store: &Storage,
    new_store: &Storage,
    kind: Seq<char>,
    owner: Seq<char>,
    res: Result<AppWallet, AppError>,
) -> bool {
    &&& new_store.unchanged_except(old_store, false, false, true, false, false, false, false)
    &&& match old_store.wallet_of(kind, owner) {
        Some(w) => res == Ok::<AppWallet, AppError>(w) && new_store.wallets@ == old_store.wallets@,
        None => match res {
            Ok(w) => fresh_wallet(kind, owner, w) && new_store.wallets@ == old_store.wallets@.push(w),
            Err(e) => e == AppError::Storage(StorageStep::EnsureWallet, StorageError::Duplicate)
                && new_store.wallets@ == old_store.wallets@ && old_store.wallet_id_drawn("wlt"@, 8),
        },
    }
}

/// The wallet of an owner, opened when missing.
fn ensure_wallet(store: &mut Storage, owner_kind: &str, owner_id: &str) -> (res: Result<AppWallet, AppError>)
    requires
        old(store).wallet_ids_unique(),
    ensures
        final(store).wallet_ids_unique(),
        match owner_kind_spec(owner_kind@) {
            Err(e) => res == Err::<AppWallet, AppError>(e) && *final(store) == *old(store),
            Ok(k) => if trim_seq(owner_id@).len() == 0 {
                res == Err::<AppWallet, AppError>(AppError::WalletOwnerIdEmpty) && *final(store) == *old(store)
            } else {
                wallet_ensured(old(store), final(store), k, trim_seq(owner_id@), res)
            },
        },
{
    let kind = normalize_owner_kind(owner_kind)?;
    let id = trim(owner_id);
    if is_empty_str(id.as_str()) {
        return Err(AppError::WalletOwnerIdEmpty);
    }
    let new_id = generate_id("wlt", 8);
    let now = now_ts();
    proof {
        reveal_strlit("wlt");
    }
    let ghost drawn = new_id@;
    let ghost s0 = *store;
    match store.ensure_wallet_for_owner(new_id, kind.as_str(), id.as_str(), now) {
        Ok(w) => Ok(w),
        Err(e) => {
            proof {
                lemma_wallet_id_drawn(&s0, drawn, "wlt"@, 8);
            }
            Err(AppError::Storage(StorageStep::EnsureWallet, e))
        },
    }
}

/// The user may own a wallet: it exists, is not an administrator, and is active.
pub open spec fn user_wallet_check(store: &Storage, user_id: Seq<char>) -> Result<AppUser, AppError> {
    let id = trim_seq(user_id);
    if id.len() == 0 {
        Err(AppError::UserOwnerNeedsUserId)
    } else {
        match store.user_by_id(id) {
            None => Err(AppError::UserNotFound),
            Some(u) => if !can_own_wallet(u) {
                Err(AppError::AdminNoWallet)
            } else if u.status@ != "active"@ {
                Err(AppError::UserDisabled)
            } else {
                Ok(u)
            },
        }
    }
}

fn ensure_user_can_own_wallet(store: &Storage, user_id: &str) -> (res: Result<AppUser, AppError>)
    ensures
        res == user_wallet_check(store, user_id@),
{
    let id = trim(user_id);
    if is_empty_str(id.as_str()) {
        return Err(AppError::UserOwnerNeedsUserId);
    }
    let user = match store.find_app_user_by_id(id.as_str()) {
        Some(u) => u,
        None => {
            return Err(AppError::UserNotFound);
        },
    };
    if !app_user_can_own_wallet(&user) {
        return Err(AppError::AdminNoWallet);
    }
    if !str_equal(user.status.as_str(), "active") {
        return Err(AppError::UserDisabled);
    }
    Ok(user)
}

// ---------------------------------------------------------------- users

/// The first reason to refuse a new user, checked in this order: the username,
/// the password, a taken username, the role, and an initial balance for an admin.
pub open spec fn create_check(
    store: &Storage,
    username: Seq<char>,
    password: Seq<char>,
    role: Option<Seq<char>>,
    initial: Option<i64>,
) -> Option<AppError> {
    match username_spec(username) {
        Err(e) => Some(e),
        Ok(name) => if !password_ok(password) {
            Some(AppError::PasswordTooShort)
        } else if store.user_by_username(name) is Some {
            Some(AppError::UsernameTaken)
        } else {
            match role_spec(role) {
                Err(e) => Some(e),
                Ok(r) => if r == "admin"@ && match initial {
                    Some(v) => v > 0,
                    None => false,
                } {
                    Some(AppError::AdminNoWallet)
                } else {
                    None
                },
            }
        },
    }
}

/// The positive initial balance of a request, 0 otherwise.
pub open spec fn initial_grant(initial: Option<i64>) -> int {
    match initial {
        Some(v) => if v > 0 {
            v as int
        } else {
            0
        },
        None => 0,
    }
}

/// A user row made for a creation request.
pub open spec fn created_user(
    u: AppUser,
    username: Seq<char>,
    password: Seq<char>,
    display_name: Option<Seq<char>>,
    role: Option<Seq<char>>,
) -> bool {
    &&& username_spec(username) == Ok::<Seq<char>, AppError>(u.username@)
    &&& role_spec(role) == Ok::<Seq<char>, AppError>(u.role@)
    &&& u.status@ == "active"@
    &&& opt_view(u.display_name) == normalize_optional_seq(display_name)
    &&& password_hash_matches(password, u.password_hash@)
    &&& u.created_at == u.updated_at
    &&& u.last_login_at is None
    &&& is_generated_id(u.id@, "usr"@, 8)
}

/// What creating a user did, when every check passed and it succeeded: the user
/// is added at the end of the table; a non-admin has a wallet credited with the
/// initial balance (on top of what an earlier wallet of that id held).
pub open spec fn user_created(
    old_store: &Storage,
    new_store: &Storage,
    input: AppUserCreateInput,
    u: AppUser,
) -> bool {
    &&& created_user(
        u,
        input.username@,
        input.password@,
        opt_view(input.display_name),
        opt_view(input.role),
    )
    &&& new_store.users@ == old_store.users@.push(u)
    &&& old_store.user_by_id(u.id@) is None
    &&& new_store.unchanged_except(old_store, true, false, true, true, false, false, false)
    &&& can_own_wallet(u) ==> match new_store.wallet_of("user"@, u.id@) {
        Some(w) => w.balance_credit_micros == match old_store.wallet_of("user"@, u.id@) {
            Some(w0) => w0.balance_credit_micros,
            None => 0,
        } + initial_grant(input.initial_balance_credit_micros),
        None => false,
    }
    &&& !can_own_wallet(u) ==> new_store.wallets@ == old_store.wallets@ && new_store.ledger@
        == old_store.ledger@
}

/// What a creation left behind when it failed after its checks passed: the drawn
/// user id was taken (so some stored user id has the drawn shape) and nothing
/// changed; or the user was added and then the drawn wallet id was taken (wallets
/// unchanged), or booking the initial balance failed because the drawn ledger id
/// was taken or the balance of an earlier wallet would overflow.
pub open spec fn create_failed(
    old_store: &Storage,
    new_store: &Storage,
    input: AppUserCreateInput,
    e: AppError,
) -> bool {
    ||| e == AppError::Storage(StorageStep::CreateUser, StorageError::Duplicate)
        && old_store.user_id_drawn("usr"@, 8)
        && new_store.unchanged_except(old_store, false, false, false, false, false, false, false)
    ||| exists|u: AppUser|
        {
            &&& created_user(
                u,
                input.username@,
                input.password@,
                opt_view(input.display_name),
                opt_view(input.role),
            )
            &&& can_own_wallet(u)
            &&& new_store.users@ == old_store.users@.push(u)
            &&& new_store.ledger@ == old_store.ledger@
            &&& new_store.unchanged_except(old_store, true, false, true, false, false, false, false)
            &&& (new_store.wallets@ == old_store.wallets@ || (old_store.wallet_of("user"@, u.id@) is None
                && exists|fw: AppWallet|
                fresh_wallet("user"@, u.id@, fw) && new_store.wallets@ == old_store.wallets@.push(fw)))
            &&& {
                ||| e == AppError::Storage(StorageStep::EnsureWallet, StorageError::Duplicate)
                    && old_store.wallet_of("user"@, u.id@) is None && new_store.wallets@ == old_store.wallets@
                    && old_store.wallet_id_drawn("wlt"@, 8)
                ||| e == AppError::Storage(StorageStep::GrantWallet, StorageError::Duplicate)
                    && old_store.ledger_id_drawn("wl"@, 8)
                ||| e == AppError::Storage(StorageStep::GrantWallet, StorageError::BalanceOverflow)
                    && old_store.wallet_of("user"@, u.id@) is Some && old_store.user_wallet_drawn("usr"@, 8)
            }
        }
}

/// Creates a user: checks the request, adds the user, opens the wallet of a
/// non-admin and books the initial balance on it.
fn create_app_user_with_storage(store: &mut Storage, input: AppUserCreateInput) -> (res: Result<
    AppUserPublicResult,
    AppError,
>)
    requires
        old(store).wallet_ids_unique(),
    ensures
        final(store).wallet_ids_unique(),
        match create_check(
            old(store),
            input.username@,
            input.password@,
            opt_view(input.role),
            input.initial_balance_credit_micros,
        ) {
            Some(e) => res == Err::<AppUserPublicResult, AppError>(e) && *final(store) == *old(store),
            None => match res {
                Ok(r) => exists|u: AppUser|
                    user_created(old(store), final(store), input, u) && r == shown_user(final(store), u),
                Err(e) => create_failed(old(store), final(store), input, e),
            },
        },
{
    let username = normalize_username(input.username.as_str())?;
    validate_password(input.password.as_str())?;
    if store.find_app_user_by_username(username.as_str()).is_some() {
        return Err(AppError::UsernameTaken);
    }
    let role_raw = match &input.role {
        Some(r) => Some(r.as_str()),
        None => None,
    };
    let role = normalize_role(role_raw)?;
    let initial = match input.initial_balance_credit_micros {
        Some(v) => v,
        None => 0,
    };
    if str_equal(role.as_str(), "admin") && initial > 0 {
        return Err(AppError::AdminNoWallet);
    }
    let now = now_ts();
    let display_raw = match &input.display_name {
        Some(d) => Some(d.as_str()),
        None => None,
    };
    let user = AppUser {
        id: generate_id("usr", 8),
        username,
        display_name: normalize_optional_text(display_raw),
        password_hash: hash_password(input.password.as_str()),
        role,
        status: "active".to_owned(),
        created_at: now,
        updated_at: now,
        last_login_at: None,
    };
    proof {
        reveal_strlit("usr");
    }
    let ghost u = user;
    let ghost s0 = *store;
    if let Err(e) = store.insert_app_user(copy_user(&user)) {
        proof {
            if s0.user_by_id(u.id@) is Some {
                lemma_user_id_drawn(&s0, u.id@, "usr"@, 8);
            }
        }
        return Err(AppError::Storage(StorageStep::CreateUser, e));
    }
    proof {
        assert(s0.user_by_username(u.username@) is None);
    }
    let ghost s1 = *store;
    if app_user_can_own_wallet(&user) {
        let wallet = match ensure_wallet(store, "user", user.id.as_str()) {
            Ok(w) => w,
            Err(e) => {
                proof {
                    lemma_user_kind();
                    lemma_generated_id_trimmed(u.id@, "usr"@, 8);
                }
                return Err(e);
            },
        };
        proof {
            lemma_user_kind();
            lemma_generated_id_trimmed(u.id@, "usr"@, 8);
            lemma_ensured_is_owner_wallet(&s1, store, "user"@, u.id@, wallet);
        }
        if initial > 0 {
            let ledger = AppWalletLedgerEntry {
                id: generate_id("wl", 8),
                wallet_id: wallet.id.clone(),
                entry_kind: "initial_grant".to_owned(),
                amount_credit_micros: initial,
                balance_after_credit_micros: 0,
                request_log_id: None,
                api_key_id: None,
                pricing_rule_id: None,
                raw_usage_json: None,
                note: Some("initial balance".to_owned()),
                created_by_user_id: None,
                created_at: now_ts(),
            };
            let ghost s2 = *store;
            proof {
                lemma_owner_wallet_index(&s2, "user"@, u.id@, wallet);
            }
            if let Err(e) = store.adjust_wallet_balance(&ledger) {
                proof {
                    if e == StorageError::Duplicate {
                        lemma_ledger_id_drawn(&s2, ledger.id@, "wl"@, 8);
                    }
                    if s0.wallet_of("user"@, u.id@) is Some {
                        lemma_user_wallet_drawn(&s0, u.id@, "usr"@, 8);
                    }
                    assert(created_user(
                        u,
                        input.username@,
                        input.password@,
                        opt_view(input.display_name),
                        opt_view(input.role),
                    ));
                    assert(store.users@ == s0.users@.push(u));
                }
                return Err(AppError::Storage(StorageStep::GrantWallet, e));
            }
            proof {
                lemma_booking_on_owner_wallet(
                    &s2,
                    store,
                    "user"@,
                    u.id@,
                    wallet,
                    initial as int,
                    ledger.created_at,
                );
            }
        }
    }
    let shown = show_user(store, user);
    Ok(shown)
}

/// Creates a user (see `create_check` for when it is refused).
pub fn create_app_user(store: &mut Storage, input: AppUserCreateInput) -> (res: Result<
    AppUserPublicResult,
    String,
>)
    requires
        old(store).wallet_ids_unique(),
    ensures
        final(store).wallet_ids_unique(),
        match create_check(
            old(store),
            input.username@,
            input.password@,
            opt_view(input.role),
            input.initial_balance_credit_micros,
        ) {
            Some(e) => fails_with(res, e) && *final(store) == *old(store),
            None => match res {
                Ok(r) => exists|u: AppUser|
                    user_created(old(store), final(store), input, u) && r == shown_user(final(store), u),
                Err(m) => exists|e: AppError| m@ == e.text() && create_failed(old(store), final(store), input, e),
            },
        },
        create_check(
            old(store),
            input.username@,
            input.password@,
            opt_view(input.role),
            input.initial_balance_credit_micros,
        ) is None && !old(store).user_id_drawn("usr"@, 8) && !old(store).wallet_id_drawn("wlt"@, 8)
            && !old(store).ledger_id_drawn("wl"@, 8) && !old(store).user_wallet_drawn("usr"@, 8) ==> res is Ok,
{
    match create_app_user_with_storage(store, input) {
        Ok(r) => Ok(r),
        Err(e) => Err(e.message()),
    }
}

// ---------------------------------------------------------------- sessions

/// After a user was created, the user is the one stored under its username, and a
/// later request for the same username (with a valid password) is refused as taken.
pub proof fn law_username_taken_after_create(
    before: Storage,
    after: Storage,
    input: AppUserCreateInput,
    u: AppUser,
    again: AppUserCreateInput,
)
    requires
        create_check(
            &before,
            input.username@,
            input.password@,
            opt_view(input.role),
            input.initial_balance_credit_micros,
        ) is None,
        user_created(&before, &after, input, u),
        username_spec(again.username@) == Ok::<Seq<char>, AppError>(u.username@),
        password_ok(again.password@),
    ensures
        after.user_by_username(u.username@) == Some(u),
        create_check(
            &after,
            again.username@,
            again.password@,
            opt_view(again.role),
            again.initial_balance_credit_micros,
        ) == Some(AppError::UsernameTaken),
{
    lemma_first_index_push(before.users@, username_is(u.username@), u);
}

/// `now` plus the session lifetime, saturating at `i64::MAX`.
pub open spec fn session_expiry(now: i64) -> i64 {
    if now + SESSION_TTL_SECONDS > i64::MAX {
        i64::MAX
    } else {
        (now + SESSION_TTL_SECONDS) as i64
    }
}

/// A session opened at `now` for the user with the token.
pub open spec fn session_for(s: AppUserSession, user: AppUser, token: Seq<char>, now: i64) -> bool {
    &&& s.user_id@ == user.id@
    &&& s.token_hash@ == token_hash_spec(token)
    &&& s.expires_at == session_expiry(now)
    &&& s.created_at == now
    &&& s.last_seen_at == Some(now)
    &&& s.revoked_at is None
    &&& is_generated_id(s.id@, "sess"@, 8)
}

/// What opening a session did: the session is added to `old_sessions`, the result
/// carries its token (`cms_` and 64 hex digits), its expiry and the user with the
/// wallet that `wallets` holds for it.
pub open spec fn session_opened(
    old_sessions: Seq<AppUserSession>,
    new_sessions: Seq<AppUserSession>,
    wallets: Seq<AppWallet>,
    user: AppUser,
    now: i64,
    r: AppLoginResult,
) -> bool {
    exists|s: AppUserSession|
        {
            &&& session_for(s, user, r.token@, now)
            &&& new_sessions == old_sessions.push(s)
            &&& r.expires_at == s.expires_at
            &&& r.user == public_user_spec(
                user,
                if can_own_wallet(user) {
                    find_first(wallets, wallet_owned_by("user"@, user.id@))
                } else {
                    None
                },
            )
            &&& is_generated_id(r.token@, "cms"@, 32)
        }
}

fn create_session_with_storage(store: &mut Storage, user: AppUser, now: i64) -> (res: Result<
    AppLoginResult,
    AppError,
>)
    ensures
        match res {
            Ok(r) => session_opened(old(store).sessions@, final(store).sessions@, old(store).wallets@, user, now, r)
                && final(store).unchanged_except(old(store), false, true, false, false, false, false, false),
            Err(e) => e == AppError::Storage(StorageStep::CreateSession, StorageError::Duplicate)
                && old(store).session_id_drawn("sess"@, 8) && *final(store) == *old(store),
        },
{
    let token = generate_session_token();
    let expires_at: i64 = if now > i64::MAX - SESSION_TTL_SECONDS {
        i64::MAX
    } else {
        now + SESSION_TTL_SECONDS
    };
    let session = AppUserSession {
        id: generate_id("sess", 8),
        user_id: user.id.clone(),
        token_hash: token_hash(token.as_str()),
        expires_at,
        created_at: now,
        last_seen_at: Some(now),
        revoked_at: None,
    };
    let ghost s = session;
    proof {
        reveal_strlit("cms");
        assert("cms"@ == seq!['c', 'm', 's']);
    }
    let ghost s0 = *store;
    if let Err(e) = store.insert_app_user_session(session) {
        proof {
            lemma_session_id_drawn(&s0, s.id@, "sess"@, 8);
        }
        return Err(AppError::Storage(StorageStep::CreateSession, e));
    }
    let shown = show_user(store, user);
    Ok(AppLoginResult { token, expires_at, user: shown })
}

/// The session and user a token resolves to at `now`: a live session of the
/// trimmed token's hash whose user exists and is active.
pub open spec fn resolve_spec(store: &Storage, token: Seq<char>, now: i64) -> Option<(AppUserSession, AppUser)> {
    let t = trim_seq(token);
    if t.len() == 0 {
        None
    } else {
        match store.active_session(token_hash_spec(t), now) {
            None => None,
            Some(s) => match store.user_by_id(s.user_id@) {
                None => None,
                Some(u) => if u.status@ == "active"@ {
                    Some((s, u))
                } else {
                    None
                },
            },
        }
    }
}

/// The sessions after the one with the id had its last-seen time set to `now`.
pub open spec fn sessions_touched(sessions: Seq<AppUserSession>, id: Seq<char>, now: i64) -> Seq<AppUserSession> {
    let i = first_index(sessions, crate::storage::session_id_is(id));
    if i >= 0 {
        sessions.update(i, crate::storage::touched_session(sessions[i], now))
    } else {
        sessions
    }
}

/// What resolving a token at `now` returned and did.
pub open spec fn session_resolved(
    old_store: &Storage,
    new_store: &Storage,
    token: Seq<char>,
    now: i64,
    res: Result<Option<AppSessionUserResult>, String>,
) -> bool {
    match resolve_spec(old_store, token, now) {
        None => res == Ok::<Option<AppSessionUserResult>, String>(None) && *new_store == *old_store,
        Some((s, u)) => {
            &&& res matches Ok(Some(r)) && r.session_id == s.id && r.expires_at == s.expires_at
                && r.user == shown_user(old_store, u)
            &&& new_store.sessions@ == sessions_touched(old_store.sessions@, s.id@, now)
            &&& new_store.unchanged_except(old_store, false, true, false, false, false, false, false)
        },
    }
}

/// Resolves a token at `now`.
fn resolve_app_user_session_at(store: &mut Storage, token: &str, now: i64) -> (res: Result<
    Option<AppSessionUserResult>,
    String,
>)
    ensures
        session_resolved(old(store), final(store), token@, now, res),
{
    let t = trim(token);
    if is_empty_str(t.as_str()) {
        return Ok(None);
    }
    let hash = token_hash(t.as_str());
    let session = match store.find_active_app_session_by_token_hash(hash.as_str(), now) {
        Some(s) => s,
        None => {
            return Ok(None);
        },
    };
    let user = match store.find_app_user_by_id(session.user_id.as_str()) {
        Some(u) => u,
        None => {
            return Ok(None);
        },
    };
    if !str_equal(user.status.as_str(), "active") {
        return Ok(None);
    }
    let ghost s0 = *store;
    let shown = show_user(store, user);
    store.touch_app_user_session(session.id.as_str(), now);
    Ok(Some(AppSessionUserResult { session_id: session.id, expires_at: session.expires_at, user: shown }))
}

/// The live session and active user behind a token, refreshing the session's
/// last-seen time; `None` for a blank, unknown, revoked or expired token or a
/// missing or disabled user. `now` is read from the clock.
pub fn resolve_app_user_session(store: &mut Storage, token: &str) -> (res: Result<
    Option<AppSessionUserResult>,
    String,
>)
    ensures
        exists|now: i64| session_resolved(old(store), final(store), token@, now, res),
{
    let now = now_ts();
    resolve_app_user_session_at(store, token, now)
}

/// The sessions after every live one of the hash was revoked at `now`.
pub open spec fn sessions_revoked(sessions: Seq<AppUserSession>, hash: Seq<char>, now: i64) -> Seq<AppUserSession> {
    Seq::new(sessions.len(), |i: int| crate::storage::revoked_session(sessions[i], hash, now))
}

/// Revokes every session of the (trimmed) token; a blank token changes nothing.
pub fn logout_app_user_session(store: &mut Storage, token: &str) -> (res: Result<(), String>)
    ensures
        res is Ok,
        trim_seq(token@).len() == 0 ==> *final(store) == *old(store),
        trim_seq(token@).len() != 0 ==> exists|now: i64|
            final(store).sessions@ == sessions_revoked(
                old(store).sessions@,
                token_hash_spec(trim_seq(token@)),
                now,
            ),
        final(store).unchanged_except(old(store), false, true, false, false, false, false, false),
{
    let t = trim(token);
    if is_empty_str(t.as_str()) {
        return Ok(());
    }
    let hash = token_hash(t.as_str());
    let now = now_ts();
    store.revoke_app_user_session_by_token_hash(hash.as_str(), now);
    assert(store.sessions@ =~= sessions_revoked(old(store).sessions@, hash@, now));
    Ok(())
}

/// A token that a login returned resolves, until its session expires, to the new
/// session and to the user as the login recorded them, provided no older live
/// session has the same token hash and the user's id is not shared.
pub proof fn law_login_session_resolves(
    before: Storage,
    after: Storage,
    u: AppUser,
    now: i64,
    r: AppLoginResult,
    later: i64,
)
    requires
        logged_in(&before, &after, u, now, Ok(r)),
        u.status@ == "active"@,
        before.user_by_id(u.id@) == Some(u),
        before.active_session(token_hash_spec(r.token@), later) is None,
        later < session_expiry(now),
    ensures
        resolve_spec(&after, r.token@, later) matches Some((s, u1)) && s.user_id@ == u.id@
            && s.expires_at == r.expires_at && u1 == (AppUser {
            last_login_at: Some(now),
            updated_at: now,
            ..u
        }),
{
    let u2 = AppUser { last_login_at: Some(now), updated_at: now, ..u };
    let s = choose|s: AppUserSession|
        {
            &&& session_for(s, u2, r.token@, now)
            &&& after.sessions@ == before.sessions@.push(s)
            &&& r.expires_at == s.expires_at
            &&& r.user == public_user_spec(
                u2,
                if can_own_wallet(u2) {
                    find_first(before.wallets@, wallet_owned_by("user"@, u2.id@))
                } else {
                    None
                },
            )
            &&& is_generated_id(r.token@, "cms"@, 32)
        };
    reveal_strlit("cms");
    lemma_generated_id_trimmed(r.token@, "cms"@, 32);
    let hash = token_hash_spec(r.token@);
    lemma_first_index_push(before.sessions@, crate::storage::session_active_for(hash, later), s);
    assert(after.active_session(hash, later) == Some(s));
    let i = first_index(before.users@, user_id_is(u.id@));
    lemma_first_index_props(before.users@, user_id_is(u.id@));
    lemma_first_index_update(before.users@, user_id_is(u.id@), i, u2);
    assert(after.user_by_id(u.id@) == Some(u2));
}

/// After a logout with a token, the token resolves to nothing at any time.
pub proof fn law_logout_session_stops_resolving(before: Storage, after: Storage, token: Seq<char>, now: i64, later: i64)
    requires
        trim_seq(token).len() != 0,
        after.sessions@ == sessions_revoked(before.sessions@, token_hash_spec(trim_seq(token)), now),
    ensures
        resolve_spec(&after, token, later) is None,
{
    let hash = token_hash_spec(trim_seq(token));
    let p = crate::storage::session_active_for(hash, later);
    assert forall|k: int| 0 <= k < after.sessions@.len() implies !p(#[trigger] after.sessions@[k]) by {
        assert(after.sessions@[k] == crate::storage::revoked_session(before.sessions@[k], hash, now));
    }
    lemma_first_index_props(after.sessions@, p);
}

/// The life of a login session: the token is `cms_` and the hex of 32 random
/// bytes (68 characters), the session expires fourteen days after the login
/// (saturating), the token resolves to the new session and the user as the login
/// recorded them until then, and after a logout with the token it resolves to
/// nothing. The conditions are those of `law_login_session_resolves`.
pub proof fn law_session_lifecycle(
    before: Storage,
    after: Storage,
    logged_out: Storage,
    u: AppUser,
    now: i64,
    r: AppLoginResult,
    later: i64,
    logout_time: i64,
    any_time: i64,
)
    requires
        logged_in(&before, &after, u, now, Ok(r)),
        u.status@ == "active"@,
        before.user_by_id(u.id@) == Some(u),
        before.active_session(token_hash_spec(r.token@), later) is None,
        later < session_expiry(now),
        logged_out.sessions@ == sessions_revoked(after.sessions@, token_hash_spec(trim_seq(r.token@)), logout_time),
    ensures
        is_generated_id(r.token@, "cms"@, 32),
        r.token@.len() == 68,
        r.expires_at == session_expiry(now),
        resolve_spec(&after, r.token@, later) matches Some((s, u1)) && s.user_id@ == u.id@
            && s.expires_at == r.expires_at && u1 == (AppUser {
            last_login_at: Some(now),
            updated_at: now,
            ..u
        }),
        resolve_spec(&logged_out, r.token@, any_time) is None,
{
    law_login_session_resolves(before, after, u, now, r, later);
    reveal_strlit("cms");
    let b = choose|b: Seq<u8>| b.len() == 32 && r.token@ == "cms"@ + seq!['_'] + hex_seq(b);
    lemma_hex_seq_len(b);
    lemma_generated_id_trimmed(r.token@, "cms"@, 32);
    law_logout_session_stops_resolving(after, logged_out, r.token@, logout_time, any_time);
}

/// The users after a login of the user with the id at `now`.
pub open spec fn users_logged_in(users: Seq<AppUser>, id: Seq<char>, now: i64) -> Seq<AppUser> {
    let i = first_index(users, user_id_is(id));
    if i >= 0 {
        users.update(i, AppUser { last_login_at: Some(now), updated_at: now, ..users[i] })
    } else {
        users
    }
}

/// Why a login is refused before anything changes.
pub open spec fn login_check(store: &Storage, username: Seq<char>, password: Seq<char>) -> Result<AppUser, AppError> {
    match username_spec(username) {
        Err(e) => Err(e),
        Ok(name) => match store.user_by_username(name) {
            None => Err(AppError::InvalidCredentials),
            Some(u) => if u.status@ != "active"@ || !password_hash_matches(password, u.password_hash@) {
                Err(AppError::InvalidCredentials)
            } else {
                Ok(u)
            },
        },
    }
}

/// What a login of `u` at `now` did and returned: the login time is recorded and
/// a session opened for the user as recorded.
pub open spec fn logged_in(
    old_store: &Storage,
    new_store: &Storage,
    u: AppUser,
    now: i64,
    res: Result<AppLoginResult, String>,
) -> bool {
    let u2 = AppUser { last_login_at: Some(now), updated_at: now, ..u };
    &&& new_store.users@ == users_logged_in(old_store.users@, u.id@, now)
    &&& match res {
        Ok(r) => session_opened(old_store.sessions@, new_store.sessions@, old_store.wallets@, u2, now, r)
            && new_store.unchanged_except(old_store, true, true, false, false, false, false, false),
        Err(m) => m@ == AppError::Storage(StorageStep::CreateSession, StorageError::Duplicate).text()
            && old_store.session_id_drawn("sess"@, 8)
            && new_store.unchanged_except(old_store, true, false, false, false, false, false, false),
    }
}

/// Signs a user in at `now`.
fn login_app_user_at(store: &mut Storage, username: &str, password: &str, now: i64) -> (res: Result<
    AppLoginResult,
    String,
>)
    ensures
        match login_check(old(store), username@, password@) {
            Err(e) => fails_with(res, e) && *final(store) == *old(store),
            Ok(u) => logged_in(old(store), final(store), u, now, res),
        },
{
    let name = match normalize_username(username) {
        Ok(n) => n,
        Err(e) => {
            return Err(e.message());
        },
    };
    let user = match store.find_app_user_by_username(name.as_str()) {
        Some(u) => u,
        None => {
            return Err(AppError::InvalidCredentials.message());
        },
    };
    if !str_equal(user.status.as_str(), "active") || !verify_password_hash(
        password,
        user.password_hash.as_str(),
    ) {
        return Err(AppError::InvalidCredentials.message());
    }
    store.update_app_user_last_login(user.id.as_str(), now);
    let mut next = user;
    next.last_login_at = Some(now);
    next.updated_at = now;
    let ghost mid = *store;
    match create_session_with_storage(store, next, now) {
        Ok(r) => Ok(r),
        Err(e) => Err(e.message()),
    }
}

/// Signs a user in with username and password, opening a session; `now` is read
/// from the clock.
pub fn login_app_user(store: &mut Storage, username: &str, password: &str) -> (res: Result<
    AppLoginResult,
    String,
>)
    ensures
        match login_check(old(store), username@, password@) {
            Err(e) => fails_with(res, e) && *final(store) == *old(store),
            Ok(u) => exists|now: i64| logged_in(old(store), final(store), u, now, res),
        },
        login_check(old(store), username@, password@) is Ok && !old(store).session_id_drawn("sess"@, 8)
            ==> res is Ok,
{
    let now = now_ts();
    login_app_user_at(store, username, password, now)
}

/// The role `admin` is valid and stands for itself.
proof fn lemma_admin_role()
    ensures
        role_spec(Some("admin"@)) == Ok::<Seq<char>, AppError>("admin"@),
{
    reveal_strlit("admin");
    lemma_plain_word("admin"@);
}

/// Creates the first administrator and signs it in; refused once an active
/// administrator exists.
pub fn bootstrap_app_admin(
    store: &mut Storage,
    username: &str,
    password: &str,
    display_name: Option<&str>,
) -> (res: Result<AppLoginResult, String>)
    requires
        old(store).wallet_ids_unique(),
    ensures
        final(store).wallet_ids_unique(),
        old(store).active_admins() > 0 ==> fails_with(res, AppError::AdminAlreadyInitialized)
            && *final(store) == *old(store),
        old(store).active_admins() == 0 ==> match create_check(
            old(store),
            username@,
            password@,
            Some("admin"@),
            Some(0i64),
        ) {
            Some(e) => fails_with(res, e) && *final(store) == *old(store),
            None => match res {
                Ok(r) => exists|u: AppUser, now: i64|
                    {
                        &&& created_user(u, username@, password@, opt_str_view(display_name), Some("admin"@))
                        &&& u.role@ == "admin"@
                        &&& final(store).users@ == old(store).users@.push(u)
                        &&& final(store).active_admins() == 1
                        &&& final(store).wallets@ == old(store).wallets@
                        &&& final(store).ledger@ == old(store).ledger@
                        &&& session_opened(old(store).sessions@, final(store).sessions@, old(store).wallets@, u, now, r)
                    },
                Err(m) => {
                    ||| m@ == AppError::Storage(StorageStep::CreateUser, StorageError::Duplicate).text()
                        && old(store).user_id_drawn("usr"@, 8)
                        && final(store).unchanged_except(old(store), false, false, false, false, false, false, false)
                    ||| m@ == AppError::Storage(StorageStep::CreateSession, StorageError::Duplicate).text()
                        && old(store).session_id_drawn("sess"@, 8)
                        && exists|u: AppUser|
                        {
                            &&& created_user(u, username@, password@, opt_str_view(display_name), Some("admin"@))
                            &&& final(store).users@ == old(store).users@.push(u)
                            &&& final(store).unchanged_except(old(store), true, false, false, false, false, false, false)
                        }
                },
            },
        },
        old(store).active_admins() == 0 && create_check(
            old(store),
            username@,
            password@,
            Some("admin"@),
            Some(0i64),
        ) is None && !old(store).user_id_drawn("usr"@, 8) && !old(store).session_id_drawn("sess"@, 8)
            ==> res is Ok,
{
    if store.active_admin_count() > 0 {
        return Err(AppError::AdminAlreadyInitialized.message());
    }
    let input = AppUserCreateInput {
        username: username.to_owned(),
        password: password.to_owned(),
        display_name: match display_name {
            Some(d) => Some(d.to_owned()),
            None => None,
        },
        role: Some("admin".to_owned()),
        initial_balance_credit_micros: Some(0),
    };
    let ghost s0 = *store;
    proof {
        lemma_admin_role();
    }
    let public = match create_app_user_with_storage(store, input) {
        Ok(p) => p,
        Err(e) => {
            return Err(e.message());
        },
    };
    proof {
        lemma_admin_role();
    }
    let ghost s1 = *store;
    let user = match store.find_app_user_by_id(public.id.as_str()) {
        Some(u) => u,
        None => {
            proof {
                let u = choose|u: AppUser| user_created(&s0, &s1, input, u) && public == shown_user(&s1, u);
                lemma_first_index_push(s0.users@, user_id_is(u.id@), u);
            }
            return Err(AppError::AdminCreationFailed.message());
        },
    };
    proof {
        let u = choose|u: AppUser| user_created(&s0, &s1, input, u) && public == shown_user(&s1, u);
        lemma_first_index_push(s0.users@, user_id_is(u.id@), u);
        assert(user == u);
        lemma_count_push(s0.users@, is_active_admin(), u);
        reveal_strlit("active");
    }
    let now = now_ts();
    match create_session_with_storage(store, user, now) {
        Ok(r) => Ok(r),
        Err(e) => Err(e.message()),
    }
}

/// Why an update of a user is refused before anything changes, or the user,
/// the role and the status it leads to. A blank role in the request reads as
/// `member`; an absent one keeps the current role, as an absent status does.
pub open spec fn update_check(store: &Storage, input: AppUserUpdateInput) -> Result<
    (AppUser, Seq<char>, Seq<char>),
    AppError,
> {
    let id = trim_seq(input.id@);
    if id.len() == 0 {
        Err(AppError::UserIdEmpty)
    } else {
        match store.user_by_id(id) {
            None => Err(AppError::UserNotFound),
            Some(cur) => {
                let role = match input.role {
                    Some(r) => role_spec(Some(r@)),
                    None => Ok(cur.role@),
                };
                let status = match input.status {
                    Some(st) => status_spec(st@),
                    None => Ok(cur.status@),
                };
                match role {
                    Err(e) => Err(e),
                    Ok(r) => match status {
                        Err(e) => Err(e),
                        Ok(st) => if cur.role@ == "admin"@ && cur.status@ == "active"@ && (r
                            != "admin"@ || st != "active"@) && store.active_admins() <= 1 {
                            Err(AppError::LastActiveAdmin)
                        } else {
                            Ok((cur, r, st))
                        },
                    },
                }
            },
        }
    }
}

/// The user row after an update: display name, role and status set, the
/// password hash kept or replaced by one for `password`.
pub open spec fn user_updated(
    cur: AppUser,
    next: AppUser,
    input: AppUserUpdateInput,
    role: Seq<char>,
    status: Seq<char>,
    new_password: bool,
) -> bool {
    &&& next.id == cur.id
    &&& next.username == cur.username
    &&& next.created_at == cur.created_at
    &&& next.last_login_at == cur.last_login_at
    &&& opt_view(next.display_name) == normalize_optional_seq(opt_view(input.display_name))
    &&& next.role@ == role
    &&& next.status@ == status
    &&& if new_password {
        match normalize_optional_seq(opt_view(input.password)) {
            Some(p) => password_hash_matches(p, next.password_hash@),
            None => false,
        }
    } else {
        next.password_hash == cur.password_hash
    }
}

/// Writes the display name, role and status of the user with the id, then its
/// new password, which is refused (after the other fields were written) when
/// shorter than 8 bytes.
fn write_user_update(
    store: &mut Storage,
    uid: &str,
    current: &AppUser,
    next_role: String,
    next_status: String,
    input: &AppUserUpdateInput,
) -> (res: Result<(), AppError>)
    requires
        old(store).user_by_id(uid@) == Some(*current),
        current.id@ == uid@,
    ensures
        ({
            let i = first_index(old(store).users@, user_id_is(uid@));
            let pw = normalize_optional_seq(opt_view(input.password));
            &&& final(store).same_except_users(old(store))
            &&& if pw matches Some(p) && !password_ok(p) {
                res == Err::<(), AppError>(AppError::PasswordTooShort)
            } else {
                res is Ok
            }
            &&& exists|next: AppUser|
                user_updated(
                    *current,
                    next,
                    *input,
                    next_role@,
                    next_status@,
                    res is Ok && pw is Some,
                ) && final(store).users@ == old(store).users@.update(i, next)
        }),
{
    let ghost s0 = *store;
    let ghost p = user_id_is(uid@);
    let ghost i = first_index(s0.users@, p);
    proof {
        lemma_first_index_props(s0.users@, p);
    }
    let now = now_ts();
    let display_raw = match &input.display_name {
        Some(d) => Some(d.as_str()),
        None => None,
    };
    store.update_app_user_display_name(uid, normalize_optional_text(display_raw), now);
    proof {
        lemma_first_index_update(s0.users@, p, i, store.users@[i]);
    }
    let ghost s1 = *store;
    if !str_equal(current.role.as_str(), next_role.as_str()) {
        store.update_app_user_role(uid, next_role.clone(), now);
    }
    proof {
        lemma_first_index_update(s1.users@, p, i, store.users@[i]);
    }
    let ghost s2 = *store;
    if !str_equal(current.status.as_str(), next_status.as_str()) {
        store.update_app_user_status(uid, next_status.clone(), now);
    }
    let ghost row3 = store.users@[i];
    proof {
        lemma_first_index_update(s2.users@, p, i, row3);
        assert(store.users@ =~= s0.users@.update(i, row3));
        assert(user_updated(*current, row3, *input, next_role@, next_status@, false));
    }
    let ghost s3 = *store;
    let password_raw = match &input.password {
        Some(pw) => Some(pw.as_str()),
        None => None,
    };
    if let Some(pw) = normalize_optional_text(password_raw) {
        if let Err(e) = validate_password(pw.as_str()) {
            return Err(e);
        }
        let h = hash_password(pw.as_str());
        store.update_app_user_password_hash(uid, h, now);
        proof {
            assert(store.users@ =~= s0.users@.update(i, store.users@[i]));
            assert(user_updated(*current, store.users@[i], *input, next_role@, next_status@, true));
        }
    }
    Ok(())
}

/// Changes a user's display name, role, status and password. The last active
/// administrator cannot be demoted or disabled. A new password shorter than 8
/// bytes is refused after the other fields were written.
pub fn update_app_user(store: &mut Storage, input: AppUserUpdateInput) -> (res: Result<
    AppUserPublicResult,
    String,
>)
    requires
        old(store).wallet_ids_unique(),
    ensures
        final(store).wallet_ids_unique(),
        old(store).active_admins() >= 1 ==> final(store).active_admins() >= 1,
        match update_check(old(store), input) {
            Err(e) => fails_with(res, e) && *final(store) == *old(store),
            Ok((cur, role, status)) => {
                let i = first_index(old(store).users@, user_id_is(cur.id@));
                let pw = normalize_optional_seq(opt_view(input.password));
                if pw matches Some(p) && !password_ok(p) {
                    &&& fails_with(res, AppError::PasswordTooShort)
                    &&& exists|next: AppUser|
                        user_updated(cur, next, input, role, status, false)
                            && final(store).users@ == old(store).users@.update(i, next)
                    &&& final(store).same_except_users(old(store))
                } else {
                    exists|next: AppUser|
                        {
                            &&& user_updated(cur, next, input, role, status, pw is Some)
                            &&& final(store).users@ == old(store).users@.update(i, next)
                            &&& final(store).unchanged_except(old(store), true, false, true, false, false, false, false)
                            &&& match res {
                                Ok(r) => r == shown_user(final(store), next) && (can_own_wallet(next) ==> final(store).wallet_of("user"@, next.id@) is Some),
                                Err(m) => {
                                    &&& m@ == AppError::Storage(StorageStep::EnsureWallet, StorageError::Duplicate).text()
                                    &&& can_own_wallet(next)
                                    &&& old(store).wallet_of("user"@, next.id@) is None
                                    &&& old(store).wallet_id_drawn("wlt"@, 8)
                                    &&& final(store).wallets@ == old(store).wallets@
                                },
                            }
                        }
                }
            },
        },
        update_check(old(store), input) is Ok && !(normalize_optional_seq(opt_view(input.password)) matches Some(
            p,
        ) && !password_ok(p)) && !old(store).wallet_id_drawn("wlt"@, 8) ==> res is Ok,
{
    let uid = trim(input.id.as_str());
    if is_empty_str(uid.as_str()) {
        return Err(AppError::UserIdEmpty.message());
    }
    let current = match store.find_app_user_by_id(uid.as_str()) {
        Some(u) => u,
        None => {
            return Err(AppError::UserNotFound.message());
        },
    };
    let next_role = match &input.role {
        Some(r) => match normalize_role(Some(r.as_str())) {
            Ok(v) => v,
            Err(e) => {
                return Err(e.message());
            },
        },
        None => current.role.clone(),
    };
    let next_status = match &input.status {
        Some(st) => match normalize_status(st.as_str()) {
            Ok(v) => v,
            Err(e) => {
                return Err(e.message());
            },
        },
        None => current.status.clone(),
    };
    let cur_active_admin = str_equal(current.role.as_str(), "admin") && str_equal(
        current.status.as_str(),
        "active",
    );
    let stays_active_admin = str_equal(next_role.as_str(), "admin") && str_equal(
        next_status.as_str(),
        "active",
    );
    if cur_active_admin && !stays_active_admin {
        if store.active_admin_count() <= 1 {
            return Err(AppError::LastActiveAdmin.message());
        }
    }
    let ghost s0 = *store;
    let ghost i = first_index(s0.users@, user_id_is(uid@));
    proof {
        lemma_first_index_props(s0.users@, user_id_is(uid@));
        lemma_trim_idempotent(input.id@);
    }
    let written = write_user_update(store, uid.as_str(), &current, next_role, next_status, &input);
    let ghost next = choose|next: AppUser|
        user_updated(
            current,
            next,
            input,
            update_check(&s0, input)->Ok_0.1,
            update_check(&s0, input)->Ok_0.2,
            written is Ok && normalize_optional_seq(opt_view(input.password)) is Some,
        ) && store.users@ == s0.users@.update(i, next);
    proof {
        lemma_first_index_update(s0.users@, user_id_is(uid@), i, next);
        lemma_count_update(s0.users@, is_active_admin(), i, next);
        assert(is_active_admin()(next) == stays_active_admin);
        assert(is_active_admin()(current) == cur_active_admin);
    }
    if let Err(e) = written {
        return Err(e.message());
    }
    let updated = match store.find_app_user_by_id(uid.as_str()) {
        Some(u) => u,
        None => {
            return Err(AppError::UserNotFound.message());
        },
    };
    assert(updated == next);
    let ghost s4 = *store;
    let wallet = if app_user_can_own_wallet(&updated) {
        match ensure_wallet(store, "user", updated.id.as_str()) {
            Ok(w) => {
                proof {
                    lemma_user_kind();
                    lemma_ensured_is_owner_wallet(&s4, store, "user"@, uid@, w);
                }
                Some(w)
            },
            Err(e) => {
                proof {
                    lemma_user_kind();
                }
                return Err(e.message());
            },
        }
    } else {
        None
    };
    Ok(public_user(updated, wallet))
}

/// The caller's user id, trimmed; `None` when it has none or a blank one.
pub open spec fn actor_user_id(actor: &RpcActor) -> Option<Seq<char>> {
    normalize_optional_seq(opt_view(actor.user_id))
}

fn actor_user_id_exec(actor: &RpcActor) -> (res: Option<String>)
    ensures
        opt_view(res) == actor_user_id(actor),
{
    match &actor.user_id {
        Some(u) => normalize_optional_text(Some(u.as_str())),
        None => None,
    }
}

/// Sets the caller's own display name (trimmed; blank clears it).
pub fn update_app_user_profile(
    store: &mut Storage,
    actor: &RpcActor,
    display_name: Option<&str>,
) -> (res: Result<AppUserPublicResult, String>)
    ensures
        match actor_user_id(actor) {
            None => fails_with(res, AppError::ProfileNeedsSession) && *final(store) == *old(store),
            Some(uid) => match old(store).user_by_id(uid) {
                None => fails_with(res, AppError::CurrentUserMissing) && *final(store) == *old(store),
                Some(u) => exists|next: AppUser|
                    {
                        &&& next.id == u.id && next.username == u.username && next.role == u.role
                            && next.status == u.status && next.password_hash == u.password_hash
                            && next.created_at == u.created_at && next.last_login_at == u.last_login_at
                        &&& opt_view(next.display_name) == normalize_optional_seq(opt_str_view(display_name))
                        &&& final(store).users@ == old(store).users@.update(
                            first_index(old(store).users@, user_id_is(uid)),
                            next,
                        )
                        &&& final(store).same_except_users(old(store))
                        &&& res == Ok::<AppUserPublicResult, String>(shown_user(final(store), next))
                    },
            },
        },
{
    let uid = match actor_user_id_exec(actor) {
        Some(u) => u,
        None => {
            return Err(AppError::ProfileNeedsSession.message());
        },
    };
    if store.find_app_user_by_id(uid.as_str()).is_none() {
        return Err(AppError::CurrentUserMissing.message());
    }
    let ghost s0 = *store;
    let ghost p = user_id_is(uid@);
    let ghost i = first_index(s0.users@, p);
    proof {
        lemma_first_index_props(s0.users@, p);
    }
    let now = now_ts();
    store.update_app_user_display_name(uid.as_str(), normalize_optional_text(display_name), now);
    proof {
        lemma_first_index_update(s0.users@, p, i, store.users@[i]);
    }
    let user = match store.find_app_user_by_id(uid.as_str()) {
        Some(u) => u,
        None => {
            return Err(AppError::CurrentUserMissing.message());
        },
    };
    Ok(show_user(store, user))
}

/// Changes the caller's own password after checking the current one; the new
/// password must have at least 8 bytes.
pub fn change_app_user_password(
    store: &mut Storage,
    actor: &RpcActor,
    current_password: &str,
    new_password: &str,
) -> (res: Result<(), String>)
    ensures
        match actor_user_id(actor) {
            None => fails_with(res, AppError::PasswordChangeNeedsSession) && *final(store) == *old(store),
            Some(uid) => if !password_ok(new_password@) {
                fails_with(res, AppError::PasswordTooShort) && *final(store) == *old(store)
            } else {
                match old(store).user_by_id(uid) {
                    None => fails_with(res, AppError::CurrentUserMissing) && *final(store) == *old(store),
                    Some(u) => if !password_hash_matches(current_password@, u.password_hash@) {
                        fails_with(res, AppError::WrongCurrentPassword) && *final(store) == *old(store)
                    } else {
                        exists|h: String, now: i64|
                            {
                                &&& password_hash_matches(new_password@, h@)
                                &&& final(store).users@ == old(store).users@.update(
                                    first_index(old(store).users@, user_id_is(uid)),
                                    AppUser { password_hash: h, updated_at: now, ..u },
                                )
                                &&& final(store).same_except_users(old(store))
                                &&& res is Ok
                            }
                    },
                }
            },
        },
{
    let uid = match actor_user_id_exec(actor) {
        Some(u) => u,
        None => {
            return Err(AppError::PasswordChangeNeedsSession.message());
        },
    };
    if let Err(e) = validate_password(new_password) {
        return Err(e.message());
    }
    let user = match store.find_app_user_by_id(uid.as_str()) {
        Some(u) => u,
        None => {
            return Err(AppError::CurrentUserMissing.message());
        },
    };
    if !verify_password_hash(current_password, user.password_hash.as_str()) {
        return Err(AppError::WrongCurrentPassword.message());
    }
    let h = hash_password(new_password);
    let now = now_ts();
    store.update_app_user_password_hash(uid.as_str(), h, now);
    Ok(())
}

/// After a user's password was changed, the stored user differs only in its hash
/// and update time, and the new password signs the user in, provided the user is
/// active and no two users share an id or a username.
pub proof fn law_changed_password_signs_in(
    before: Storage,
    after: Storage,
    u: AppUser,
    h: String,
    now: i64,
    username: Seq<char>,
    new_password: Seq<char>,
)
    requires
        before.user_keys_unique(),
        before.user_by_id(u.id@) == Some(u),
        after.users@ == before.users@.update(
            first_index(before.users@, user_id_is(u.id@)),
            AppUser { password_hash: h, updated_at: now, ..u },
        ),
        password_hash_matches(new_password, h@),
        u.status@ == "active"@,
        username_spec(username) == Ok::<Seq<char>, AppError>(u.username@),
    ensures
        after.user_by_id(u.id@) == Some(AppUser { password_hash: h, updated_at: now, ..u }),
        login_check(&after, username, new_password) == Ok::<AppUser, AppError>(
            AppUser { password_hash: h, updated_at: now, ..u },
        ),
{
    let users = before.users@;
    let i = first_index(users, user_id_is(u.id@));
    let p = username_is(u.username@);
    lemma_first_index_props(users, user_id_is(u.id@));
    lemma_first_index_props(users, p);
    let j = first_index(users, p);
    assert(p(users[i]));
    assert(j == i) by {
        if j < i {
            assert(users[j].username@ == users[i].username@);
        }
    }
    let next = AppUser { password_hash: h, updated_at: now, ..u };
    lemma_first_index_update(users, p, i, next);
    lemma_first_index_update(users, user_id_is(u.id@), i, next);
    assert(after.user_by_username(u.username@) == Some(next));
}

// ---------------------------------------------------------------- wallets

/// The balance of the owner's wallet before a booking, 0 when it has none.
pub open spec fn balance_before(store: &Storage, kind: Seq<char>, owner: Seq<char>) -> int {
    match store.wallet_of(kind, owner) {
        Some(w) => w.balance_credit_micros as int,
        None => 0,
    }
}

/// Why a top-up is refused before anything changes.
pub open spec fn top_up_check(store: &Storage, kind: Seq<char>, owner: Seq<char>, amount: i64) -> Option<AppError> {
    if amount <= 0 {
        Some(AppError::TopUpNotPositive)
    } else {
        match owner_kind_spec(kind) {
            Err(e) => Some(e),
            Ok(k) => if k == "user"@ && user_wallet_check(store, owner) is Err {
                Some(user_wallet_check(store, owner)->Err_0)
            } else if trim_seq(owner).len() == 0 {
                Some(AppError::WalletOwnerIdEmpty)
            } else {
                None
            },
        }
    }
}

/// What a top-up did and returned: a refused request changes nothing; otherwise
/// the owner's wallet (opened when missing) is credited and a `manual_adjustment`
/// entry booked, or a taken drawn id or an overflowing balance stopped it.
pub open spec fn top_up_outcome(
    old_store: &Storage,
    new_store: &Storage,
    owner_kind: Seq<char>,
    owner_id: Seq<char>,
    amount_credit_micros: i64,
    note: Option<Seq<char>>,
    created_by_user_id: Option<Seq<char>>,
    res: Result<AppWalletResult, String>,
) -> bool {
    match top_up_check(old_store, owner_kind, owner_id, amount_credit_micros) {
        Some(e) => fails_with(res, e) && *new_store == *old_store,
        None => {
            let k = owner_kind_spec(owner_kind)->Ok_0;
            let o = trim_seq(owner_id);
            &&& new_store.unchanged_except(old_store, false, false, true, true, false, false, false)
            &&& match res {
                Ok(r) => exists|w: AppWallet, e: AppWalletLedgerEntry|
                    {
                        &&& new_store.wallet_of(k, o) == Some(w)
                        &&& w.balance_credit_micros == balance_before(old_store, k, o) + amount_credit_micros
                        &&& r == wallet_result_spec(w)
                        &&& new_store.ledger@ == old_store.ledger@.push(e)
                        &&& e.wallet_id == w.id && e.entry_kind@ == "manual_adjustment"@
                        &&& e.amount_credit_micros == amount_credit_micros
                        &&& e.balance_after_credit_micros == w.balance_credit_micros
                        &&& opt_view(e.note) == normalize_optional_seq(note)
                        &&& opt_view(e.created_by_user_id) == normalize_optional_seq(created_by_user_id)
                        &&& e.created_at == w.updated_at
                        &&& match old_store.wallet_of(k, o) {
                            Some(w0) => w == AppWallet {
                                balance_credit_micros: w.balance_credit_micros,
                                updated_at: w.updated_at,
                                ..w0
                            },
                            None => fresh_wallet(
                                k,
                                o,
                                AppWallet { balance_credit_micros: 0, updated_at: w.created_at, ..w },
                            ),
                        }
                    },
                Err(m) => {
                    &&& new_store.ledger@ == old_store.ledger@
                    &&& (new_store.wallets@ == old_store.wallets@ || (old_store.wallet_of(k, o) is None
                        && exists|fw: AppWallet|
                        fresh_wallet(k, o, fw) && new_store.wallets@ == old_store.wallets@.push(fw)))
                    &&& {
                        ||| (old_store.wallet_of(k, o) is None && new_store.wallets@ == old_store.wallets@
                            && old_store.wallet_id_drawn("wlt"@, 8)
                            && m@ == AppError::Storage(StorageStep::EnsureWallet, StorageError::Duplicate).text())
                        ||| (m@ == AppError::Storage(StorageStep::AdjustWallet, StorageError::Duplicate).text()
                            && old_store.ledger_id_drawn("wl"@, 8))
                        ||| (m@ == AppError::Storage(StorageStep::AdjustWallet, StorageError::BalanceOverflow).text()
                            && balance_before(old_store, k, o) + amount_credit_micros > i64::MAX)
                    }
                },
            }
        },
    }
}

/// Credits a user's or project's wallet (opened when missing) by a positive amount
/// and books a `manual_adjustment` entry with the note and the creator.
pub fn wallet_top_up(
    store: &mut Storage,
    owner_kind: &str,
    owner_id: &str,
    amount_credit_micros: i64,
    note: Option<&str>,
    created_by_user_id: Option<&str>,
) -> (res: Result<AppWalletResult, String>)
    requires
        old(store).wallet_ids_unique(),
    ensures
        final(store).wallet_ids_unique(),
        top_up_outcome(
            old(store),
            final(store),
            owner_kind@,
            owner_id@,
            amount_credit_micros,
            opt_str_view(note),
            opt_str_view(created_by_user_id),
            res,
        ),
        top_up_check(old(store), owner_kind@, owner_id@, amount_credit_micros) is None && !old(store).wallet_id_drawn(
            "wlt"@,
            8,
        ) && !old(store).ledger_id_drawn("wl"@, 8) && balance_before(
            old(store),
            owner_kind_spec(owner_kind@)->Ok_0,
            trim_seq(owner_id@),
        ) + amount_credit_micros <= i64::MAX ==> res is Ok,
{
    if amount_credit_micros <= 0 {
        return Err(AppError::TopUpNotPositive.message());
    }
    let kind = match normalize_owner_kind(owner_kind) {
        Ok(k) => k,
        Err(e) => {
            return Err(e.message());
        },
    };
    let oid = trim(owner_id);
    proof {
        lemma_trim_idempotent(owner_id@);
    }
    if str_equal(kind.as_str(), "user") {
        if let Err(e) = ensure_user_can_own_wallet(store, oid.as_str()) {
            return Err(e.message());
        }
    }
    let ghost s0 = *store;
    let wallet = match ensure_wallet(store, kind.as_str(), oid.as_str()) {
        Ok(w) => w,
        Err(e) => {
            proof {
                if kind@ == "user"@ {
                    lemma_user_kind();
                } else {
                    lemma_project_kind();
                }
            }
            return Err(e.message());
        },
    };
    proof {
        if kind@ == "user"@ {
            lemma_user_kind();
        } else {
            lemma_project_kind();
        }
        lemma_ensured_is_owner_wallet(&s0, store, kind@, oid@, wallet);
        lemma_first_index_props(store.wallets@, wallet_owned_by(kind@, oid@));
        assert(wallet.owner_kind@ == kind@ && wallet.owner_id@ == oid@);
        assert(wallet.balance_credit_micros == balance_before(&s0, kind@, oid@));
    }
    let ledger = AppWalletLedgerEntry {
        id: generate_id("wl", 8),
        wallet_id: wallet.id.clone(),
        entry_kind: "manual_adjustment".to_owned(),
        amount_credit_micros,
        balance_after_credit_micros: 0,
        request_log_id: None,
        api_key_id: None,
        pricing_rule_id: None,
        raw_usage_json: None,
        note: normalize_optional_text(note),
        created_by_user_id: normalize_optional_text(created_by_user_id),
        created_at: now_ts(),
    };
    let ghost s1 = *store;
    proof {
        lemma_owner_wallet_index(&s1, kind@, oid@, wallet);
    }
    let entry = match store.adjust_wallet_balance(&ledger) {
        Ok(e) => e,
        Err(e) => {
            proof {
                if e == StorageError::Duplicate {
                    lemma_ledger_id_drawn(&s1, ledger.id@, "wl"@, 8);
                }
            }
            return Err(AppError::Storage(StorageStep::AdjustWallet, e).message());
        },
    };
    proof {
        lemma_booking_on_owner_wallet(
            &s1,
            store,
            kind@,
            oid@,
            wallet,
            amount_credit_micros as int,
            ledger.created_at,
        );
    }
    let next = match store.find_wallet_by_owner(wallet.owner_kind.as_str(), wallet.owner_id.as_str()) {
        Some(w) => w,
        None => {
            return Err(AppError::WalletMissing.message());
        },
    };
    Ok(wallet_result(next))
}

/// The owner kind and id an owner record bills to.
pub open spec fn owner_identity_spec(o: ApiKeyOwner) -> Result<(Seq<char>, Seq<char>), AppError> {
    if o.owner_kind@ == "user"@ {
        match o.owner_user_id {
            Some(u) => Ok(("user"@, u@)),
            None => Err(AppError::KeyUserOwnerMissing),
        }
    } else if o.owner_kind@ == "project"@ {
        match o.project_id {
            Some(p) => Ok(("project"@, p@)),
            None => Err(AppError::KeyProjectOwnerMissing),
        }
    } else {
        Err(AppError::KeyOwnerKindInvalid)
    }
}

fn owner_identity(owner: &ApiKeyOwner) -> (res: Result<(String, String), AppError>)
    ensures
        match res {
            Ok((k, i)) => owner_identity_spec(*owner) == Ok::<(Seq<char>, Seq<char>), AppError>((k@, i@)),
            Err(e) => owner_identity_spec(*owner) == Err::<(Seq<char>, Seq<char>), AppError>(e),
        },
{
    if str_equal(owner.owner_kind.as_str(), "user") {
        match &owner.owner_user_id {
            Some(u) => Ok(("user".to_owned(), u.clone())),
            None => Err(AppError::KeyUserOwnerMissing),
        }
    } else if str_equal(owner.owner_kind.as_str(), "project") {
        match &owner.project_id {
            Some(p) => Ok(("project".to_owned(), p.clone())),
            None => Err(AppError::KeyProjectOwnerMissing),
        }
    } else {
        Err(AppError::KeyOwnerKindInvalid)
    }
}

/// The owner record and wallet that a key's usage is billed to.
pub open spec fn billing_target_spec(store: &Storage, key_id: Seq<char>) -> Result<(ApiKeyOwner, AppWallet), AppError> {
    match store.owner_of_key(key_id) {
        None => Err(AppError::KeyOwnerUnassigned),
        Some(o) => match owner_identity_spec(o) {
            Err(e) => Err(e),
            Ok((k, id)) => if k == "user"@ && user_wallet_check(store, id) is Err {
                Err(user_wallet_check(store, id)->Err_0)
            } else {
                match store.wallet_of(k, id) {
                    None => Err(AppError::OwnerWalletMissing),
                    Some(w) => Ok((o, w)),
                }
            },
        },
    }
}

/// What looking up a key's billing target returns: the target, or the refusal's
/// message.
pub open spec fn billing_target_outcome(
    store: &Storage,
    key_id: Seq<char>,
    res: Result<(ApiKeyOwner, AppWallet), String>,
) -> bool {
    match billing_target_spec(store, key_id) {
        Ok(t) => res == Ok::<(ApiKeyOwner, AppWallet), String>(t),
        Err(e) => fails_with(res, e),
    }
}

/// The owner record and wallet that a key's usage is billed to: the key must have
/// an owner, a user owner must be an active non-administrator, and the owner must
/// have a wallet.
pub fn billing_target_for_key(store: &Storage, key_id: &str) -> (res: Result<(ApiKeyOwner, AppWallet), String>)
    ensures
        billing_target_outcome(store, key_id@, res),
{
    match billing_target(store, key_id) {
        Ok(t) => Ok(t),
        Err(e) => Err(e.message()),
    }
}

pub(crate) fn billing_target(store: &Storage, key_id: &str) -> (res: Result<(ApiKeyOwner, AppWallet), AppError>)
    ensures
        res == billing_target_spec(store, key_id@),
{
    let owner = match store.find_api_key_owner(key_id) {
        Some(o) => o,
        None => {
            return Err(AppError::KeyOwnerUnassigned);
        },
    };
    let (kind, id) = owner_identity(&owner)?;
    if str_equal(kind.as_str(), "user") {
        ensure_user_can_own_wallet(store, id.as_str())?;
    }
    match store.find_wallet_by_owner(kind.as_str(), id.as_str()) {
        Some(w) => Ok((owner, w)),
        None => Err(AppError::OwnerWalletMissing),
    }
}

/// The distribution switch read as the billing path reads it: a blank setting is unset.
pub open spec fn distribution_on_for_billing(store: &Storage) -> bool {
    match normalize_optional_seq(opt_view(store.distribution_enabled)) {
        Some(t) => parse_bool_spec(t, false),
        None => false,
    }
}

/// Whether a request with the key may be served: always while distribution is
/// off; otherwise the key's billing target must exist and its wallet be active
/// with more balance than frozen credit.
pub fn wallet_precheck_for_api_key(store: &Storage, key_id: &str) -> (res: Result<(), String>)
    ensures
        !distribution_on_for_billing(store) ==> res is Ok,
        distribution_on_for_billing(store) ==> match billing_target_spec(store, key_id@) {
            Err(e) => fails_with(res, e),
            Ok((o, w)) => if w.status@ != "active"@ {
                fails_with(res, AppError::OwnerWalletDisabled)
            } else if w.balance_credit_micros <= w.frozen_credit_micros {
                fails_with(res, AppError::OwnerWalletInsufficient)
            } else {
                res is Ok
            },
        },
{
    if !distribution_enabled_for_storage(store) {
        return Ok(());
    }
    let (_owner, wallet) = match billing_target(store, key_id) {
        Ok(t) => t,
        Err(e) => {
            return Err(e.message());
        },
    };
    if !str_equal(wallet.status.as_str(), "active") {
        return Err(AppError::OwnerWalletDisabled.message());
    }
    if wallet.balance_credit_micros <= wallet.frozen_credit_micros {
        return Err(AppError::OwnerWalletInsufficient.message());
    }
    Ok(())
}

/// Why assigning an owner to a key is refused before anything changes.
pub open spec fn owner_set_check(
    store: &Storage,
    key_id: Seq<char>,
    owner_kind: Seq<char>,
    owner_user_id: Option<Seq<char>>,
    project_id: Option<Seq<char>>,
) -> Option<AppError> {
    let key = trim_seq(key_id);
    if key.len() == 0 {
        Some(AppError::ApiKeyIdEmpty)
    } else if !store.has_api_key(key) {
        Some(AppError::ApiKeyNotFound)
    } else {
        match owner_kind_spec(owner_kind) {
            Err(e) => Some(e),
            Ok(k) => if k == "user"@ {
                match normalize_optional_seq(owner_user_id) {
                    None => Some(AppError::UserOwnerNeedsUserId),
                    Some(uid) => match user_wallet_check(store, uid) {
                        Err(e) => Some(e),
                        Ok(_) => None,
                    },
                }
            } else {
                match normalize_optional_seq(project_id) {
                    None => Some(AppError::ProjectOwnerNeedsProjectId),
                    Some(_) => None,
                }
            },
        }
    }
}

/// What assigning a key's owner did and returned: a refused request changes
/// nothing; otherwise the owner record is stored and the owner's wallet exists,
/// or opening that wallet failed on a taken drawn id.
pub open spec fn owner_set_outcome(
    old_store: &Storage,
    new_store: &Storage,
    key_id: Seq<char>,
    owner_kind: Seq<char>,
    owner_user_id: Option<Seq<char>>,
    project_id: Option<Seq<char>>,
    res: Result<ApiKeyOwnerResult, String>,
) -> bool {
    match owner_set_check(old_store, key_id, owner_kind, owner_user_id, project_id) {
        Some(e) => fails_with(res, e) && *new_store == *old_store,
        None => {
            let key = trim_seq(key_id);
            let k = owner_kind_spec(owner_kind)->Ok_0;
            let id = if k == "user"@ {
                normalize_optional_seq(owner_user_id)->Some_0
            } else {
                normalize_optional_seq(project_id)->Some_0
            };
            match res {
                Ok(r) => exists|o: ApiKeyOwner|
                    {
                        &&& o.key_id@ == key
                        &&& o.owner_kind@ == k
                        &&& (k == "user"@ ==> opt_view(o.owner_user_id) == Some(id) && o.project_id is None)
                        &&& (k != "user"@ ==> opt_view(o.project_id) == Some(id) && o.owner_user_id is None)
                        &&& new_store.owner_of_key(key) == Some(o)
                        &&& new_store.wallet_of(k, id) is Some
                        &&& r == owner_result_spec(o)
                        &&& new_store.unchanged_except(old_store, false, false, true, false, true, false, false)
                    },
                Err(m) => {
                    &&& old_store.wallet_of(k, id) is None
                    &&& old_store.wallet_id_drawn("wlt"@, 8)
                    &&& m@ == AppError::Storage(StorageStep::EnsureWallet, StorageError::Duplicate).text()
                    &&& new_store.unchanged_except(old_store, false, false, false, false, false, false, false)
                },
            }
        },
    }
}

/// Assigns a key to a user (an active non-administrator) or a project, opening the
/// owner's wallet when missing.
pub fn set_api_key_owner(
    store: &mut Storage,
    key_id: &str,
    owner_kind: &str,
    owner_user_id: Option<&str>,
    project_id: Option<&str>,
) -> (res: Result<ApiKeyOwnerResult, String>)
    requires
        old(store).wallet_ids_unique(),
    ensures
        final(store).wallet_ids_unique(),
        owner_set_outcome(old(store), final(store), key_id@, owner_kind@, opt_str_view(owner_user_id), opt_str_view(project_id), res),
        old(store).owner_keys_unique() ==> final(store).owner_keys_unique(),
        owner_set_check(old(store), key_id@, owner_kind@, opt_str_view(owner_user_id), opt_str_view(project_id))
            is None && !old(store).wallet_id_drawn("wlt"@, 8) ==> res is Ok,
{
    let key = trim(key_id);
    if is_empty_str(key.as_str()) {
        return Err(AppError::ApiKeyIdEmpty.message());
    }
    if !store.find_api_key_by_id(key.as_str()) {
        return Err(AppError::ApiKeyNotFound.message());
    }
    let kind = match normalize_owner_kind(owner_kind) {
        Ok(k) => k,
        Err(e) => {
            return Err(e.message());
        },
    };
    proof {
        lemma_user_kind();
        lemma_project_kind();
    }
    let ghost s0 = *store;
    let owner = if str_equal(kind.as_str(), "user") {
        let uid = match normalize_optional_text(owner_user_id) {
            Some(u) => u,
            None => {
                return Err(AppError::UserOwnerNeedsUserId.message());
            },
        };
        if let Err(e) = ensure_user_can_own_wallet(store, uid.as_str()) {
            return Err(e.message());
        }
        proof {
            lemma_trim_idempotent(opt_str_view(owner_user_id)->Some_0);
        }
        let w = match ensure_wallet(store, "user", uid.as_str()) {
            Ok(w) => w,
            Err(e) => {
                return Err(e.message());
            },
        };
        proof {
            lemma_ensured_is_owner_wallet(&s0, store, "user"@, uid@, w);
        }
        ApiKeyOwner {
            key_id: key.clone(),
            owner_kind: kind.clone(),
            owner_user_id: Some(uid),
            project_id: None,
            updated_at: now_ts(),
        }
    } else {
        let pid = match normalize_optional_text(project_id) {
            Some(p) => p,
            None => {
                return Err(AppError::ProjectOwnerNeedsProjectId.message());
            },
        };
        proof {
            lemma_trim_idempotent(opt_str_view(project_id)->Some_0);
        }
        let w = match ensure_wallet(store, "project", pid.as_str()) {
            Ok(w) => w,
            Err(e) => {
                return Err(e.message());
            },
        };
        proof {
            lemma_ensured_is_owner_wallet(&s0, store, "project"@, pid@, w);
        }
        ApiKeyOwner {
            key_id: key.clone(),
            owner_kind: kind.clone(),
            owner_user_id: None,
            project_id: Some(pid),
            updated_at: now_ts(),
        }
    };
    store.upsert_api_key_owner(copy_owner(&owner));
    Ok(api_key_owner_result(owner))
}


// ---------------------------------------------------------------- laws on sessions, owners and settings

/// A session opened at `now`, by a login or by the first administrator's sign-in,
/// expires fourteen days later: at `now + SESSION_TTL_SECONDS`, saturating at
/// `i64::MAX`; the stored session and the result carry that time.
pub proof fn law_session_lasts_fourteen_days(
    old_sessions: Seq<AppUserSession>,
    new_sessions: Seq<AppUserSession>,
    wallets: Seq<AppWallet>,
    user: AppUser,
    now: i64,
    r: AppLoginResult,
)
    requires
        session_opened(old_sessions, new_sessions, wallets, user, now, r),
    ensures
        SESSION_TTL_SECONDS == 14 * 24 * 60 * 60,
        r.expires_at == if now > i64::MAX - SESSION_TTL_SECONDS {
            i64::MAX as int
        } else {
            now + SESSION_TTL_SECONDS
        },
        new_sessions.len() == old_sessions.len() + 1,
        new_sessions.last().expires_at == r.expires_at,
        new_sessions.last().user_id@ == user.id@,
{
}

/// A login's token resolves to its user at every time before fourteen days have
/// passed since the login (when no older live session has the same token hash and
/// the user's id is not shared).
pub proof fn law_login_token_resolves_for_fourteen_days(
    before: Storage,
    after: Storage,
    u: AppUser,
    now: i64,
    r: AppLoginResult,
    later: i64,
)
    requires
        logged_in(&before, &after, u, now, Ok(r)),
        u.status@ == "active"@,
        before.user_by_id(u.id@) == Some(u),
        before.active_session(token_hash_spec(r.token@), later) is None,
        later < now + SESSION_TTL_SECONDS,
        later < i64::MAX,
    ensures
        resolve_spec(&after, r.token@, later) matches Some((s, u1)) && s.user_id@ == u.id@,
{
    law_login_session_resolves(before, after, u, now, r, later);
}

/// A user who is not active cannot be made the owner of an API key: once the key
/// and the owner id are given, a disabled non-administrator is refused with
/// `用户已禁用` and nothing changes.
pub proof fn law_disabled_user_cannot_own_keys(
    before: Storage,
    after: Storage,
    key_id: Seq<char>,
    owner_user_id: Seq<char>,
    u: AppUser,
    res: Result<ApiKeyOwnerResult, String>,
)
    requires
        owner_set_outcome(&before, &after, key_id, "user"@, Some(owner_user_id), None, res),
        trim_seq(key_id).len() > 0,
        before.has_api_key(trim_seq(key_id)),
        trim_seq(owner_user_id).len() > 0,
        before.user_by_id(trim_seq(owner_user_id)) == Some(u),
        u.role@ != "admin"@,
        u.status@ != "active"@,
    ensures
        res matches Err(m) && m@ == "用户已禁用"@,
        after == before,
{
    lemma_user_kind();
    lemma_trim_idempotent(owner_user_id);
}

/// A user who is not active cannot be credited: a positive top-up of a disabled
/// non-administrator is refused with `用户已禁用` and nothing changes.
pub proof fn law_disabled_user_cannot_be_topped_up(
    before: Storage,
    after: Storage,
    owner_id: Seq<char>,
    amount: i64,
    note: Option<Seq<char>>,
    created_by: Option<Seq<char>>,
    u: AppUser,
    res: Result<AppWalletResult, String>,
)
    requires
        top_up_outcome(&before, &after, "user"@, owner_id, amount, note, created_by, res),
        amount > 0,
        trim_seq(owner_id).len() > 0,
        before.user_by_id(trim_seq(owner_id)) == Some(u),
        u.role@ != "admin"@,
        u.status@ != "active"@,
    ensures
        res matches Err(m) && m@ == "用户已禁用"@,
        after == before,
{
    lemma_user_kind();
}

/// Usage of a key owned by a user who is not active is not billed: looking up the
/// key's billing target is refused with `用户已禁用`.
pub proof fn law_disabled_user_is_not_billed(
    store: Storage,
    key_id: Seq<char>,
    o: ApiKeyOwner,
    uid: String,
    u: AppUser,
    res: Result<(ApiKeyOwner, AppWallet), String>,
)
    requires
        billing_target_outcome(&store, key_id, res),
        store.owner_of_key(key_id) == Some(o),
        o.owner_kind@ == "user"@,
        o.owner_user_id == Some(uid),
        trim_seq(uid@).len() > 0,
        store.user_by_id(trim_seq(uid@)) == Some(u),
        u.role@ != "admin"@,
        u.status@ != "active"@,
    ensures
        res matches Err(m) && m@ == "用户已禁用"@,
{
}

/// With no mode stored, the mode in force (as `current_web_auth_mode` and the
/// authentication status report it) is `password` exactly when a web access
/// password hash that is not blank is stored, and `none` otherwise.
pub proof fn law_unset_mode_follows_password(store: Storage, mode: Seq<char>)
    requires
        store.web_auth_mode is None,
        mode == web_auth_mode_spec(&store),
    ensures
        mode == if store.web_access_password_hash matches Some(h) && trim_seq(h@).len() > 0 {
            "password"@
        } else {
            "none"@
        },
{
}

} // verus!
