//! The service's tables, held in memory: application users, their sessions and
//! wallets, the wallet ledger, API key ownership, settings, the model price catalog
//! the charge snapshots of requests and the billing rules.
//!
//! Lookups return the first matching row, as a `LIMIT 1` query does; inserts refuse
//! a row whose unique key is already taken.
use vstd::prelude::*;
use crate::billing::{ModelPriceTierV2, ChargeSnapshotV2};
use crate::table::{
    count_where, find_first, first_index, lemma_count_push, lemma_first_index_props,
    lemma_first_index_push, lemma_first_index_scan, lemma_first_index_update,
};
use crate::crypto::is_generated_id;
use crate::text::{str_equal, opt_view};

verus! {

/// A user of the application.
#[derive(Debug, Clone, PartialEq, Eq)]
pub struct AppUser {
    pub id: String,
    pub username: String,
    pub display_name: Option<String>,
    pub password_hash: String,
    pub role: String,
    pub status: String,
    pub created_at: i64,
    pub updated_at: i64,
    pub last_login_at: Option<i64>,
}

/// A credit wallet owned by a user or a project.
#[derive(Debug, Clone, PartialEq, Eq)]
pub struct AppWallet {
    pub id: String,
    pub owner_kind: String,
    pub owner_id: String,
    pub balance_credit_micros: i64,
    pub frozen_credit_micros: i64,
    pub status: String,
    pub created_at: i64,
    pub updated_at: i64,
}

/// One booking on a wallet.
#[derive(Debug, Clone, PartialEq, Eq)]
pub struct AppWalletLedgerEntry {
    pub id: String,
    pub wallet_id: String,
    pub entry_kind: String,
    pub amount_credit_micros: i64,
    pub balance_after_credit_micros: i64,
    pub request_log_id: Option<i64>,
    pub api_key_id: Option<String>,
    pub pricing_rule_id: Option<String>,
    pub raw_usage_json: Option<String>,
    pub note: Option<String>,
    pub created_by_user_id: Option<String>,
    pub created_at: i64,
}

/// A login session; only the hash of its token is kept.
#[derive(Debug, Clone, PartialEq, Eq)]
pub struct AppUserSession {
    pub id: String,
    pub user_id: String,
    pub token_hash: String,
    pub expires_at: i64,
    pub created_at: i64,
    pub last_seen_at: Option<i64>,
    pub revoked_at: Option<i64>,
}

/// Who an API key's usage is billed to.
#[derive(Debug, Clone, PartialEq, Eq)]
pub struct ApiKeyOwner {
    pub key_id: String,
    pub owner_kind: String,
    pub owner_user_id: Option<String>,
    pub project_id: Option<String>,
    pub updated_at: i64,
}

/// A model of the price catalog with its price status and tiers.
#[derive(Debug, Clone, PartialEq, Eq)]
pub struct CatalogModel {
    pub id: String,
    pub slug: String,
    /// `None` when the model has no price row.
    pub price_status: Option<String>,
    pub tiers: Vec<ModelPriceTierV2>,
}

/// A rule that scales the charge of matching requests. Each scope field that is
/// set and not blank narrows the rule to requests with that value.
#[derive(Debug, Clone, PartialEq, Eq)]
pub struct BillingRule {
    pub id: String,
    pub name: String,
    pub api_key_id: Option<String>,
    pub user_id: Option<String>,
    pub project_id: Option<String>,
    pub service_tier: Option<String>,
    /// A model name prefix, or a pattern where `*` stands for any text.
    pub model_pattern: Option<String>,
    /// The charge multiplier in thousandths.
    pub multiplier_millis: i64,
    pub priority: i64,
    pub enabled: bool,
    /// The rule applies from this time on, when set.
    pub starts_at: Option<i64>,
    /// The rule applies before this time, when set.
    pub ends_at: Option<i64>,
    pub updated_at: i64,
}

/// Why a table operation failed.
#[derive(Debug, Clone, Copy, PartialEq, Eq, Structural)]
pub enum StorageError {
    /// A row with the same unique key already exists.
    Duplicate,
    /// The wallet of a ledger entry does not exist.
    WalletNotFound,
    /// The new balance would not fit in an `i64`.
    BalanceOverflow,
}

impl StorageError {
    /// The text of the message that describes the error.
    pub open spec fn text(self) -> Seq<char> {
        match self {
            StorageError::Duplicate => "UNIQUE constraint failed"@,
            StorageError::WalletNotFound => "wallet not found"@,
            StorageError::BalanceOverflow => "wallet balance overflow"@,
        }
    }

    /// The message that describes the error.
    pub fn message(&self) -> (res: String)
        ensures
            res@ == self.text(),
    {
        let s = match self {
            StorageError::Duplicate => "UNIQUE constraint failed",
            StorageError::WalletNotFound => "wallet not found",
            StorageError::BalanceOverflow => "wallet balance overflow",
        };
        s.to_owned()
    }
}

/// The tables.
pub struct Storage {
    pub users: Vec<AppUser>,
    pub sessions: Vec<AppUserSession>,
    pub wallets: Vec<AppWallet>,
    pub ledger: Vec<AppWalletLedgerEntry>,
    /// The ids of the API keys that exist.
    pub api_keys: Vec<String>,
    pub api_key_owners: Vec<ApiKeyOwner>,
    pub models: Vec<CatalogModel>,
    pub snapshots: Vec<ChargeSnapshotV2>,
    pub billing_rules: Vec<BillingRule>,
    /// The persisted web authentication mode setting.
    pub web_auth_mode: Option<String>,
    /// The persisted distribution switch setting.
    pub distribution_enabled: Option<String>,
    /// The hash of the web access password, when one is set.
    pub web_access_password_hash: Option<String>,
}

// Row predicates.
pub open spec fn user_id_is(id: Seq<char>) -> spec_fn(AppUser) -> bool {
    |u: AppUser| u.id@ == id
}

pub open spec fn username_is(name: Seq<char>) -> spec_fn(AppUser) -> bool {
    |u: AppUser| u.username@ == name
}

pub open spec fn is_active_admin() -> spec_fn(AppUser) -> bool {
    |u: AppUser| u.role@ == "admin"@ && u.status@ == "active"@
}

pub open spec fn session_id_is(id: Seq<char>) -> spec_fn(AppUserSession) -> bool {
    |s: AppUserSession| s.id@ == id
}

pub open spec fn session_active_for(hash: Seq<char>, now: i64) -> spec_fn(AppUserSession) -> bool {
    |s: AppUserSession| s.token_hash@ == hash && s.revoked_at is None && s.expires_at > now
}

pub open spec fn wallet_id_is(id: Seq<char>) -> spec_fn(AppWallet) -> bool {
    |w: AppWallet| w.id@ == id
}

pub open spec fn wallet_owned_by(kind: Seq<char>, owner: Seq<char>) -> spec_fn(AppWallet) -> bool {
    |w: AppWallet| w.owner_kind@ == kind && w.owner_id@ == owner
}

pub open spec fn ledger_id_is(id: Seq<char>) -> spec_fn(AppWalletLedgerEntry) -> bool {
    |e: AppWalletLedgerEntry| e.id@ == id
}

pub open spec fn owner_key_is(key: Seq<char>) -> spec_fn(ApiKeyOwner) -> bool {
    |o: ApiKeyOwner| o.key_id@ == key
}

/// A session row after a refresh of its last-seen time.
pub open spec fn touched_session(s: AppUserSession, now: i64) -> AppUserSession {
    AppUserSession { last_seen_at: Some(now), ..s }
}

/// A session row after its revocation, if it is one for `hash` not yet revoked.
pub open spec fn revoked_session(s: AppUserSession, hash: Seq<char>, now: i64) -> AppUserSession {
    if s.token_hash@ == hash && s.revoked_at is None {
        AppUserSession { revoked_at: Some(now), ..s }
    } else {
        s
    }
}

/// The wallet a first booking creates for an owner.
pub open spec fn new_wallet_spec(id: Seq<char>, kind: Seq<char>, owner: Seq<char>, now: i64, w: AppWallet) -> bool {
    w.id@ == id && w.owner_kind@ == kind && w.owner_id@ == owner && w.balance_credit_micros == 0
        && w.frozen_credit_micros == 0 && w.status@ == "active"@ && w.created_at == now
        && w.updated_at == now
}

impl Storage {
    /// The first user with the id.
    pub open spec fn user_by_id(&self, id: Seq<char>) -> Option<AppUser> {
        find_first(self.users@, user_id_is(id))
    }

    /// The first user with the username.
    pub open spec fn user_by_username(&self, name: Seq<char>) -> Option<AppUser> {
        find_first(self.users@, username_is(name))
    }

    /// The number of active administrators.
    pub open spec fn active_admins(&self) -> nat {
        count_where(self.users@, is_active_admin())
    }

    /// The first wallet of the owner.
    pub open spec fn wallet_of(&self, kind: Seq<char>, owner: Seq<char>) -> Option<AppWallet> {
        find_first(self.wallets@, wallet_owned_by(kind, owner))
    }

    /// The first live session of a token hash at `now`.
    pub open spec fn active_session(&self, hash: Seq<char>, now: i64) -> Option<AppUserSession> {
        find_first(self.sessions@, session_active_for(hash, now))
    }

    /// The owner record of an API key.
    pub open spec fn owner_of_key(&self, key: Seq<char>) -> Option<ApiKeyOwner> {
        find_first(self.api_key_owners@, owner_key_is(key))
    }

    /// Some user's id has the shape of a drawn id: `prefix`, `_`, the hex of `n` bytes.
    pub open spec fn user_id_drawn(&self, prefix: Seq<char>, n: nat) -> bool {
        exists|i: int| 0 <= i < self.users@.len() && is_generated_id((#[trigger] self.users@[i]).id@, prefix, n)
    }

    /// Some session's id has the shape of a drawn id.
    pub open spec fn session_id_drawn(&self, prefix: Seq<char>, n: nat) -> bool {
        exists|i: int|
            0 <= i < self.sessions@.len() && is_generated_id((#[trigger] self.sessions@[i]).id@, prefix, n)
    }

    /// Some wallet's id has the shape of a drawn id.
    pub open spec fn wallet_id_drawn(&self, prefix: Seq<char>, n: nat) -> bool {
        exists|i: int|
            0 <= i < self.wallets@.len() && is_generated_id((#[trigger] self.wallets@[i]).id@, prefix, n)
    }

    /// Some wallet belongs to a user whose id has the shape of a drawn id.
    pub open spec fn user_wallet_drawn(&self, prefix: Seq<char>, n: nat) -> bool {
        exists|i: int|
            0 <= i < self.wallets@.len() && (#[trigger] self.wallets@[i]).owner_kind@ == "user"@
                && is_generated_id(self.wallets@[i].owner_id@, prefix, n)
    }

    /// Some ledger entry's id has the shape of a drawn id.
    pub open spec fn ledger_id_drawn(&self, prefix: Seq<char>, n: nat) -> bool {
        exists|i: int|
            0 <= i < self.ledger@.len() && is_generated_id((#[trigger] self.ledger@[i]).id@, prefix, n)
    }

    /// No two users share an id or a username.
    pub open spec fn user_keys_unique(&self) -> bool {
        forall|i: int, j: int|
            0 <= i < j < self.users@.len() ==> (#[trigger] self.users@[i]).id@ != (
            #[trigger] self.users@[j]).id@ && self.users@[i].username@ != self.users@[j].username@
    }

    /// No two key-owner records name the same key.
    pub open spec fn owner_keys_unique(&self) -> bool {
        forall|i: int, j: int|
            0 <= i < j < self.api_key_owners@.len() ==> (#[trigger] self.api_key_owners@[i]).key_id@ != (
            #[trigger] self.api_key_owners@[j]).key_id@
    }

    /// No two wallets share an id.
    pub open spec fn wallet_ids_unique(&self) -> bool {
        forall|i: int, j: int|
            0 <= i < j < self.wallets@.len() ==> (#[trigger] self.wallets@[i]).id@ != (
            #[trigger] self.wallets@[j]).id@
    }

    /// The API key exists.
    pub open spec fn has_api_key(&self, key: Seq<char>) -> bool {
        exists|i: int| 0 <= i < self.api_keys@.len() && self.api_keys@[i]@ == key
    }

    /// Every table whose flag is false is as in `other`: users, sessions, wallets,
    /// ledger, API key owners, settings, charge snapshots; API keys, models and
    /// billing rules never change.
    pub open spec fn unchanged_except(
        &self,
        other: &Storage,
        users: bool,
        sessions: bool,
        wallets: bool,
        ledger: bool,
        owners: bool,
        settings: bool,
        snapshots: bool,
    ) -> bool {
        &&& !users ==> self.users@ == other.users@
        &&& !sessions ==> self.sessions@ == other.sessions@
        &&& !wallets ==> self.wallets@ == other.wallets@
        &&& !ledger ==> self.ledger@ == other.ledger@
        &&& !owners ==> self.api_key_owners@ == other.api_key_owners@
        &&& !settings ==> {
            &&& self.web_auth_mode == other.web_auth_mode
            &&& self.distribution_enabled == other.distribution_enabled
            &&& self.web_access_password_hash == other.web_access_password_hash
        }
        &&& !snapshots ==> self.snapshots@ == other.snapshots@
        &&& self.api_keys@ == other.api_keys@
        &&& self.models@ == other.models@
        &&& self.billing_rules@ == other.billing_rules@
    }

    /// Everything but the users table is as in `other`.
    pub open spec fn same_except_users(&self, other: &Storage) -> bool {
        self.unchanged_except(other, true, false, false, false, false, false, false)
    }

    /// Whether no two wallets share an id.
    pub fn wallet_ids_are_unique(&self) -> (res: bool)
        ensures
            res == self.wallet_ids_unique(),
    {
        let n = self.wallets.len();
        let mut j: usize = 0;
        while j < n
            invariant
                n == self.wallets@.len(),
                0 <= j <= n,
                forall|a: int, b: int|
                    0 <= a < b < j ==> (#[trigger] self.wallets@[a]).id@ != (#[trigger] self.wallets@[b]).id@,
            decreases n - j,
        {
            let mut i: usize = 0;
            while i < j
                invariant
                    n == self.wallets@.len(),
                    0 <= i <= j < n,
                    forall|a: int| 0 <= a < i ==> (#[trigger] self.wallets@[a]).id@ != self.wallets@[j as int].id@,
                decreases j - i,
            {
                if str_equal(self.wallets[i].id.as_str(), self.wallets[j].id.as_str()) {
                    return false;
                }
                i += 1;
            }
            j += 1;
        }
        true
    }

    /// An empty store.
    pub fn new() -> (res: Storage)
        ensures
            res.users@.len() == 0,
            res.sessions@.len() == 0,
            res.wallets@.len() == 0,
            res.ledger@.len() == 0,
            res.api_keys@.len() == 0,
            res.api_key_owners@.len() == 0,
            res.models@.len() == 0,
            res.snapshots@.len() == 0,
            res.billing_rules@.len() == 0,
            res.web_auth_mode is None,
            res.distribution_enabled is None,
            res.web_access_password_hash is None,
            res.wallet_ids_unique(),
            res.owner_keys_unique(),
            res.user_keys_unique(),
    {
        Storage {
            users: Vec::new(),
            sessions: Vec::new(),
            wallets: Vec::new(),
            ledger: Vec::new(),
            api_keys: Vec::new(),
            api_key_owners: Vec::new(),
            models: Vec::new(),
            snapshots: Vec::new(),
            billing_rules: Vec::new(),
            web_auth_mode: None,
            distribution_enabled: None,
            web_access_password_hash: None,
        }
    }

    fn user_index_by_id(&self, id: &str) -> (res: Option<usize>)
        ensures
            match res {
                Some(i) => i as int == first_index(self.users@, user_id_is(id@)) && i
                    < self.users@.len(),
                None => first_index(self.users@, user_id_is(id@)) == -1,
            },
    {
        let mut i: usize = 0;
        while i < self.users.len()
            invariant
                0 <= i <= self.users@.len(),
                forall|k: int| 0 <= k < i ==> !user_id_is(id@)(#[trigger] self.users@[k]),
            decreases self.users@.len() - i,
        {
            if str_equal(self.users[i].id.as_str(), id) {
                proof {
                    lemma_first_index_scan(self.users@, user_id_is(id@), i as int);
                }
                return Some(i);
            }
            i += 1;
        }
        proof {
            lemma_first_index_scan(self.users@, user_id_is(id@), i as int);
        }
        None
    }

    /// The user with the id.
    pub fn find_app_user_by_id(&self, id: &str) -> (res: Option<AppUser>)
        ensures
            res == self.user_by_id(id@),
    {
        match self.user_index_by_id(id) {
            Some(i) => Some(copy_user(&self.users[i])),
            None => None,
        }
    }

    /// The user with the username.
    pub fn find_app_user_by_username(&self, username: &str) -> (res: Option<AppUser>)
        ensures
            res == self.user_by_username(username@),
    {
        let mut i: usize = 0;
        while i < self.users.len()
            invariant
                0 <= i <= self.users@.len(),
                forall|k: int| 0 <= k < i ==> !username_is(username@)(#[trigger] self.users@[k]),
            decreases self.users@.len() - i,
        {
            if str_equal(self.users[i].username.as_str(), username) {
                proof {
                    lemma_first_index_scan(self.users@, username_is(username@), i as int);
                }
                return Some(copy_user(&self.users[i]));
            }
            i += 1;
        }
        proof {
            lemma_first_index_scan(self.users@, username_is(username@), i as int);
        }
        None
    }

    /// Adds a user unless its id or username is taken.
    pub fn insert_app_user(&mut self, user: AppUser) -> (res: Result<(), StorageError>)
        ensures
            old(self).user_by_id(user.id@) is Some || old(self).user_by_username(user.username@) is Some
                ==> res == Err::<(), StorageError>(StorageError::Duplicate) && *final(self)
                == *old(self),
            old(self).user_by_id(user.id@) is None && old(self).user_by_username(user.username@) is None
                ==> res is Ok && final(self).users@ == old(self).users@.push(user),
            final(self).same_except_users(old(self)),
    {
        if self.find_app_user_by_id(user.id.as_str()).is_some() {
            return Err(StorageError::Duplicate);
        }
        if self.find_app_user_by_username(user.username.as_str()).is_some() {
            return Err(StorageError::Duplicate);
        }
        self.users.push(user);
        Ok(())
    }

    /// All users, in the order they were added.
    pub fn list_app_users(&self) -> (res: Vec<AppUser>)
        ensures
            res@ == self.users@,
    {
        let mut out: Vec<AppUser> = Vec::new();
        let mut i: usize = 0;
        while i < self.users.len()
            invariant
                0 <= i <= self.users@.len(),
                out@ == self.users@.take(i as int),
            decreases self.users@.len() - i,
        {
            out.push(copy_user(&self.users[i]));
            assert(self.users@.take(i + 1) == self.users@.take(i as int).push(self.users@[i as int]));
            i += 1;
        }
        assert(self.users@.take(i as int) == self.users@);
        out
    }

    /// The number of users.
    pub fn app_user_count(&self) -> (res: usize)
        ensures
            res == self.users@.len(),
    {
        self.users.len()
    }

    /// The number of users whose role is `admin` and whose status is `active`.
    pub fn active_admin_count(&self) -> (res: usize)
        ensures
            res == self.active_admins(),
    {
        let mut n: usize = 0;
        let mut i: usize = 0;
        while i < self.users.len()
            invariant
                0 <= i <= self.users@.len(),
                n == count_where(self.users@.take(i as int), is_active_admin()),
                n <= i,
            decreases self.users@.len() - i,
        {
            let ghost before = self.users@.take(i as int);
            proof {
                lemma_count_push(before, is_active_admin(), self.users@[i as int]);
                assert(self.users@.take(i + 1) == before.push(self.users@[i as int]));
            }
            if str_equal(self.users[i].role.as_str(), "admin") && str_equal(
                self.users[i].status.as_str(),
                "active",
            ) {
                n += 1;
            }
            i += 1;
        }
        assert(self.users@.take(i as int) == self.users@);
        n
    }

    /// Replaces the first user with `id` by `f` of it, where `f` keeps the id.
    fn replace_user(&mut self, i: usize, user: AppUser)
        requires
            i < old(self).users@.len(),
            user.id@ == old(self).users@[i as int].id@,
        ensures
            final(self).users@ == old(self).users@.update(i as int, user),
            final(self).same_except_users(old(self)),
    {
        self.users.set(i, user);
    }

    /// Sets the display name of the user with the id; no user, no change.
    pub fn update_app_user_display_name(&mut self, id: &str, display_name: Option<String>, now: i64)
        ensures
            final(self).same_except_users(old(self)),
            final(self).users@ == match old(self).user_by_id(id@) {
                Some(u) => old(self).users@.update(
                    first_index(old(self).users@, user_id_is(id@)),
                    AppUser { display_name, updated_at: now, ..u },
                ),
                None => old(self).users@,
            },
    {
        match self.user_index_by_id(id) {
            Some(i) => {
                let mut u = copy_user(&self.users[i]);
                u.display_name = display_name;
                u.updated_at = now;
                self.replace_user(i, u);
            },
            None => {},
        }
    }

    /// Sets the role of the user with the id; no user, no change.
    pub fn update_app_user_role(&mut self, id: &str, role: String, now: i64)
        ensures
            final(self).same_except_users(old(self)),
            final(self).users@ == match old(self).user_by_id(id@) {
                Some(u) => old(self).users@.update(
                    first_index(old(self).users@, user_id_is(id@)),
                    AppUser { role, updated_at: now, ..u },
                ),
                None => old(self).users@,
            },
    {
        match self.user_index_by_id(id) {
            Some(i) => {
                let mut u = copy_user(&self.users[i]);
                u.role = role;
                u.updated_at = now;
                self.replace_user(i, u);
            },
            None => {},
        }
    }

    /// Sets the status of the user with the id; no user, no change.
    pub fn update_app_user_status(&mut self, id: &str, status: String, now: i64)
        ensures
            final(self).same_except_users(old(self)),
            final(self).users@ == match old(self).user_by_id(id@) {
                Some(u) => old(self).users@.update(
                    first_index(old(self).users@, user_id_is(id@)),
                    AppUser { status, updated_at: now, ..u },
                ),
                None => old(self).users@,
            },
    {
        match self.user_index_by_id(id) {
            Some(i) => {
                let mut u = copy_user(&self.users[i]);
                u.status = status;
                u.updated_at = now;
                self.replace_user(i, u);
            },
            None => {},
        }
    }

    /// Sets the password hash of the user with the id; no user, no change.
    pub fn update_app_user_password_hash(&mut self, id: &str, password_hash: String, now: i64)
        ensures
            final(self).same_except_users(old(self)),
            final(self).users@ == match old(self).user_by_id(id@) {
                Some(u) => old(self).users@.update(
                    first_index(old(self).users@, user_id_is(id@)),
                    AppUser { password_hash, updated_at: now, ..u },
                ),
                None => old(self).users@,
            },
    {
        match self.user_index_by_id(id) {
            Some(i) => {
                let mut u = copy_user(&self.users[i]);
                u.password_hash = password_hash;
                u.updated_at = now;
                self.replace_user(i, u);
            },
            None => {},
        }
    }

    /// Records a login of the user with the id at `now`; no user, no change.
    pub fn update_app_user_last_login(&mut self, id: &str, now: i64)
        ensures
            final(self).same_except_users(old(self)),
            final(self).users@ == match old(self).user_by_id(id@) {
                Some(u) => old(self).users@.update(
                    first_index(old(self).users@, user_id_is(id@)),
                    AppUser { last_login_at: Some(now), updated_at: now, ..u },
                ),
                None => old(self).users@,
            },
    {
        match self.user_index_by_id(id) {
            Some(i) => {
                let mut u = copy_user(&self.users[i]);
                u.last_login_at = Some(now);
                u.updated_at = now;
                self.replace_user(i, u);
            },
            None => {},
        }
    }
}

/// A copy of a user row.
pub(crate) fn copy_user(u: &AppUser) -> (res: AppUser)
    ensures
        res == *u,
{
    AppUser {
        id: u.id.clone(),
        username: u.username.clone(),
        display_name: copy_opt_string(&u.display_name),
        password_hash: u.password_hash.clone(),
        role: u.role.clone(),
        status: u.status.clone(),
        created_at: u.created_at,
        updated_at: u.updated_at,
        last_login_at: u.last_login_at,
    }
}

/// A copy of an optional string.
pub(crate) fn copy_opt_string(o: &Option<String>) -> (res: Option<String>)
    ensures
        res == *o,
{
    match o {
        Some(s) => Some(s.clone()),
        None => None,
    }
}

/// A copy of a wallet row.
pub(crate) fn copy_wallet(w: &AppWallet) -> (res: AppWallet)
    ensures
        res == *w,
{
    AppWallet {
        id: w.id.clone(),
        owner_kind: w.owner_kind.clone(),
        owner_id: w.owner_id.clone(),
        balance_credit_micros: w.balance_credit_micros,
        frozen_credit_micros: w.frozen_credit_micros,
        status: w.status.clone(),
        created_at: w.created_at,
        updated_at: w.updated_at,
    }
}

/// A copy of a session row.
pub(crate) fn copy_session(s: &AppUserSession) -> (res: AppUserSession)
    ensures
        res == *s,
{
    AppUserSession {
        id: s.id.clone(),
        user_id: s.user_id.clone(),
        token_hash: s.token_hash.clone(),
        expires_at: s.expires_at,
        created_at: s.created_at,
        last_seen_at: s.last_seen_at,
        revoked_at: s.revoked_at,
    }
}

/// A copy of an API key owner row.
pub(crate) fn copy_owner(o: &ApiKeyOwner) -> (res: ApiKeyOwner)
    ensures
        res == *o,
{
    ApiKeyOwner {
        key_id: o.key_id.clone(),
        owner_kind: o.owner_kind.clone(),
        owner_user_id: copy_opt_string(&o.owner_user_id),
        project_id: copy_opt_string(&o.project_id),
        updated_at: o.updated_at,
    }
}

/// A copy of a ledger entry.
pub(crate) fn copy_ledger_entry(e: &AppWalletLedgerEntry) -> (res: AppWalletLedgerEntry)
    ensures
        res == *e,
{
    AppWalletLedgerEntry {
        id: e.id.clone(),
        wallet_id: e.wallet_id.clone(),
        entry_kind: e.entry_kind.clone(),
        amount_credit_micros: e.amount_credit_micros,
        balance_after_credit_micros: e.balance_after_credit_micros,
        request_log_id: e.request_log_id,
        api_key_id: copy_opt_string(&e.api_key_id),
        pricing_rule_id: copy_opt_string(&e.pricing_rule_id),
        raw_usage_json: copy_opt_string(&e.raw_usage_json),
        note: copy_opt_string(&e.note),
        created_by_user_id: copy_opt_string(&e.created_by_user_id),
        created_at: e.created_at,
    }
}

impl Storage {
    /// Adds a session unless its id is taken.
    pub fn insert_app_user_session(&mut self, session: AppUserSession) -> (res: Result<(), StorageError>)
        ensures
            find_first(old(self).sessions@, session_id_is(session.id@)) is Some ==> res == Err::<
                (),
                StorageError,
            >(StorageError::Duplicate) && *final(self) == *old(self),
            find_first(old(self).sessions@, session_id_is(session.id@)) is None ==> res is Ok
                && final(self).sessions@ == old(self).sessions@.push(session),
            final(self).unchanged_except(old(self), false, true, false, false, false, false, false),
    {
        match self.session_index_by_id(session.id.as_str()) {
            Some(_) => Err(StorageError::Duplicate),
            None => {
                self.sessions.push(session);
                Ok(())
            },
        }
    }

    fn session_index_by_id(&self, id: &str) -> (res: Option<usize>)
        ensures
            match res {
                Some(i) => i as int == first_index(self.sessions@, session_id_is(id@)) && i
                    < self.sessions@.len(),
                None => first_index(self.sessions@, session_id_is(id@)) == -1,
            },
    {
        let mut i: usize = 0;
        while i < self.sessions.len()
            invariant
                0 <= i <= self.sessions@.len(),
                forall|k: int| 0 <= k < i ==> !session_id_is(id@)(#[trigger] self.sessions@[k]),
            decreases self.sessions@.len() - i,
        {
            if str_equal(self.sessions[i].id.as_str(), id) {
                proof {
                    lemma_first_index_scan(self.sessions@, session_id_is(id@), i as int);
                }
                return Some(i);
            }
            i += 1;
        }
        proof {
            lemma_first_index_scan(self.sessions@, session_id_is(id@), i as int);
        }
        None
    }

    /// The first session of the token hash that is neither revoked nor expired at `now`.
    pub fn find_active_app_session_by_token_hash(&self, token_hash: &str, now: i64) -> (res:
        Option<AppUserSession>)
        ensures
            res == self.active_session(token_hash@, now),
    {
        let ghost p = session_active_for(token_hash@, now);
        let mut i: usize = 0;
        while i < self.sessions.len()
            invariant
                0 <= i <= self.sessions@.len(),
                p == session_active_for(token_hash@, now),
                forall|k: int| 0 <= k < i ==> !p(#[trigger] self.sessions@[k]),
            decreases self.sessions@.len() - i,
        {
            let s = &self.sessions[i];
            if str_equal(s.token_hash.as_str(), token_hash) && s.revoked_at.is_none()
                && s.expires_at > now {
                proof {
                    lemma_first_index_scan(self.sessions@, p, i as int);
                }
                return Some(copy_session(s));
            }
            i += 1;
        }
        proof {
            lemma_first_index_scan(self.sessions@, p, i as int);
        }
        None
    }

    /// Sets the last-seen time of the session with the id; no session, no change.
    pub fn touch_app_user_session(&mut self, id: &str, now: i64)
        ensures
            final(self).sessions@ == if first_index(old(self).sessions@, session_id_is(id@)) >= 0 {
                old(self).sessions@.update(
                    first_index(old(self).sessions@, session_id_is(id@)),
                    touched_session(
                        old(self).sessions@[first_index(old(self).sessions@, session_id_is(id@))],
                        now,
                    ),
                )
            } else {
                old(self).sessions@
            },
            final(self).unchanged_except(old(self), false, true, false, false, false, false, false),
    {
        if let Some(i) = self.session_index_by_id(id) {
            let mut s = copy_session(&self.sessions[i]);
            s.last_seen_at = Some(now);
            self.sessions.set(i, s);
        }
    }

    /// Revokes at `now` every session of the token hash not yet revoked.
    pub fn revoke_app_user_session_by_token_hash(&mut self, token_hash: &str, now: i64)
        ensures
            final(self).sessions@ == Seq::new(
                old(self).sessions@.len(),
                |i: int| revoked_session(old(self).sessions@[i], token_hash@, now),
            ),
            final(self).unchanged_except(old(self), false, true, false, false, false, false, false),
    {
        let ghost start = self.sessions@;
        let mut i: usize = 0;
        while i < self.sessions.len()
            invariant
                0 <= i <= self.sessions@.len(),
                self.sessions@.len() == start.len(),
                forall|k: int| 0 <= k < i ==> self.sessions@[k] == revoked_session(start[k], token_hash@, now),
                forall|k: int| i <= k < start.len() ==> self.sessions@[k] == start[k],
                self.unchanged_except(old(self), false, true, false, false, false, false, false),
            decreases self.sessions@.len() - i,
        {
            if str_equal(self.sessions[i].token_hash.as_str(), token_hash)
                && self.sessions[i].revoked_at.is_none() {
                let mut s = copy_session(&self.sessions[i]);
                s.revoked_at = Some(now);
                self.sessions.set(i, s);
            }
            i += 1;
        }
        assert(self.sessions@ =~= Seq::new(
            start.len(),
            |i: int| revoked_session(start[i], token_hash@, now),
        ));
    }

    fn wallet_index_by_owner(&self, kind: &str, owner: &str) -> (res: Option<usize>)
        ensures
            match res {
                Some(i) => i as int == first_index(self.wallets@, wallet_owned_by(kind@, owner@))
                    && i < self.wallets@.len(),
                None => first_index(self.wallets@, wallet_owned_by(kind@, owner@)) == -1,
            },
    {
        let ghost p = wallet_owned_by(kind@, owner@);
        let mut i: usize = 0;
        while i < self.wallets.len()
            invariant
                0 <= i <= self.wallets@.len(),
                p == wallet_owned_by(kind@, owner@),
                forall|k: int| 0 <= k < i ==> !p(#[trigger] self.wallets@[k]),
            decreases self.wallets@.len() - i,
        {
            if str_equal(self.wallets[i].owner_kind.as_str(), kind) && str_equal(
                self.wallets[i].owner_id.as_str(),
                owner,
            ) {
                proof {
                    lemma_first_index_scan(self.wallets@, p, i as int);
                }
                return Some(i);
            }
            i += 1;
        }
        proof {
            lemma_first_index_scan(self.wallets@, p, i as int);
        }
        None
    }

    pub(crate) fn wallet_index_by_id(&self, id: &str) -> (res: Option<usize>)
        ensures
            match res {
                Some(i) => i as int == first_index(self.wallets@, wallet_id_is(id@)) && i
                    < self.wallets@.len(),
                None => first_index(self.wallets@, wallet_id_is(id@)) == -1,
            },
    {
        let mut i: usize = 0;
        while i < self.wallets.len()
            invariant
                0 <= i <= self.wallets@.len(),
                forall|k: int| 0 <= k < i ==> !wallet_id_is(id@)(#[trigger] self.wallets@[k]),
            decreases self.wallets@.len() - i,
        {
            if str_equal(self.wallets[i].id.as_str(), id) {
                proof {
                    lemma_first_index_scan(self.wallets@, wallet_id_is(id@), i as int);
                }
                return Some(i);
            }
            i += 1;
        }
        proof {
            lemma_first_index_scan(self.wallets@, wallet_id_is(id@), i as int);
        }
        None
    }

    /// The wallet of the owner.
    pub fn find_wallet_by_owner(&self, kind: &str, owner: &str) -> (res: Option<AppWallet>)
        ensures
            res == self.wallet_of(kind@, owner@),
    {
        match self.wallet_index_by_owner(kind, owner) {
            Some(i) => Some(copy_wallet(&self.wallets[i])),
            None => None,
        }
    }

    /// The wallet of the owner; a new empty active wallet with `new_id` when it has
    /// none, unless that id is taken.
    pub fn ensure_wallet_for_owner(&mut self, new_id: String, kind: &str, owner: &str, now: i64) -> (res:
        Result<AppWallet, StorageError>)
        requires
            old(self).wallet_ids_unique(),
        ensures
            final(self).wallet_ids_unique(),
            old(self).wallet_of(kind@, owner@) matches Some(w) ==> res == Ok::<AppWallet, StorageError>(w)
                && final(self).wallets@ == old(self).wallets@,
            old(self).wallet_of(kind@, owner@) is None ==> match res {
                Ok(w) => find_first(old(self).wallets@, wallet_id_is(new_id@)) is None
                    && new_wallet_spec(new_id@, kind@, owner@, now, w)
                    && final(self).wallets@ == old(self).wallets@.push(w),
                Err(e) => e == StorageError::Duplicate && find_first(old(self).wallets@, wallet_id_is(new_id@)) is Some
                    && *final(self) == *old(self),
            },
            final(self).unchanged_except(old(self), false, false, true, false, false, false, false),
    {
        if let Some(i) = self.wallet_index_by_owner(kind, owner) {
            return Ok(copy_wallet(&self.wallets[i]));
        }
        if self.wallet_index_by_id(new_id.as_str()).is_some() {
            return Err(StorageError::Duplicate);
        }
        let w = AppWallet {
            id: new_id,
            owner_kind: kind.to_owned(),
            owner_id: owner.to_owned(),
            balance_credit_micros: 0,
            frozen_credit_micros: 0,
            status: "active".to_owned(),
            created_at: now,
            updated_at: now,
        };
        proof {
            lemma_first_index_props(self.wallets@, wallet_id_is(w.id@));
        }
        self.wallets.push(copy_wallet(&w));
        Ok(w)
    }

    /// Books an entry on its wallet: the wallet's balance moves by the amount and
    /// its update time becomes the entry's; the entry is kept with the new balance.
    pub fn adjust_wallet_balance(&mut self, entry: &AppWalletLedgerEntry) -> (res: Result<
        AppWalletLedgerEntry,
        StorageError,
    >)
        requires
            old(self).wallet_ids_unique(),
        ensures
            final(self).wallet_ids_unique(),
            ({
                let wi = first_index(old(self).wallets@, wallet_id_is(entry.wallet_id@));
                let w = old(self).wallets@[wi];
                let nb = w.balance_credit_micros + entry.amount_credit_micros;
                if wi < 0 {
                    res == Err::<AppWalletLedgerEntry, StorageError>(StorageError::WalletNotFound)
                } else if find_first(old(self).ledger@, ledger_id_is(entry.id@)) is Some {
                    res == Err::<AppWalletLedgerEntry, StorageError>(StorageError::Duplicate)
                } else if nb < i64::MIN || nb > i64::MAX {
                    res == Err::<AppWalletLedgerEntry, StorageError>(StorageError::BalanceOverflow)
                } else {
                    &&& res matches Ok(e) && e == AppWalletLedgerEntry {
                        balance_after_credit_micros: nb as i64,
                        ..*entry
                    }
                    &&& final(self).ledger@ == old(self).ledger@.push(res->Ok_0)
                    &&& final(self).wallets@ == old(self).wallets@.update(
                        wi,
                        AppWallet {
                            balance_credit_micros: nb as i64,
                            updated_at: entry.created_at,
                            ..w
                        },
                    )
                }
            }),
            res is Err ==> *final(self) == *old(self),
            final(self).unchanged_except(old(self), false, false, true, true, false, false, false),
    {
        let wi = match self.wallet_index_by_id(entry.wallet_id.as_str()) {
            Some(i) => i,
            None => {
                return Err(StorageError::WalletNotFound);
            },
        };
        if self.ledger_has_id(entry.id.as_str()) {
            return Err(StorageError::Duplicate);
        }
        let mut w = copy_wallet(&self.wallets[wi]);
        let nb = match w.balance_credit_micros.checked_add(entry.amount_credit_micros) {
            Some(v) => v,
            None => {
                return Err(StorageError::BalanceOverflow);
            },
        };
        w.balance_credit_micros = nb;
        w.updated_at = entry.created_at;
        proof {
            lemma_first_index_props(self.wallets@, wallet_id_is(entry.wallet_id@));
        }
        self.wallets.set(wi, w);
        let mut e = copy_ledger_entry(entry);
        e.balance_after_credit_micros = nb;
        self.ledger.push(copy_ledger_entry(&e));
        Ok(e)
    }

    pub(crate) fn ledger_has_id(&self, id: &str) -> (res: bool)
        ensures
            res == (find_first(self.ledger@, ledger_id_is(id@)) is Some),
    {
        let mut i: usize = 0;
        while i < self.ledger.len()
            invariant
                0 <= i <= self.ledger@.len(),
                forall|k: int| 0 <= k < i ==> !ledger_id_is(id@)(#[trigger] self.ledger@[k]),
            decreases self.ledger@.len() - i,
        {
            if str_equal(self.ledger[i].id.as_str(), id) {
                proof {
                    lemma_first_index_scan(self.ledger@, ledger_id_is(id@), i as int);
                }
                return true;
            }
            i += 1;
        }
        proof {
            lemma_first_index_scan(self.ledger@, ledger_id_is(id@), i as int);
        }
        false
    }

    /// Whether the API key exists.
    pub fn find_api_key_by_id(&self, key: &str) -> (res: bool)
        ensures
            res == self.has_api_key(key@),
    {
        let mut i: usize = 0;
        while i < self.api_keys.len()
            invariant
                0 <= i <= self.api_keys@.len(),
                forall|k: int| 0 <= k < i ==> self.api_keys@[k]@ != key@,
            decreases self.api_keys@.len() - i,
        {
            if str_equal(self.api_keys[i].as_str(), key) {
                return true;
            }
            i += 1;
        }
        false
    }

    fn owner_index_by_key(&self, key: &str) -> (res: Option<usize>)
        ensures
            match res {
                Some(i) => i as int == first_index(self.api_key_owners@, owner_key_is(key@)) && i
                    < self.api_key_owners@.len(),
                None => first_index(self.api_key_owners@, owner_key_is(key@)) == -1,
            },
    {
        let mut i: usize = 0;
        while i < self.api_key_owners.len()
            invariant
                0 <= i <= self.api_key_owners@.len(),
                forall|k: int| 0 <= k < i ==> !owner_key_is(key@)(#[trigger] self.api_key_owners@[k]),
            decreases self.api_key_owners@.len() - i,
        {
            if str_equal(self.api_key_owners[i].key_id.as_str(), key) {
                proof {
                    lemma_first_index_scan(self.api_key_owners@, owner_key_is(key@), i as int);
                }
                return Some(i);
            }
            i += 1;
        }
        proof {
            lemma_first_index_scan(self.api_key_owners@, owner_key_is(key@), i as int);
        }
        None
    }

    /// The owner record of the API key.
    pub fn find_api_key_owner(&self, key: &str) -> (res: Option<ApiKeyOwner>)
        ensures
            res == self.owner_of_key(key@),
    {
        match self.owner_index_by_key(key) {
            Some(i) => Some(copy_owner(&self.api_key_owners[i])),
            None => None,
        }
    }

    /// All owner records, in table order.
    pub fn list_api_key_owners(&self) -> (res: Vec<ApiKeyOwner>)
        ensures
            res@ == self.api_key_owners@,
    {
        let mut out: Vec<ApiKeyOwner> = Vec::new();
        let mut i: usize = 0;
        while i < self.api_key_owners.len()
            invariant
                0 <= i <= self.api_key_owners@.len(),
                out@ == self.api_key_owners@.take(i as int),
            decreases self.api_key_owners@.len() - i,
        {
            out.push(copy_owner(&self.api_key_owners[i]));
            assert(self.api_key_owners@.take(i + 1) == self.api_key_owners@.take(i as int).push(
                self.api_key_owners@[i as int],
            ));
            i += 1;
        }
        assert(self.api_key_owners@.take(i as int) == self.api_key_owners@);
        out
    }

    /// Stores the owner record of its key, replacing the one it had.
    pub fn upsert_api_key_owner(&mut self, owner: ApiKeyOwner)
        ensures
            final(self).api_key_owners@ == if first_index(old(self).api_key_owners@, owner_key_is(owner.key_id@)) >= 0 {
                old(self).api_key_owners@.update(first_index(old(self).api_key_owners@, owner_key_is(owner.key_id@)), owner)
            } else {
                old(self).api_key_owners@.push(owner)
            },
            final(self).owner_of_key(owner.key_id@) == Some(owner),
            old(self).owner_keys_unique() ==> final(self).owner_keys_unique(),
            final(self).unchanged_except(old(self), false, false, false, false, true, false, false),
    {
        let ghost p = owner_key_is(owner.key_id@);
        let ghost old_owners = self.api_key_owners@;
        match self.owner_index_by_key(owner.key_id.as_str()) {
            Some(i) => {
                proof {
                    lemma_first_index_props(old_owners, p);
                    assert(p(owner));
                    lemma_first_index_update(old_owners, p, i as int, owner);
                }
                self.api_key_owners.set(i, owner);
            },
            None => {
                proof {
                    lemma_first_index_push(old_owners, p, owner);
                    lemma_first_index_props(old_owners, p);
                }
                self.api_key_owners.push(owner);
            },
        }
    }

    /// Adds an API key id, unless it exists.
    pub fn add_api_key(&mut self, key: String)
        ensures
            final(self).has_api_key(key@),
            final(self).users@ == old(self).users@,
            final(self).api_key_owners@ == old(self).api_key_owners@,
            final(self).wallets@ == old(self).wallets@,
    {
        if !self.find_api_key_by_id(key.as_str()) {
            let ghost k = key;
            self.api_keys.push(key);
            assert(self.api_keys@[self.api_keys@.len() - 1]@ == k@);
        }
    }
}


/// A taken id of a drawn shape means some user's id has that shape.
pub proof fn lemma_user_id_drawn(s: &Storage, id: Seq<char>, prefix: Seq<char>, n: nat)
    requires
        s.user_by_id(id) is Some,
        is_generated_id(id, prefix, n),
    ensures
        s.user_id_drawn(prefix, n),
{
    lemma_first_index_props(s.users@, user_id_is(id));
    let i = first_index(s.users@, user_id_is(id));
    assert(is_generated_id(s.users@[i].id@, prefix, n));
}

/// A taken session id of a drawn shape means some session's id has that shape.
pub proof fn lemma_session_id_drawn(s: &Storage, id: Seq<char>, prefix: Seq<char>, n: nat)
    requires
        find_first(s.sessions@, session_id_is(id)) is Some,
        is_generated_id(id, prefix, n),
    ensures
        s.session_id_drawn(prefix, n),
{
    lemma_first_index_props(s.sessions@, session_id_is(id));
    let i = first_index(s.sessions@, session_id_is(id));
    assert(is_generated_id(s.sessions@[i].id@, prefix, n));
}

/// A taken wallet id of a drawn shape means some wallet's id has that shape.
pub proof fn lemma_wallet_id_drawn(s: &Storage, id: Seq<char>, prefix: Seq<char>, n: nat)
    requires
        find_first(s.wallets@, wallet_id_is(id)) is Some,
        is_generated_id(id, prefix, n),
    ensures
        s.wallet_id_drawn(prefix, n),
{
    lemma_first_index_props(s.wallets@, wallet_id_is(id));
    let i = first_index(s.wallets@, wallet_id_is(id));
    assert(is_generated_id(s.wallets@[i].id@, prefix, n));
}

/// A taken ledger id of a drawn shape means some entry's id has that shape.
pub proof fn lemma_ledger_id_drawn(s: &Storage, id: Seq<char>, prefix: Seq<char>, n: nat)
    requires
        find_first(s.ledger@, ledger_id_is(id)) is Some,
        is_generated_id(id, prefix, n),
    ensures
        s.ledger_id_drawn(prefix, n),
{
    lemma_first_index_props(s.ledger@, ledger_id_is(id));
    let i = first_index(s.ledger@, ledger_id_is(id));
    assert(is_generated_id(s.ledger@[i].id@, prefix, n));
}


/// A user wallet of a drawn owner id means some wallet's owner id has that shape.
pub proof fn lemma_user_wallet_drawn(s: &Storage, owner: Seq<char>, prefix: Seq<char>, n: nat)
    requires
        s.wallet_of("user"@, owner) is Some,
        is_generated_id(owner, prefix, n),
    ensures
        s.user_wallet_drawn(prefix, n),
{
    lemma_first_index_props(s.wallets@, wallet_owned_by("user"@, owner));
    let i = first_index(s.wallets@, wallet_owned_by("user"@, owner));
    assert(s.wallets@[i].owner_kind@ == "user"@);
}

} // verus!
