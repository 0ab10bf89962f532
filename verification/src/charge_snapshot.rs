//! Pricing a request from the model catalog and booking it once: the price tier,
//! the charge snapshot of a request, and the matching wallet debit.
use vstd::prelude::*;
use crate::billing::{
    charge_spec, compute_charge_v2, BillingError, ChargeComputationV2, ChargeSnapshotInputV2,
    ChargeSnapshotV2, ModelPriceTierV2,
};
use crate::crypto::now_ts;
use crate::storage::{
    copy_opt_string, copy_wallet, ledger_id_is, wallet_id_is, AppWallet, AppWalletLedgerEntry,
    CatalogModel, Storage,
};
use crate::table::{find_first, first_index, lemma_first_index_props, lemma_first_index_push, lemma_first_index_scan};
use crate::text::{
    concat_str, decimal_seq, eq_ignore_ascii_case, eq_ignore_case, i64_to_decimal,
    normalize_optional_seq, normalize_optional_text, opt_view, str_equal, trim, trim_seq,
};

verus! {

/// Models whose slug equals `slug` up to ASCII case (SQLite `NOCASE`).
pub open spec fn model_slug_is(slug: Seq<char>) -> spec_fn(CatalogModel) -> bool {
    |m: CatalogModel| eq_ignore_case(m.slug@, slug)
}

/// Models with the slug that have a price row.
pub open spec fn priced_model(slug: Seq<char>) -> spec_fn(CatalogModel) -> bool {
    |m: CatalogModel| eq_ignore_case(m.slug@, slug) && m.price_status is Some
}

/// Models with the slug whose price is not marked missing.
pub open spec fn listed_model(slug: Seq<char>) -> spec_fn(CatalogModel) -> bool {
    |m: CatalogModel|
        eq_ignore_case(m.slug@, slug) && match m.price_status {
            Some(p) => p@ != "missing"@,
            None => false,
        }
}

/// The snapshot of a request.
pub open spec fn snapshot_of(id: i64) -> spec_fn(ChargeSnapshotV2) -> bool {
    |s: ChargeSnapshotV2| s.request_log_id == id
}

/// A request charge booked for a request.
pub open spec fn request_charge_of(id: i64) -> spec_fn(AppWalletLedgerEntry) -> bool {
    |e: AppWalletLedgerEntry| e.request_log_id == Some(id) && e.entry_kind@ == "request_charge"@
}

/// Tier `j` of model `i` applies to `input` input tokens for a model that `pm` admits.
pub open spec fn tier_candidate(
    models: Seq<CatalogModel>,
    pm: spec_fn(CatalogModel) -> bool,
    input: i64,
    i: int,
    j: int,
) -> bool {
    0 <= i < models.len() && pm(models[i]) && 0 <= j < models[i].tiers@.len()
        && models[i].tiers@[j].min_input_tokens <= input
}

/// `res` is an applicable tier with the highest threshold, with its model's id, or
/// `None` when no tier applies.
pub open spec fn best_tier_choice(
    models: Seq<CatalogModel>,
    pm: spec_fn(CatalogModel) -> bool,
    input: i64,
    res: Option<(Seq<char>, ModelPriceTierV2)>,
) -> bool {
    match res {
        None => forall|i: int, j: int| !tier_candidate(models, pm, input, i, j),
        Some((id, t)) => exists|i: int, j: int|
            {
                &&& tier_candidate(models, pm, input, i, j)
                &&& models[i].id@ == id
                &&& models[i].tiers@[j] == t
                &&& forall|i2: int, j2: int|
                    tier_candidate(models, pm, input, i2, j2) ==> models[i2].tiers@[j2].min_input_tokens
                        <= t.min_input_tokens
            },
    }
}

pub open spec fn tier_view(r: Option<(String, ModelPriceTierV2)>) -> Option<(Seq<char>, ModelPriceTierV2)> {
    match r {
        Some((id, t)) => Some((id@, t)),
        None => None,
    }
}

/// The usage sources a snapshot accepts.
pub open spec fn valid_usage_source(s: Seq<char>) -> bool {
    s == "actual"@ || s == "estimated"@
}

/// A snapshot row made for the input with the tier of a model and the computation.
pub open spec fn snapshot_row(
    snap: ChargeSnapshotV2,
    input: ChargeSnapshotInputV2,
    model_id: Seq<char>,
    tier: ModelPriceTierV2,
    c: ChargeComputationV2,
) -> bool {
    &&& snap.request_log_id == input.request_log_id
    &&& opt_view(snap.model_id) == Some(model_id)
    &&& snap.model_slug@ == trim_seq(input.model_slug@)
    &&& snap.tier_min_input_tokens == tier.min_input_tokens
    &&& snap.usage_source == input.usage_source
    &&& snap.input_tokens == input.input_tokens
    &&& snap.cached_input_tokens == input.cached_input_tokens
    &&& snap.output_tokens == input.output_tokens
    &&& snap.input_microusd_per_1m == tier.input_microusd_per_1m
    &&& snap.cached_input_microusd_per_1m == tier.cached_input_microusd_per_1m
    &&& snap.output_microusd_per_1m == tier.output_microusd_per_1m
    &&& snap.rate_multiplier_millis == input.rate_multiplier_millis
    &&& snap.base_cost_microusd == c.base_cost_microusd
    &&& snap.charged_cost_microusd == c.charged_cost_microusd
    &&& snap.currency@ == "USD"@
}

/// The ledger id of a request's charge.
pub open spec fn request_ledger_id(request_log_id: i64) -> Seq<char> {
    "wl_request_"@ + decimal_seq(request_log_id as int)
}

/// A wallet that can pay `charge`: active, with the balance after the charge
/// still at least the frozen credit.
pub open spec fn wallet_can_pay(w: Option<AppWallet>, charge: i64) -> bool {
    match w {
        Some(x) => x.status@ == "active"@ && x.balance_credit_micros - charge >= x.frozen_credit_micros,
        None => false,
    }
}

/// Why booking a computed charge on the input's wallet is refused, if it is.
pub open spec fn booking_check(store: &Storage, input: ChargeSnapshotInputV2, charge: i64) -> Option<
    BillingError,
> {
    if normalize_optional_seq(opt_view(input.wallet_id)) is None {
        None
    } else {
        let wid = input.wallet_id->Some_0@;
        if find_first(store.ledger@, request_charge_of(input.request_log_id)) is Some {
            Some(BillingError::LedgerExistsWithoutSnapshot)
        } else if !wallet_can_pay(find_first(store.wallets@, wallet_id_is(wid)), charge) {
            Some(BillingError::WalletInsufficientBalance)
        } else if find_first(store.ledger@, ledger_id_is(request_ledger_id(input.request_log_id)))
            is Some {
            Some(BillingError::LedgerIdTaken)
        } else {
            None
        }
    }
}

/// What a successful new booking did to the wallets and the ledger.
pub open spec fn booked(
    old_store: &Storage,
    new_store: &Storage,
    input: ChargeSnapshotInputV2,
    snap: ChargeSnapshotV2,
) -> bool {
    if normalize_optional_seq(opt_view(input.wallet_id)) is None {
        new_store.wallets@ == old_store.wallets@ && new_store.ledger@ == old_store.ledger@
    } else {
        let wid = input.wallet_id->Some_0@;
        let wi = first_index(old_store.wallets@, wallet_id_is(wid));
        let w = old_store.wallets@[wi];
        let charge = snap.charged_cost_microusd;
        &&& new_store.wallets@ == old_store.wallets@.update(
            wi,
            AppWallet {
                balance_credit_micros: (w.balance_credit_micros - charge) as i64,
                updated_at: snap.created_at,
                ..w
            },
        )
        &&& exists|e: AppWalletLedgerEntry|
            {
                &&& new_store.ledger@ == old_store.ledger@.push(e)
                &&& e.id@ == request_ledger_id(input.request_log_id)
                &&& e.wallet_id@ == wid
                &&& e.entry_kind@ == "request_charge"@
                &&& e.amount_credit_micros == -charge
                &&& e.balance_after_credit_micros == w.balance_credit_micros - charge
                &&& e.request_log_id == Some(input.request_log_id)
                &&& e.api_key_id == input.api_key_id
                &&& e.pricing_rule_id is None
                &&& e.raw_usage_json == input.raw_usage_json
                &&& opt_view(e.note) == Some("model_catalog_v2"@)
                &&& e.created_by_user_id is None
                &&& e.created_at == snap.created_at
            }
    }
}

/// What recording a snapshot returns and does, for each input.
pub open spec fn snapshot_recorded(
    old_store: &Storage,
    new_store: &Storage,
    input: ChargeSnapshotInputV2,
    res: Result<ChargeSnapshotV2, BillingError>,
) -> bool {
    let slug = trim_seq(input.model_slug@);
    if !valid_usage_source(input.usage_source@) {
        res == Err::<ChargeSnapshotV2, BillingError>(BillingError::InvalidUsageSource)
            && *new_store == *old_store
    } else if find_first(old_store.snapshots@, snapshot_of(input.request_log_id)) is Some {
        res == Ok::<ChargeSnapshotV2, BillingError>(
            find_first(old_store.snapshots@, snapshot_of(input.request_log_id))->Some_0,
        ) && *new_store == *old_store
    } else if find_first(old_store.models@, priced_model(slug)) is None {
        res == Err::<ChargeSnapshotV2, BillingError>(BillingError::ModelNotFound)
            && *new_store == *old_store
    } else if find_first(old_store.models@, priced_model(slug))->Some_0.price_status->Some_0@
        == "missing"@ {
        res == Err::<ChargeSnapshotV2, BillingError>(BillingError::ModelPriceMissing)
            && *new_store == *old_store
    } else if best_tier_choice(old_store.models@, model_slug_is(slug), input.input_tokens, None) {
        res == Err::<ChargeSnapshotV2, BillingError>(BillingError::NoPriceTier)
            && *new_store == *old_store
    } else {
        exists|mid: Seq<char>, tier: ModelPriceTierV2|
            {
                &&& best_tier_choice(
                    old_store.models@,
                    model_slug_is(slug),
                    input.input_tokens,
                    Some((mid, tier)),
                )
                &&& match charge_spec(
                    input.input_tokens,
                    input.cached_input_tokens,
                    input.output_tokens,
                    tier,
                    input.rate_multiplier_millis,
                ) {
                    Err(e) => res == Err::<ChargeSnapshotV2, BillingError>(e) && *new_store
                        == *old_store,
                    Ok(c) => match booking_check(old_store, input, c.charged_cost_microusd) {
                        Some(e) => res == Err::<ChargeSnapshotV2, BillingError>(e) && *new_store
                            == *old_store,
                        None => {
                            &&& res is Ok
                            &&& snapshot_row(res->Ok_0, input, mid, tier, c)
                            &&& new_store.snapshots@ == old_store.snapshots@.push(res->Ok_0)
                            &&& booked(old_store, new_store, input, res->Ok_0)
                            &&& new_store.unchanged_except(
                                old_store,
                                false,
                                false,
                                true,
                                true,
                                false,
                                false,
                                true,
                            )
                        },
                    },
                }
            }
    }
}

impl Storage {
    /// The applicable tier with the highest threshold among the models that `pm`
    /// admits, with the model's id; `listed` selects [`listed_model`] over
    /// [`model_slug_is`].
    fn best_tier(&self, slug: &str, input: i64, listed: bool) -> (res: Option<(String, ModelPriceTierV2)>)
        ensures
            best_tier_choice(
                self.models@,
                if listed {
                    listed_model(slug@)
                } else {
                    model_slug_is(slug@)
                },
                input,
                tier_view(res),
            ),
    {
        let ghost pm = if listed {
            listed_model(slug@)
        } else {
            model_slug_is(slug@)
        };
        let ghost models = self.models@;
        let mut best: Option<(usize, usize)> = None;
        let mut i: usize = 0;
        while i < self.models.len()
            invariant
                models == self.models@,
                pm == (if listed {
                    listed_model(slug@)
                } else {
                    model_slug_is(slug@)
                }),
                0 <= i <= models.len(),
                match best {
                    None => forall|i2: int, j2: int|
                        0 <= i2 < i ==> !tier_candidate(models, pm, input, i2, j2),
                    Some((bi, bj)) => tier_candidate(models, pm, input, bi as int, bj as int) && bi
                        < i && forall|i2: int, j2: int|
                        0 <= i2 < i && tier_candidate(models, pm, input, i2, j2)
                            ==> models[i2].tiers@[j2].min_input_tokens
                            <= models[bi as int].tiers@[bj as int].min_input_tokens,
                },
            decreases models.len() - i,
        {
            let m = &self.models[i];
            let admitted = eq_ignore_ascii_case(m.slug.as_str(), slug) && (if listed {
                match &m.price_status {
                    Some(p) => !str_equal(p.as_str(), "missing"),
                    None => false,
                }
            } else {
                true
            });
            assert(admitted == pm(models[i as int]));
            let mut j: usize = 0;
            while j < m.tiers.len()
                invariant
                    models == self.models@,
                    *m == models[i as int],
                    0 <= i < models.len(),
                    admitted == pm(models[i as int]),
                    0 <= j <= m.tiers@.len(),
                    match best {
                        None => forall|i2: int, j2: int|
                            (0 <= i2 < i || (i2 == i && 0 <= j2 < j)) ==> !tier_candidate(
                                models,
                                pm,
                                input,
                                i2,
                                j2,
                            ),
                        Some((bi, bj)) => tier_candidate(models, pm, input, bi as int, bj as int)
                            && bi <= i && forall|i2: int, j2: int|
                            (0 <= i2 < i || (i2 == i && 0 <= j2 < j)) && tier_candidate(
                                models,
                                pm,
                                input,
                                i2,
                                j2,
                            ) ==> models[i2].tiers@[j2].min_input_tokens
                                <= models[bi as int].tiers@[bj as int].min_input_tokens,
                    },
                decreases m.tiers@.len() - j,
            {
                let t = m.tiers[j];
                if admitted && t.min_input_tokens <= input {
                    let better = match best {
                        None => true,
                        Some((bi, bj)) => t.min_input_tokens
                            > self.models[bi].tiers[bj].min_input_tokens,
                    };
                    if better {
                        best = Some((i, j));
                    }
                }
                j += 1;
            }
            i += 1;
        }
        match best {
            Some((bi, bj)) => Some((self.models[bi].id.clone(), self.models[bi].tiers[bj])),
            None => None,
        }
    }

    /// The price tier that applies to `input_tokens` input tokens of the model with the
    /// slug (trimmed, ASCII case ignored) whose price is not missing: the one with the
    /// highest threshold not above the token count, with the model's id.
    pub fn select_model_price_tier_v2(&self, model_slug: &str, input_tokens: i64) -> (res: Result<
        Option<(String, ModelPriceTierV2)>,
        BillingError,
    >)
        ensures
            input_tokens < 0 ==> res == Err::<Option<(String, ModelPriceTierV2)>, BillingError>(
                BillingError::NegativeInputTokens,
            ),
            input_tokens >= 0 ==> (res matches Ok(r) && best_tier_choice(
                self.models@,
                listed_model(trim_seq(model_slug@)),
                input_tokens,
                tier_view(r),
            )),
    {
        if input_tokens < 0 {
            return Err(BillingError::NegativeInputTokens);
        }
        let slug = trim(model_slug);
        Ok(self.best_tier(slug.as_str(), input_tokens, true))
    }

    /// The snapshot of the request, if it was recorded.
    pub fn get_charge_snapshot_v2(&self, request_log_id: i64) -> (res: Result<
        Option<ChargeSnapshotV2>,
        BillingError,
    >)
        ensures
            res == Ok::<Option<ChargeSnapshotV2>, BillingError>(
                find_first(self.snapshots@, snapshot_of(request_log_id)),
            ),
    {
        let mut i: usize = 0;
        while i < self.snapshots.len()
            invariant
                0 <= i <= self.snapshots@.len(),
                forall|k: int|
                    0 <= k < i ==> !snapshot_of(request_log_id)(#[trigger] self.snapshots@[k]),
            decreases self.snapshots@.len() - i,
        {
            if self.snapshots[i].request_log_id == request_log_id {
                proof {
                    lemma_first_index_scan(self.snapshots@, snapshot_of(request_log_id), i as int);
                }
                return Ok(Some(copy_snapshot(&self.snapshots[i])));
            }
            i += 1;
        }
        proof {
            lemma_first_index_scan(self.snapshots@, snapshot_of(request_log_id), i as int);
        }
        Ok(None)
    }

    /// The price status of the first model with the slug that has a price row.
    fn priced_status(&self, slug: &str) -> (res: Option<String>)
        ensures
            opt_view(res) == match find_first(self.models@, priced_model(slug@)) {
                Some(m) => Some(m.price_status->Some_0@),
                None => None,
            },
    {
        let mut i: usize = 0;
        while i < self.models.len()
            invariant
                0 <= i <= self.models@.len(),
                forall|k: int| 0 <= k < i ==> !priced_model(slug@)(#[trigger] self.models@[k]),
            decreases self.models@.len() - i,
        {
            let m = &self.models[i];
            if eq_ignore_ascii_case(m.slug.as_str(), slug) {
                if let Some(p) = &m.price_status {
                    proof {
                        lemma_first_index_scan(self.models@, priced_model(slug@), i as int);
                    }
                    return Some(p.clone());
                }
            }
            i += 1;
        }
        proof {
            lemma_first_index_scan(self.models@, priced_model(slug@), i as int);
        }
        None
    }

    fn has_request_charge(&self, request_log_id: i64) -> (res: bool)
        ensures
            res == (find_first(self.ledger@, request_charge_of(request_log_id)) is Some),
    {
        let mut i: usize = 0;
        while i < self.ledger.len()
            invariant
                0 <= i <= self.ledger@.len(),
                forall|k: int|
                    0 <= k < i ==> !request_charge_of(request_log_id)(#[trigger] self.ledger@[k]),
            decreases self.ledger@.len() - i,
        {
            let e = &self.ledger[i];
            if e.request_log_id == Some(request_log_id) && str_equal(
                e.entry_kind.as_str(),
                "request_charge",
            ) {
                proof {
                    lemma_first_index_scan(self.ledger@, request_charge_of(request_log_id), i as int);
                }
                return true;
            }
            i += 1;
        }
        proof {
            lemma_first_index_scan(self.ledger@, request_charge_of(request_log_id), i as int);
        }
        false
    }

    /// Prices a request once and keeps the snapshot: a request already recorded gets
    /// its snapshot back unchanged; otherwise the model must have a price that is not
    /// missing and a tier that applies, and when the input names a wallet (not
    /// blank) the charge is debited from it, active and able to pay, with a
    /// `request_charge` ledger entry. Nothing changes unless every step succeeds.
    pub fn record_charge_snapshot_v2(&mut self, input: &ChargeSnapshotInputV2) -> (res: Result<
        ChargeSnapshotV2,
        BillingError,
    >)
        requires
            old(self).wallet_ids_unique(),
        ensures
            final(self).wallet_ids_unique(),
            snapshot_recorded(old(self), final(self), *input, res),
    {
        let source = input.usage_source.as_str();
        if !(str_equal(source, "actual") || str_equal(source, "estimated")) {
            return Err(BillingError::InvalidUsageSource);
        }
        if let Ok(Some(existing)) = self.get_charge_snapshot_v2(input.request_log_id) {
            return Ok(existing);
        }
        let slug = trim(input.model_slug.as_str());
        match self.priced_status(slug.as_str()) {
            None => {
                return Err(BillingError::ModelNotFound);
            },
            Some(p) => {
                if str_equal(p.as_str(), "missing") {
                    return Err(BillingError::ModelPriceMissing);
                }
            },
        }
        let (model_id, tier) = match self.best_tier(slug.as_str(), input.input_tokens, false) {
            Some(t) => t,
            None => {
                return Err(BillingError::NoPriceTier);
            },
        };
        let computation = compute_charge_v2(
            input.input_tokens,
            input.cached_input_tokens,
            input.output_tokens,
            &tier,
            input.rate_multiplier_millis,
        )?;
        let charge = computation.charged_cost_microusd;
        let wallet_raw = match &input.wallet_id {
            Some(w) => Some(w.as_str()),
            None => None,
        };
        let books = normalize_optional_text(wallet_raw).is_some();
        let ghost s0 = *self;
        let mut debit: Option<(usize, AppWallet, String)> = None;
        if books {
            let wid = input.wallet_id.as_ref().unwrap().as_str();
            if self.has_request_charge(input.request_log_id) {
                return Err(BillingError::LedgerExistsWithoutSnapshot);
            }
            let wi = match self.wallet_index_by_id(wid) {
                Some(i) => i,
                None => {
                    return Err(BillingError::WalletInsufficientBalance);
                },
            };
            let w = copy_wallet(&self.wallets[wi]);
            if !str_equal(w.status.as_str(), "active") || (w.balance_credit_micros as i128)
                - (charge as i128) < (w.frozen_credit_micros as i128) {
                return Err(BillingError::WalletInsufficientBalance);
            }
            let ledger_id = concat_str("wl_request_", i64_to_decimal(input.request_log_id).as_str());
            if self.ledger_has_id(ledger_id.as_str()) {
                return Err(BillingError::LedgerIdTaken);
            }
            debit = Some((wi, w, ledger_id));
        }
        let now = now_ts();
        let snapshot = ChargeSnapshotV2 {
            request_log_id: input.request_log_id,
            model_id: Some(model_id),
            model_slug: slug,
            tier_min_input_tokens: tier.min_input_tokens,
            usage_source: input.usage_source.clone(),
            input_tokens: input.input_tokens,
            cached_input_tokens: input.cached_input_tokens,
            output_tokens: input.output_tokens,
            input_microusd_per_1m: tier.input_microusd_per_1m,
            cached_input_microusd_per_1m: tier.cached_input_microusd_per_1m,
            output_microusd_per_1m: tier.output_microusd_per_1m,
            rate_multiplier_millis: input.rate_multiplier_millis,
            base_cost_microusd: computation.base_cost_microusd,
            charged_cost_microusd: charge,
            currency: "USD".to_owned(),
            created_at: now,
        };
        self.snapshots.push(copy_snapshot(&snapshot));
        if let Some((wi, w, ledger_id)) = debit {
            let balance_after = w.balance_credit_micros - charge;
            let mut nw = w;
            nw.balance_credit_micros = balance_after;
            nw.updated_at = now;
            proof {
                lemma_first_index_props(s0.wallets@, wallet_id_is(input.wallet_id->Some_0@));
            }
            self.wallets.set(wi, nw);
            let entry = AppWalletLedgerEntry {
                id: ledger_id,
                wallet_id: input.wallet_id.as_ref().unwrap().clone(),
                entry_kind: "request_charge".to_owned(),
                amount_credit_micros: -charge,
                balance_after_credit_micros: balance_after,
                request_log_id: Some(input.request_log_id),
                api_key_id: copy_opt_string(&input.api_key_id),
                pricing_rule_id: None,
                raw_usage_json: copy_opt_string(&input.raw_usage_json),
                note: Some("model_catalog_v2".to_owned()),
                created_by_user_id: None,
                created_at: now,
            };
            self.ledger.push(entry);
        }
        Ok(snapshot)
    }
}

/// A copy of a snapshot row.
pub(crate) fn copy_snapshot(s: &ChargeSnapshotV2) -> (res: ChargeSnapshotV2)
    ensures
        res == *s,
{
    ChargeSnapshotV2 {
        request_log_id: s.request_log_id,
        model_id: copy_opt_string(&s.model_id),
        model_slug: s.model_slug.clone(),
        tier_min_input_tokens: s.tier_min_input_tokens,
        usage_source: s.usage_source.clone(),
        input_tokens: s.input_tokens,
        cached_input_tokens: s.cached_input_tokens,
        output_tokens: s.output_tokens,
        input_microusd_per_1m: s.input_microusd_per_1m,
        cached_input_microusd_per_1m: s.cached_input_microusd_per_1m,
        output_microusd_per_1m: s.output_microusd_per_1m,
        rate_multiplier_millis: s.rate_multiplier_millis,
        base_cost_microusd: s.base_cost_microusd,
        charged_cost_microusd: s.charged_cost_microusd,
        currency: s.currency.clone(),
        created_at: s.created_at,
    }
}

/// Recording the snapshot of a request a second time, after a first recording
/// succeeded, returns the same snapshot and changes nothing.
pub proof fn law_snapshot_recording_is_idempotent(
    first: Storage,
    second: Storage,
    third: Storage,
    input: ChargeSnapshotInputV2,
    snap: ChargeSnapshotV2,
    again: Result<ChargeSnapshotV2, BillingError>,
)
    requires
        snapshot_recorded(&first, &second, input, Ok(snap)),
        snapshot_recorded(&second, &third, input, again),
    ensures
        again == Ok::<ChargeSnapshotV2, BillingError>(snap),
        third == second,
{
    let p = snapshot_of(input.request_log_id);
    if find_first(first.snapshots@, p) is None {
        lemma_first_index_push(first.snapshots@, p, snap);
    }
}


/// A recording that books its charge leaves the wallet active and at or above
/// its frozen credit: the new balance is the old one minus the charge, and it is
/// at least the frozen credit.
pub proof fn law_booking_keeps_frozen_credit(
    before: Storage,
    after: Storage,
    input: ChargeSnapshotInputV2,
    snap: ChargeSnapshotV2,
)
    requires
        snapshot_recorded(&before, &after, input, Ok(snap)),
        find_first(before.snapshots@, snapshot_of(input.request_log_id)) is None,
        normalize_optional_seq(opt_view(input.wallet_id)) is Some,
    ensures
        ({
            let wi = first_index(before.wallets@, wallet_id_is(input.wallet_id->Some_0@));
            &&& 0 <= wi < after.wallets@.len()
            &&& after.wallets@[wi].balance_credit_micros == before.wallets@[wi].balance_credit_micros
                - snap.charged_cost_microusd
            &&& after.wallets@[wi].balance_credit_micros >= after.wallets@[wi].frozen_credit_micros
            &&& after.wallets@[wi].frozen_credit_micros == before.wallets@[wi].frozen_credit_micros
            &&& after.wallets@[wi].status@ == "active"@
        }),
{
    lemma_first_index_props(before.wallets@, wallet_id_is(input.wallet_id->Some_0@));
}

} // verus!
