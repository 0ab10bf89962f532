use codexmanager::app_manager::wallet_top_up;
use codexmanager::billing::{
    ceil_div, checked_i64, compute_charge_v2, BillingError, ChargeSnapshotInputV2, ModelPriceTierV2,
};
use codexmanager::storage::{CatalogModel, Storage};

fn tier(min: i64, input: i64, cached: i64, output: i64) -> ModelPriceTierV2 {
    ModelPriceTierV2 {
        min_input_tokens: min,
        input_microusd_per_1m: input,
        cached_input_microusd_per_1m: cached,
        output_microusd_per_1m: output,
    }
}

fn catalog() -> Storage {
    let mut storage = Storage::new();
    storage.models.push(CatalogModel {
        id: "m-gpt-5.4".to_string(),
        slug: "gpt-5.4".to_string(),
        price_status: Some("active".to_string()),
        tiers: vec![
            tier(0, 2_500_000, 250_000, 15_000_000),
            tier(272_000, 5_000_000, 500_000, 22_500_000),
        ],
    });
    storage.models.push(CatalogModel {
        id: "m-gpt-5.4-mini".to_string(),
        slug: "gpt-5.4-mini".to_string(),
        price_status: Some("active".to_string()),
        tiers: vec![tier(0, 750_000, 75_000, 4_500_000)],
    });
    storage.models.push(CatalogModel {
        id: "m-gpt-5.6-sol".to_string(),
        slug: "gpt-5.6-sol".to_string(),
        price_status: Some("missing".to_string()),
        tiers: vec![],
    });
    storage
}

#[test]
fn integer_formula_charges_cached_subset_once() {
    let tier = ModelPriceTierV2 {
        min_input_tokens: 0,
        input_microusd_per_1m: 2_000_000,
        cached_input_microusd_per_1m: 200_000,
        output_microusd_per_1m: 10_000_000,
    };
    let result = compute_charge_v2(100, 40, 10, &tier, 1_500).unwrap();
    assert_eq!(result.uncached_input_tokens, 60);
    assert_eq!(result.numerator, 228_000_000);
    assert_eq!(result.base_cost_microusd, 228);
    assert_eq!(result.charged_cost_microusd, 342);
}

#[test]
fn cached_above_input_is_clamped_and_tier_boundary_is_exact() {
    let storage = catalog();
    let (_, low) = storage
        .select_model_price_tier_v2("gpt-5.4", 271_999)
        .unwrap()
        .unwrap();
    let (_, high) = storage
        .select_model_price_tier_v2("gpt-5.4", 272_000)
        .unwrap()
        .unwrap();
    assert_eq!(low.min_input_tokens, 0);
    assert_eq!(high.min_input_tokens, 272_000);
    let result = compute_charge_v2(10, 20, 0, &low, 1_000).unwrap();
    assert_eq!(result.uncached_input_tokens, 0);
    assert_eq!(
        result.numerator,
        10_i128 * i128::from(low.cached_input_microusd_per_1m)
    );
}

#[test]
fn missing_price_is_rejected_and_snapshot_is_idempotent() {
    let mut storage = catalog();
    let request_log_id = 1;
    let mut input = ChargeSnapshotInputV2 {
        request_log_id,
        model_slug: "gpt-5.6-sol".into(),
        usage_source: "actual".into(),
        input_tokens: 1,
        cached_input_tokens: 0,
        output_tokens: 1,
        rate_multiplier_millis: 1_000,
        ..Default::default()
    };
    assert!(storage
        .record_charge_snapshot_v2(&input)
        .unwrap_err()
        .message()
        .contains("model_price_missing"));
    input.model_slug = "gpt-5.4-mini".into();
    let first = storage.record_charge_snapshot_v2(&input).unwrap();
    let second = storage.record_charge_snapshot_v2(&input).unwrap();
    assert_eq!(first, second);
}

#[test]
fn multiplier_scales_and_rounds_up() {
    let t = tier(0, 1_000_000, 0, 0);
    let result = compute_charge_v2(1, 0, 0, &t, 1_001).unwrap();
    assert_eq!(result.numerator, 1_000_000);
    assert_eq!(result.base_cost_microusd, 1);
    assert_eq!(result.charged_cost_microusd, 2);
    let unit = compute_charge_v2(3, 1, 2, &tier(0, 7, 5, 11), 1_000).unwrap();
    assert_eq!(unit.charged_cost_microusd, unit.base_cost_microusd);
}

#[test]
fn negative_inputs_are_rejected() {
    let t = tier(0, 1, 1, 1);
    assert_eq!(compute_charge_v2(-1, 0, 0, &t, 1_000), Err(BillingError::NegativeInput));
    assert_eq!(compute_charge_v2(1, 0, 0, &t, 0), Err(BillingError::NegativeInput));
    assert_eq!(
        compute_charge_v2(1, 0, 0, &tier(0, -1, 0, 0), 1_000),
        Err(BillingError::NegativeInput)
    );
}

#[test]
fn huge_charges_overflow_the_integer_range() {
    let t = tier(0, i64::MAX, i64::MAX, i64::MAX);
    let r = compute_charge_v2(i64::MAX, 0, i64::MAX, &t, i64::MAX);
    assert_eq!(r, Err(BillingError::MultipliedChargeOverflow));
    let one = tier(0, i64::MAX, 0, 0);
    assert_eq!(compute_charge_v2(i64::MAX, 0, 0, &one, 1), Err(BillingError::BaseCostOutOfRange));
    let big = tier(0, 1_000_000_000_000, 0, 0);
    assert_eq!(
        compute_charge_v2(1_000_000_000_000, 0, 0, &big, 1_000_000),
        Err(BillingError::ChargedCostOutOfRange)
    );
    assert_eq!(checked_i64(i128::from(i64::MAX) + 1, BillingError::BaseCostOutOfRange), Err(BillingError::BaseCostOutOfRange));
    assert_eq!(checked_i64(-5, BillingError::BaseCostOutOfRange), Ok(-5));
}

#[test]
fn ceil_div_rounds_up_and_floors_at_zero() {
    assert_eq!(ceil_div(0, 7), 0);
    assert_eq!(ceil_div(-3, 7), 0);
    assert_eq!(ceil_div(7, 7), 1);
    assert_eq!(ceil_div(8, 7), 2);
}

#[test]
fn tier_lookup_errors_and_gaps() {
    let storage = catalog();
    assert_eq!(
        storage.select_model_price_tier_v2("gpt-5.4", -1),
        Err(BillingError::NegativeInputTokens)
    );
    assert_eq!(storage.select_model_price_tier_v2("gpt-5.6-sol", 5), Ok(None));
    assert_eq!(storage.select_model_price_tier_v2("nope", 5), Ok(None));
    let (id, t) = storage
        .select_model_price_tier_v2("  GPT-5.4 ", 300_000)
        .unwrap()
        .unwrap();
    assert_eq!(id, "m-gpt-5.4");
    assert_eq!(t.min_input_tokens, 272_000);
}

#[test]
fn snapshot_errors_leave_the_store_unchanged() {
    let mut storage = catalog();
    let mut input = ChargeSnapshotInputV2 {
        request_log_id: 9,
        model_slug: "gpt-5.4".into(),
        usage_source: "guessed".into(),
        input_tokens: 1,
        output_tokens: 1,
        rate_multiplier_millis: 1_000,
        ..Default::default()
    };
    assert_eq!(storage.record_charge_snapshot_v2(&input), Err(BillingError::InvalidUsageSource));
    input.usage_source = "estimated".into();
    input.model_slug = "unknown-model".into();
    assert_eq!(storage.record_charge_snapshot_v2(&input), Err(BillingError::ModelNotFound));
    input.model_slug = "gpt-5.4".into();
    input.wallet_id = Some("w-missing".into());
    assert_eq!(
        storage.record_charge_snapshot_v2(&input),
        Err(BillingError::WalletInsufficientBalance)
    );
    assert_eq!(storage.get_charge_snapshot_v2(9), Ok(None));
}

#[test]
fn snapshot_books_the_charge_on_the_wallet() {
    let mut storage = catalog();
    let wallet = wallet_top_up(&mut storage, "project", "p1", 1_000_000, None, None).unwrap();
    let input = ChargeSnapshotInputV2 {
        request_log_id: 42,
        model_slug: "gpt-5.4-mini".into(),
        usage_source: "actual".into(),
        input_tokens: 1_000,
        cached_input_tokens: 0,
        output_tokens: 1_000,
        rate_multiplier_millis: 2_000,
        wallet_id: Some(wallet.id.clone()),
        api_key_id: Some("key-1".into()),
        raw_usage_json: None,
    };
    let snap = storage.record_charge_snapshot_v2(&input).unwrap();
    // (1000 * 750000 + 1000 * 4500000) / 1e6 = 5250; doubled = 10500.
    assert_eq!(snap.base_cost_microusd, 5_250);
    assert_eq!(snap.charged_cost_microusd, 10_500);
    assert_eq!(snap.currency, "USD");
    assert_eq!(storage.wallets[0].balance_credit_micros, 1_000_000 - 10_500);
    let entry = storage.ledger.last().unwrap();
    assert_eq!(entry.id, "wl_request_42");
    assert_eq!(entry.amount_credit_micros, -10_500);
    assert_eq!(entry.note.as_deref(), Some("model_catalog_v2"));
    assert_eq!(storage.get_charge_snapshot_v2(42), Ok(Some(snap)));
}

#[test]
fn tier_gaps_and_ledger_conflicts_are_refused() {
    let mut storage = catalog();
    storage.models.push(CatalogModel {
        id: "m-late".to_string(),
        slug: "late".to_string(),
        price_status: Some("active".to_string()),
        tiers: vec![tier(100, 1, 1, 1)],
    });
    let mut input = ChargeSnapshotInputV2 {
        request_log_id: 5,
        model_slug: "late".into(),
        usage_source: "actual".into(),
        input_tokens: 10,
        output_tokens: 1,
        rate_multiplier_millis: 1_000,
        ..Default::default()
    };
    assert_eq!(storage.record_charge_snapshot_v2(&input), Err(BillingError::NoPriceTier));
    let wallet = wallet_top_up(&mut storage, "project", "p", 1_000, None, None).unwrap();
    input.model_slug = "gpt-5.4-mini".into();
    input.wallet_id = Some(wallet.id.clone());
    let mut stray = storage.ledger[0].clone();
    stray.id = "wl_request_5".to_string();
    storage.ledger.push(stray.clone());
    assert_eq!(storage.record_charge_snapshot_v2(&input), Err(BillingError::LedgerIdTaken));
    stray.id = "other".to_string();
    stray.entry_kind = "request_charge".to_string();
    stray.request_log_id = Some(5);
    storage.ledger.push(stray);
    assert_eq!(
        storage.record_charge_snapshot_v2(&input),
        Err(BillingError::LedgerExistsWithoutSnapshot)
    );
    assert_eq!(BillingError::LedgerIdTaken.message(), "UNIQUE constraint failed: app_wallet_ledger_entries.id");
}
