//! The integer charge formula of the model catalog: token counts times per-million
//! micro-USD rates, rounded up, scaled by a per-mille multiplier.
use vstd::prelude::*;

verus! {

/// One price tier of a model: it applies from `min_input_tokens` input tokens on.
#[derive(Debug, Clone, Copy, Default, PartialEq, Eq, Structural)]
pub struct ModelPriceTierV2 {
    pub min_input_tokens: i64,
    pub input_microusd_per_1m: i64,
    pub cached_input_microusd_per_1m: i64,
    pub output_microusd_per_1m: i64,
}

/// The outcome of the charge formula.
#[derive(Debug, Clone, Copy, Default, PartialEq, Eq, Structural)]
pub struct ChargeComputationV2 {
    pub uncached_input_tokens: i64,
    pub numerator: i128,
    pub base_cost_microusd: i64,
    pub charged_cost_microusd: i64,
}

/// A request's usage, to be priced and booked once.
#[derive(Debug, Clone, Default)]
pub struct ChargeSnapshotInputV2 {
    pub request_log_id: i64,
    pub model_slug: String,
    pub usage_source: String,
    pub input_tokens: i64,
    pub cached_input_tokens: i64,
    pub output_tokens: i64,
    pub rate_multiplier_millis: i64,
    pub wallet_id: Option<String>,
    pub api_key_id: Option<String>,
    pub raw_usage_json: Option<String>,
}

/// The priced record of one request.
#[derive(Debug, Clone, Default, PartialEq, Eq)]
pub struct ChargeSnapshotV2 {
    pub request_log_id: i64,
    pub model_id: Option<String>,
    pub model_slug: String,
    pub tier_min_input_tokens: i64,
    pub usage_source: String,
    pub input_tokens: i64,
    pub cached_input_tokens: i64,
    pub output_tokens: i64,
    pub input_microusd_per_1m: i64,
    pub cached_input_microusd_per_1m: i64,
    pub output_microusd_per_1m: i64,
    pub rate_multiplier_millis: i64,
    pub base_cost_microusd: i64,
    pub charged_cost_microusd: i64,
    pub currency: String,
    pub created_at: i64,
}

/// Why a charge could not be computed or recorded.
#[derive(Debug, Clone, Copy, PartialEq, Eq, Structural)]
pub enum BillingError {
    /// A token count or rate is negative, or the multiplier is not positive.
    NegativeInput,
    /// The sum of the three token charges does not fit in an `i128`.
    ChargeOverflow,
    /// The charge times the multiplier does not fit in an `i128`.
    MultipliedChargeOverflow,
    /// The base cost does not fit in an `i64`.
    BaseCostOutOfRange,
    /// The charged cost does not fit in an `i64`.
    ChargedCostOutOfRange,
    /// The usage source is neither `actual` nor `estimated`.
    InvalidUsageSource,
    /// No model with a price has the slug.
    ModelNotFound,
    /// The model's price is marked missing.
    ModelPriceMissing,
    /// The model has no tier that applies to the input token count.
    NoPriceTier,
    /// The input token count is negative.
    NegativeInputTokens,
    /// A request charge is already booked for the request although no snapshot exists.
    LedgerExistsWithoutSnapshot,
    /// The wallet is missing, not active, or would fall below its frozen credit.
    WalletInsufficientBalance,
    /// The ledger id of the request's charge is already taken.
    LedgerIdTaken,
}

impl BillingError {
    /// The text of the message that describes the error.
    pub open spec fn text(self) -> Seq<char> {
        match self {
            BillingError::NegativeInput => "tokens, rates, and multiplier must be non-negative"@,
            BillingError::ChargeOverflow => "charge overflow"@,
            BillingError::MultipliedChargeOverflow => "multiplied charge overflow"@,
            BillingError::BaseCostOutOfRange => "base cost exceeds SQLite INTEGER range"@,
            BillingError::ChargedCostOutOfRange => "charged cost exceeds SQLite INTEGER range"@,
            BillingError::InvalidUsageSource => "usage_source must be actual or estimated"@,
            BillingError::ModelNotFound => "Query returned no rows"@,
            BillingError::ModelPriceMissing => "model_price_missing"@,
            BillingError::NoPriceTier => "Query returned no rows"@,
            BillingError::NegativeInputTokens => "input tokens cannot be negative"@,
            BillingError::LedgerExistsWithoutSnapshot => "request charge ledger exists without snapshot"@,
            BillingError::WalletInsufficientBalance => "wallet_insufficient_balance"@,
            BillingError::LedgerIdTaken => "UNIQUE constraint failed: app_wallet_ledger_entries.id"@,
        }
    }

    /// The message that describes the error.
    pub fn message(&self) -> (res: String)
        ensures
            res@ == self.text(),
    {
        let s = match self {
            BillingError::NegativeInput => "tokens, rates, and multiplier must be non-negative",
            BillingError::ChargeOverflow => "charge overflow",
            BillingError::MultipliedChargeOverflow => "multiplied charge overflow",
            BillingError::BaseCostOutOfRange => "base cost exceeds SQLite INTEGER range",
            BillingError::ChargedCostOutOfRange => "charged cost exceeds SQLite INTEGER range",
            BillingError::InvalidUsageSource => "usage_source must be actual or estimated",
            BillingError::ModelNotFound => "Query returned no rows",
            BillingError::ModelPriceMissing => "model_price_missing",
            BillingError::NoPriceTier => "Query returned no rows",
            BillingError::NegativeInputTokens => "input tokens cannot be negative",
            BillingError::LedgerExistsWithoutSnapshot => "request charge ledger exists without snapshot",
            BillingError::WalletInsufficientBalance => "wallet_insufficient_balance",
            BillingError::LedgerIdTaken => "UNIQUE constraint failed: app_wallet_ledger_entries.id",
        };
        s.to_owned()
    }
}

/// `value / divisor` rounded up, and 0 for a value that is not positive.
pub open spec fn ceil_div_spec(value: int, divisor: int) -> int {
    if value <= 0 {
        0
    } else {
        (value + divisor - 1) / divisor
    }
}

/// The inputs that the formula rejects.
pub open spec fn charge_inputs_invalid(
    input_tokens: i64,
    cached_input_tokens: i64,
    output_tokens: i64,
    tier: ModelPriceTierV2,
    rate_multiplier_millis: i64,
) -> bool {
    input_tokens < 0 || cached_input_tokens < 0 || output_tokens < 0 || tier.input_microusd_per_1m
        < 0 || tier.cached_input_microusd_per_1m < 0 || tier.output_microusd_per_1m < 0
        || rate_multiplier_millis <= 0
}

/// Input tokens that are not cached: never negative.
pub open spec fn uncached_spec(input_tokens: int, cached_input_tokens: int) -> int {
    if input_tokens - cached_input_tokens > 0 {
        input_tokens - cached_input_tokens
    } else {
        0
    }
}

/// Cached tokens charged at the cached rate: at most the input tokens.
pub open spec fn cached_charged_spec(input_tokens: int, cached_input_tokens: int) -> int {
    if cached_input_tokens < input_tokens {
        cached_input_tokens
    } else {
        input_tokens
    }
}

/// The charge before rounding, in micro-USD per million tokens.
pub open spec fn numerator_spec(
    input_tokens: int,
    cached_input_tokens: int,
    output_tokens: int,
    tier: ModelPriceTierV2,
) -> int {
    uncached_spec(input_tokens, cached_input_tokens) * tier.input_microusd_per_1m
        + cached_charged_spec(input_tokens, cached_input_tokens) * tier.cached_input_microusd_per_1m
        + output_tokens * tier.output_microusd_per_1m
}

/// What `compute_charge_v2` returns on each input.
pub open spec fn charge_spec(
    input_tokens: i64,
    cached_input_tokens: i64,
    output_tokens: i64,
    tier: ModelPriceTierV2,
    rate_multiplier_millis: i64,
) -> Result<ChargeComputationV2, BillingError> {
    if charge_inputs_invalid(
        input_tokens,
        cached_input_tokens,
        output_tokens,
        tier,
        rate_multiplier_millis,
    ) {
        Err(BillingError::NegativeInput)
    } else {
        let n = numerator_spec(
            input_tokens as int,
            cached_input_tokens as int,
            output_tokens as int,
            tier,
        );
        let m = n * rate_multiplier_millis;
        let base = ceil_div_spec(n, 1_000_000);
        let charged = ceil_div_spec(m, 1_000_000_000);
        if n > i128::MAX {
            Err(BillingError::ChargeOverflow)
        } else if m > i128::MAX {
            Err(BillingError::MultipliedChargeOverflow)
        } else if base > i64::MAX {
            Err(BillingError::BaseCostOutOfRange)
        } else if charged > i64::MAX {
            Err(BillingError::ChargedCostOutOfRange)
        } else {
            Ok(
                ChargeComputationV2 {
                    uncached_input_tokens: uncached_spec(
                        input_tokens as int,
                        cached_input_tokens as int,
                    ) as i64,
                    numerator: n as i128,
                    base_cost_microusd: base as i64,
                    charged_cost_microusd: charged as i64,
                },
            )
        }
    }
}

/// `value / divisor` rounded up; 0 for a value that is not positive.
pub fn ceil_div(value: i128, divisor: i128) -> (res: i128)
    requires
        divisor > 0,
    ensures
        res == ceil_div_spec(value as int, divisor as int),
{
    if value <= 0 {
        0
    } else {
        let q = value / divisor;
        let r = value % divisor;
        proof {
            assert(value == divisor * q + r) by (nonlinear_arith)
                requires
                    divisor > 0,
                    q == value / divisor,
                    r == value % divisor,
            ;
            let v = value as int;
            let d = divisor as int;
            if r == 0 {
                assert((v + d - 1) / d == q) by (nonlinear_arith)
                    requires
                        v == d * q,
                        d > 0,
                ;
            } else {
                assert((v + d - 1) / d == q + 1) by (nonlinear_arith)
                    requires
                        v == d * q + r,
                        0 < r < d,
                        d > 0,
                ;
                assert(q < v) by (nonlinear_arith)
                    requires
                        v == d * q + r,
                        0 < r < d,
                        v > 0,
                ;
            }
        }
        if r == 0 {
            q
        } else {
            q + 1
        }
    }
}

/// `value` as an `i64`, or `err` when it does not fit.
pub fn checked_i64(value: i128, err: BillingError) -> (res: Result<i64, BillingError>)
    ensures
        i64::MIN <= value <= i64::MAX ==> res == Ok::<i64, BillingError>(value as i64),
        !(i64::MIN <= value <= i64::MAX) ==> res == Err::<i64, BillingError>(err),
{
    if i64::MIN as i128 <= value && value <= i64::MAX as i128 {
        Ok(value as i64)
    } else {
        Err(err)
    }
}

proof fn lemma_product_bound(a: int, b: int)
    requires
        0 <= a <= i64::MAX,
        0 <= b <= i64::MAX,
    ensures
        0 <= a * b <= i64::MAX * i64::MAX,
{
    assert(0 <= a * b <= i64::MAX * i64::MAX) by (nonlinear_arith)
        requires
            0 <= a <= i64::MAX,
            0 <= b <= i64::MAX,
    ;
}

/// The charge for one request: uncached input tokens at the input rate, the cached
/// tokens (at most the input tokens) at the cached rate, output tokens at the output
/// rate; the base cost is that sum over a million rounded up, the charged cost the sum
/// times the multiplier over a billion rounded up.
pub fn compute_charge_v2(
    input_tokens: i64,
    cached_input_tokens: i64,
    output_tokens: i64,
    tier: &ModelPriceTierV2,
    rate_multiplier_millis: i64,
) -> (res: Result<ChargeComputationV2, BillingError>)
    ensures
        res == charge_spec(
            input_tokens,
            cached_input_tokens,
            output_tokens,
            *tier,
            rate_multiplier_millis,
        ),
{
    if input_tokens < 0 || cached_input_tokens < 0 || output_tokens < 0
        || tier.input_microusd_per_1m < 0 || tier.cached_input_microusd_per_1m < 0
        || tier.output_microusd_per_1m < 0 || rate_multiplier_millis <= 0 {
        return Err(BillingError::NegativeInput);
    }
    let uncached_input_tokens: i64 = if input_tokens > cached_input_tokens {
        input_tokens - cached_input_tokens
    } else {
        0
    };
    let cached_tokens_for_charge: i64 = if cached_input_tokens < input_tokens {
        cached_input_tokens
    } else {
        input_tokens
    };
    proof {
        lemma_product_bound(uncached_input_tokens as int, tier.input_microusd_per_1m as int);
        lemma_product_bound(
            cached_tokens_for_charge as int,
            tier.cached_input_microusd_per_1m as int,
        );
        lemma_product_bound(output_tokens as int, tier.output_microusd_per_1m as int);
    }
    let input_part: i128 = (uncached_input_tokens as i128) * (tier.input_microusd_per_1m as i128);
    let cached_part: i128 = (cached_tokens_for_charge as i128) * (
    tier.cached_input_microusd_per_1m as i128);
    let output_part: i128 = (output_tokens as i128) * (tier.output_microusd_per_1m as i128);
    let ghost n = numerator_spec(
        input_tokens as int,
        cached_input_tokens as int,
        output_tokens as int,
        *tier,
    );
    assert(n == input_part + cached_part + output_part);
    let numerator: i128 = match input_part.checked_add(cached_part) {
        Some(partial) => match partial.checked_add(output_part) {
            Some(total) => total,
            None => {
                return Err(BillingError::ChargeOverflow);
            },
        },
        None => {
            return Err(BillingError::ChargeOverflow);
        },
    };
    let ghost m = n * rate_multiplier_millis;
    let charged_numerator: i128 = match numerator.checked_mul(rate_multiplier_millis as i128) {
        Some(v) => v,
        None => {
            return Err(BillingError::MultipliedChargeOverflow);
        },
    };
    let base = checked_i64(ceil_div(numerator, 1_000_000), BillingError::BaseCostOutOfRange)?;
    let charged = checked_i64(
        ceil_div(charged_numerator, 1_000_000_000),
        BillingError::ChargedCostOutOfRange,
    )?;
    Ok(
        ChargeComputationV2 {
            uncached_input_tokens,
            numerator,
            base_cost_microusd: base,
            charged_cost_microusd: charged,
        },
    )
}

/// Cached tokens beyond the input tokens are not charged: reporting more cached
/// tokens than input tokens gives the same result as reporting all input as cached.
pub proof fn law_cached_tokens_are_clamped_to_input(
    input_tokens: i64,
    cached_input_tokens: i64,
    output_tokens: i64,
    tier: ModelPriceTierV2,
    rate_multiplier_millis: i64,
)
    requires
        cached_input_tokens >= input_tokens,
        cached_input_tokens >= 0,
    ensures
        charge_spec(input_tokens, cached_input_tokens, output_tokens, tier, rate_multiplier_millis)
            == charge_spec(input_tokens, input_tokens, output_tokens, tier, rate_multiplier_millis),
{
}

/// With a multiplier of 1000 per mille the charged cost equals the base cost.
pub proof fn law_unit_multiplier_charges_base_cost(
    input_tokens: i64,
    cached_input_tokens: i64,
    output_tokens: i64,
    tier: ModelPriceTierV2,
)
    ensures
        charge_spec(input_tokens, cached_input_tokens, output_tokens, tier, 1000) matches Ok(c)
            ==> c.charged_cost_microusd == c.base_cost_microusd,
{
    let n = numerator_spec(input_tokens as int, cached_input_tokens as int, output_tokens as int, tier);
    if n > 0 {
        let q = (n + 1_000_000 - 1) / 1_000_000;
        let r = (n + 1_000_000 - 1) % 1_000_000;
        assert(n + 1_000_000 - 1 == q * 1_000_000 + r && 0 <= r < 1_000_000) by (nonlinear_arith)
            requires
                q == (n + 1_000_000 - 1) / 1_000_000,
                r == (n + 1_000_000 - 1) % 1_000_000,
        ;
        assert((n * 1000 + 1_000_000_000 - 1) / 1_000_000_000 == q) by (nonlinear_arith)
            requires
                n + 1_000_000 - 1 == q * 1_000_000 + r,
                0 <= r < 1_000_000,
        ;
    }
}

/// The charged cost is never negative and never below the base cost when the
/// multiplier is at least 1000 per mille.
pub proof fn law_charge_not_below_base(
    input_tokens: i64,
    cached_input_tokens: i64,
    output_tokens: i64,
    tier: ModelPriceTierV2,
    rate_multiplier_millis: i64,
)
    requires
        rate_multiplier_millis >= 1000,
    ensures
        charge_spec(input_tokens, cached_input_tokens, output_tokens, tier, rate_multiplier_millis)
            matches Ok(c) ==> 0 <= c.base_cost_microusd <= c.charged_cost_microusd,
{
    if !charge_inputs_invalid(input_tokens, cached_input_tokens, output_tokens, tier, rate_multiplier_millis) {
        let n = numerator_spec(input_tokens as int, cached_input_tokens as int, output_tokens as int, tier);
        let k = rate_multiplier_millis as int;
        lemma_product_bound(uncached_spec(input_tokens as int, cached_input_tokens as int), tier.input_microusd_per_1m as int);
        lemma_product_bound(cached_charged_spec(input_tokens as int, cached_input_tokens as int), tier.cached_input_microusd_per_1m as int);
        lemma_product_bound(output_tokens as int, tier.output_microusd_per_1m as int);
        assert(n >= 0);
        if n > 0 {
            assert(n * k >= n * 1000) by (nonlinear_arith)
                requires
                    n > 0,
                    k >= 1000,
            ;
            let b = (n + 999_999) / 1_000_000;
            assert(b >= 0) by (nonlinear_arith)
                requires
                    n > 0,
                    b == (n + 999_999) / 1_000_000,
            ;
            assert(b * 1_000_000 <= n + 999_999) by (nonlinear_arith)
                requires
                    n > 0,
                    b == (n + 999_999) / 1_000_000,
            ;
            assert((n * k + 999_999_999) / 1_000_000_000 >= b) by (nonlinear_arith)
                requires
                    n * k >= n * 1000,
                    b * 1_000_000 <= n + 999_999,
                    b >= 0,
                    n > 0,
            ;
        }
    }
}

} // verus!
