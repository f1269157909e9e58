use openclaudia::session::pricing::{self, PriceTable, UnknownModelFlag};
use openclaudia::session::{CacheWriteTtl, ModelPricing, PricingError, TokenUsage, UsageExtras};

fn table() -> PriceTable {
    PriceTable::new("anthropic-".to_string())
}

fn rows() -> Vec<(String, ModelPricing)> {
    table().entries().clone()
}

/// Rates in dollars per million tokens.
struct Rates {
    input_per_million: f64,
    output_per_million: f64,
    fast_mode_input_per_million: Option<f64>,
    fast_mode_output_per_million: Option<f64>,
}

fn get_pricing(model: &str) -> Option<Rates> {
    let dollars = |rate: u64| rate as f64 / 1000.0;
    pricing::get_pricing(&table(), model).map(|p| Rates {
        input_per_million: dollars(p.input_per_million),
        output_per_million: dollars(p.output_per_million),
        fast_mode_input_per_million: p.fast_mode_input_per_million.map(dollars),
        fast_mode_output_per_million: p.fast_mode_output_per_million.map(dollars),
    })
}

/// A cost in dollars.
fn usd(cost: u128) -> f64 {
    cost as f64 / pricing::COST_UNITS_PER_USD as f64
}

fn web_search_cost(requests: u64) -> f64 {
    usd(pricing::web_search_cost(requests))
}

fn calculate_cost(model: &str, usage: &TokenUsage) -> Result<f64, PricingError> {
    let mut flag = UnknownModelFlag::default();
    pricing::calculate_cost(&table(), &mut flag, model, usage).map(usd)
}

fn calculate_cost_with_ttl(
    model: &str,
    usage: &TokenUsage,
    ttl: CacheWriteTtl,
) -> Result<f64, PricingError> {
    let mut flag = UnknownModelFlag::default();
    pricing::calculate_cost_with_ttl(&table(), &mut flag, model, usage, ttl).map(usd)
}

fn calculate_cost_with_extras(
    model: &str,
    usage: &TokenUsage,
    extras: &UsageExtras,
) -> Result<f64, PricingError> {
    let mut flag = UnknownModelFlag::default();
    pricing::calculate_cost_with_extras(&table(), &mut flag, model, usage, extras).map(usd)
}

fn calculate_cost_fast_mode(model: &str, usage: &TokenUsage) -> Result<f64, PricingError> {
    let mut flag = UnknownModelFlag::default();
    pricing::calculate_cost_fast_mode(&table(), &mut flag, model, usage).map(usd)
}

fn calculate_cost_full(
    model: &str,
    usage: &TokenUsage,
    extras: &UsageExtras,
    ttl: CacheWriteTtl,
    fast: bool,
) -> Result<f64, PricingError> {
    let mut flag = UnknownModelFlag::default();
    pricing::calculate_cost_full(&table(), &mut flag, model, usage, extras, ttl, fast).map(usd)
}

#[test]
fn ordering_gpt_5_2_resolves_before_gpt_5() {
    let idx_5_2 = rows()
        .iter()
        .position(|(p, _)| *p == "gpt-5.2")
        .expect("table must contain gpt-5.2 prefix");
    let idx_5 = rows()
        .iter()
        .position(|(p, _)| *p == "gpt-5")
        .expect("table must contain gpt-5 prefix");
    assert!(
        idx_5_2 < idx_5,
        "gpt-5.2 must precede gpt-5 in the table (got {idx_5_2} vs {idx_5}); \
         otherwise starts_with(\"gpt-5\") shadows the 5.2 entry"
    );
    assert!(get_pricing("gpt-5.2").is_some());
    assert!(get_pricing("gpt-5.2-turbo").is_some());
}

#[test]
fn ordering_current_gpt5_subfamilies_precede_generic_gpt5() {
    let idx_5 = rows()
        .iter()
        .position(|(p, _)| *p == "gpt-5")
        .expect("table must contain gpt-5 prefix");
    for prefix in [
        "gpt-5.5-pro",
        "gpt-5.5",
        "gpt-5.4-pro",
        "gpt-5.4-mini",
        "gpt-5.4-nano",
        "gpt-5.4",
        "gpt-5.3-codex",
        "gpt-5.3-chat-latest",
        "gpt-5.2-pro",
        "gpt-5.2-codex",
        "gpt-5.2-chat-latest",
        "gpt-5.2",
        "gpt-5.1-codex-mini",
        "gpt-5.1-codex",
        "gpt-5.1-chat-latest",
        "gpt-5.1",
        "gpt-5-pro",
        "gpt-5-codex",
        "gpt-5-chat-latest",
        "gpt-5-nano",
        "gpt-5-mini",
    ] {
        let idx = rows()
            .iter()
            .position(|(p, _)| *p == prefix)
            .unwrap_or_else(|| panic!("table must contain {prefix} prefix"));
        assert!(idx < idx_5, "{prefix} ({idx}) must precede gpt-5 ({idx_5})");
    }
}

#[test]
fn ordering_gemini_2_0_flash_resolves_specifically() {
    let idx_flash = rows()
        .iter()
        .position(|(p, _)| *p == "gemini-2.0-flash")
        .expect("table must contain gemini-2.0-flash");
    for (i, (prefix, _)) in rows().iter().enumerate() {
        if *prefix == "gemini-2" {
            assert!(
                i > idx_flash,
                "a bare `gemini-2` prefix at {i} would shadow `gemini-2.0-flash` at {idx_flash}"
            );
        }
    }
    let p = get_pricing("gemini-2.0-flash").expect("must resolve");
    assert!((p.input_per_million - 0.075).abs() < f64::EPSILON);
}

#[test]
fn ordering_no_entry_is_prefix_of_earlier() {
    let rows = rows();
    for (later_idx, (later_prefix, _)) in rows.iter().enumerate() {
        for (earlier_prefix, _) in &rows[..later_idx] {
            assert!(
                !later_prefix.starts_with(earlier_prefix.as_str()),
                "the table ordering violation: `{later_prefix}` (at {later_idx}) is \
                 shadowed by earlier entry `{earlier_prefix}` — move `{later_prefix}` \
                 before `{earlier_prefix}` or rename it"
            );
        }
    }
}

#[test]
fn unknown_model_returns_err() {
    let usage = TokenUsage {
        input_tokens: 1_000,
        output_tokens: 500,
        cache_read_tokens: 0,
        cache_write_tokens: 0,
    };
    let err = calculate_cost("totally-unknown-model-xyz", &usage).unwrap_err();
    assert_eq!(
        err,
        PricingError::UnknownModel("totally-unknown-model-xyz".to_string())
    );
    assert!(get_pricing("totally-unknown-model-xyz").is_none());
    assert!(get_pricing("").is_none());
}

#[test]
fn anthropic_1hr_cache_write_uses_two_x_multiplier() {
    let usage = TokenUsage {
        input_tokens: 0,
        output_tokens: 0,
        cache_read_tokens: 0,
        cache_write_tokens: 1_000_000,
    };
    let cost_five_min =
        calculate_cost_with_ttl("anthropic-sonnet-4-5", &usage, CacheWriteTtl::FiveMinutes)
            .expect("sonnet must resolve");
    let cost_one_hour =
        calculate_cost_with_ttl("anthropic-sonnet-4-5", &usage, CacheWriteTtl::OneHour)
            .expect("sonnet must resolve");
    assert!(
        (cost_five_min - 3.75).abs() < 1e-9,
        "5m cache write must be 1.25× input (got {cost_five_min}, expected $3.75)"
    );
    assert!(
        (cost_one_hour - 6.0).abs() < 1e-9,
        "1h cache write must be 2.0× input (got {cost_one_hour}, expected $6.00)"
    );
    assert!(
        cost_one_hour > cost_five_min,
        "1h cache write must cost more than 5m"
    );
}

#[test]
fn every_provider_model_name_resolves() {
    let provider_models: &[&str] = &[
        "anthropic-fable-5",
        "anthropic-mythos-5",
        "anthropic-mythos-preview",
        "anthropic-3-5-haiku-20241022",
        "anthropic-3-sonnet",
        "anthropic-code-20250219",
        "anthropic-opus-4",
        "anthropic-opus-4-5",
        "anthropic-opus-4-6",
        "anthropic-opus-4-7",
        "anthropic-opus-4-8",
        "gpt-4",
        "gpt-4o",
        "gpt-4o-mini",
        "gpt-5",
        "gpt-5-mini",
        "gpt-5-nano",
        "gpt-5-pro",
        "gpt-5.1-codex",
        "gpt-5.1-codex-max",
        "gpt-5.1-codex-mini",
        "gpt-5.2",
        "gpt-5.2-codex",
        "gpt-5.2-chat-latest",
        "gpt-5.2-pro",
        "gpt-5.3-codex",
        "gpt-5.3-chat-latest",
        "gpt-5.4",
        "gpt-5.4-mini",
        "gpt-5.4-nano",
        "gpt-5.4-pro",
        "gpt-5.5",
        "gpt-5.5-2026-04-23",
        "gpt-5.5-pro",
        "chat-latest",
        "codex-mini-latest",
        "gpt-3.5-turbo",
        "gpt-4.1-nano",
        "gpt-4.5-preview",
        "gpt-4-turbo",
        "gpt-4-turbo-preview",
        "gpt-4o-search-preview",
        "gpt-4o-mini-search-preview",
        "gpt-5.1-chat-latest",
        "gpt-5-codex",
        "gpt-5-chat-latest",
        "o1",
        "o1-mini",
        "o1-preview",
        "o1-pro",
        "o3",
        "o3-mini",
        "o3-pro",
        "o4",
        "o4-pro",
        "gemini-2.5-pro",
        "deepseek-r1",
        "deepseek-reasoner",
        "qwen-long",
        "qwq-32b",
    ];

    let mut missing = Vec::new();
    for name in provider_models {
        if get_pricing(name).is_none() {
            missing.push(*name);
        }
    }
    assert!(
        missing.is_empty(),
        "the table is missing entries for provider model(s): {missing:?}"
    );
}

#[test]
fn known_model_basic_lookup() {
    assert!(get_pricing("anthropic-3-opus-20240229").is_some());
    assert!(get_pricing("anthropic-3-sonnet-20240229").is_some());
    assert!(get_pricing("anthropic-3-haiku-20240307").is_some());
    assert!(get_pricing("gpt-4o").is_some());
    assert!(get_pricing("gpt-4o-mini").is_some());
    assert!(get_pricing("gemini-2.0-flash").is_some());
    assert!(get_pricing("deepseek-chat").is_some());
}

#[test]
fn basic_cost_haiku() {
    let usage = TokenUsage {
        input_tokens: 1_000_000,
        output_tokens: 100_000,
        cache_read_tokens: 0,
        cache_write_tokens: 0,
    };
    let cost = calculate_cost("anthropic-3-haiku-20240307", &usage).expect("haiku must resolve");
    assert!((cost - 0.375).abs() < 1e-9, "expected ~$0.375, got {cost}");
}

#[test]
fn exact_rates_returned() {
    let p = get_pricing("anthropic-3-haiku-20240307").expect("haiku must be known");
    assert!((p.input_per_million - 0.25).abs() < f64::EPSILON);
    assert!((p.output_per_million - 1.25).abs() < f64::EPSILON);

    let p = get_pricing("gpt-4o").expect("gpt-4o must be known");
    assert!((p.input_per_million - 2.5).abs() < f64::EPSILON);
    assert!((p.output_per_million - 10.0).abs() < f64::EPSILON);

    let p = get_pricing("anthropic-opus-4-20250514").expect("opus-4 must be known");
    assert!((p.input_per_million - 15.0).abs() < f64::EPSILON);
    assert!((p.output_per_million - 75.0).abs() < f64::EPSILON);

    let p = get_pricing("anthropic-opus-4-8").expect("opus-4-8 must be known");
    assert!((p.input_per_million - 5.0).abs() < f64::EPSILON);
    assert!((p.output_per_million - 25.0).abs() < f64::EPSILON);

    let p = get_pricing("anthropic-fable-5").expect("fable must be known");
    assert!((p.input_per_million - 10.0).abs() < f64::EPSILON);
    assert!((p.output_per_million - 50.0).abs() < f64::EPSILON);

    let p = get_pricing("gpt-5.5-pro").expect("gpt-5.5-pro must be known");
    assert!((p.input_per_million - 30.0).abs() < f64::EPSILON);
    assert!((p.output_per_million - 180.0).abs() < f64::EPSILON);

    let p = get_pricing("gpt-5.4-mini").expect("gpt-5.4-mini must be known");
    assert!((p.input_per_million - 0.75).abs() < f64::EPSILON);
    assert!((p.output_per_million - 4.50).abs() < f64::EPSILON);

    let p = get_pricing("gpt-5.3-chat-latest").expect("gpt-5.3-chat-latest must be known");
    assert!((p.input_per_million - 1.75).abs() < f64::EPSILON);
    assert!((p.output_per_million - 14.0).abs() < f64::EPSILON);

    let p = get_pricing("codex-mini-latest").expect("codex-mini-latest must be known");
    assert!((p.input_per_million - 1.50).abs() < f64::EPSILON);
    assert!((p.output_per_million - 6.0).abs() < f64::EPSILON);

    let p = get_pricing("o3").expect("o3 must be known");
    assert!((p.input_per_million - 2.0).abs() < f64::EPSILON);
    assert!((p.output_per_million - 8.0).abs() < f64::EPSILON);

    let p = get_pricing("o3-pro").expect("o3-pro must be known");
    assert!((p.input_per_million - 20.0).abs() < f64::EPSILON);
    assert!((p.output_per_million - 80.0).abs() < f64::EPSILON);

    let p = get_pricing("o1-pro").expect("o1-pro must be known");
    assert!((p.input_per_million - 150.0).abs() < f64::EPSILON);
    assert!((p.output_per_million - 600.0).abs() < f64::EPSILON);

    let p = get_pricing("o1-mini").expect("o1-mini must be known");
    assert!((p.input_per_million - 1.10).abs() < f64::EPSILON);
    assert!((p.output_per_million - 4.40).abs() < f64::EPSILON);
}

#[test]
fn lookup_is_case_insensitive() {
    assert!(get_pricing("GPT-4o").is_some());
    assert!(get_pricing("Anthropic-3-Haiku-20240307").is_some());
}

#[test]
fn cache_read_tokens_apply_point_one_ratio() {
    let usage = TokenUsage {
        input_tokens: 0,
        output_tokens: 0,
        cache_read_tokens: 1_000_000,
        cache_write_tokens: 0,
    };
    let cost = calculate_cost("anthropic-sonnet-4-5", &usage).expect("sonnet must resolve");
    let expected = 3.0 * 0.1; // $0.30
    assert!(
        (cost - expected).abs() < 1e-9,
        "cache-read must be 0.1× input; got {cost}, expected {expected}"
    );
}

#[test]
fn default_cache_write_tokens_apply_one_point_two_five_ratio() {
    let usage = TokenUsage {
        input_tokens: 0,
        output_tokens: 0,
        cache_read_tokens: 0,
        cache_write_tokens: 1_000_000,
    };
    let cost = calculate_cost("anthropic-sonnet-4-5", &usage).expect("sonnet must resolve");
    let expected = 3.0 * 1.25; // $3.75
    assert!(
        (cost - expected).abs() < 1e-9,
        "default cache-write (5m) must be 1.25× input; got {cost}, expected {expected}"
    );
}

#[test]
fn all_four_token_buckets_sum_correctly() {
    let usage = TokenUsage {
        input_tokens: 1_000_000,
        output_tokens: 1_000_000,
        cache_read_tokens: 1_000_000,
        cache_write_tokens: 1_000_000,
    };
    let cost = calculate_cost("anthropic-3-haiku-20240307", &usage).expect("haiku must resolve");
    let expected = 0.25f64.mul_add(1.25, 0.25f64.mul_add(0.1, 0.25 + 1.25));
    assert!(
        (cost - expected).abs() < 1e-9,
        "four-bucket sum wrong; got {cost}, expected {expected}"
    );
}

#[test]
fn zero_tokens_returns_zero_cost() {
    let usage = TokenUsage {
        input_tokens: 0,
        output_tokens: 0,
        cache_read_tokens: 0,
        cache_write_tokens: 0,
    };
    let cost = calculate_cost("anthropic-3-haiku-20240307", &usage).expect("haiku must resolve");
    assert!(cost.abs() < f64::EPSILON);
}

#[test]
fn claude_opus_4_prefix_covers_dated_and_rollforward() {
    for id in ["anthropic-opus-4", "anthropic-opus-4-20250514"] {
        let p = get_pricing(id).unwrap_or_else(|| panic!("{id} must resolve"));
        assert!((p.input_per_million - 15.0).abs() < f64::EPSILON, "{id}");
        assert!((p.output_per_million - 75.0).abs() < f64::EPSILON, "{id}");
    }
    for id in [
        "anthropic-opus-4-5",
        "anthropic-opus-4-6",
        "anthropic-opus-4-7",
        "anthropic-opus-4-8",
    ] {
        let p = get_pricing(id).unwrap_or_else(|| panic!("{id} must resolve"));
        assert!((p.input_per_million - 5.0).abs() < f64::EPSILON, "{id}");
        assert!((p.output_per_million - 25.0).abs() < f64::EPSILON, "{id}");
    }
}

#[test]
fn families_of_any_name_are_priced_alike() {
    for family in ["anthropic-", "a", "", "gpt-", "vendor/family-"] {
        let table = PriceTable::new(family.to_string());
        for (rest, input) in [
            ("opus-4-8", 5_000),
            ("opus-4-20250514", 15_000),
            ("3-haiku-20240307", 250),
            ("sonnet-4-5", 3_000),
            ("code-20250219", 3_000),
        ] {
            let rates = pricing::get_pricing(&table, &format!("{family}{rest}"));
            assert_eq!(rates.map(|p| p.input_per_million), Some(input));
        }
        assert!(pricing::get_pricing(&table, "gpt-4o").is_some());
        assert!(pricing::get_pricing(&table, "other-opus-4-8").is_none());
    }
}

#[test]
fn opus_3_and_opus_4_are_distinct_families() {
    let opus3 = get_pricing("anthropic-3-opus-20240229").expect("opus3 must resolve");
    let opus4 = get_pricing("anthropic-opus-4-20250514").expect("opus4 must resolve");
    let key3 = "anthropic-3-opus-20240229";
    let key4 = "anthropic-opus-4-20250514";
    let prefix3 = rows()
        .iter()
        .find(|(p, _)| key3.starts_with(p.as_str()))
        .map(|(p, _)| p.clone());
    let prefix4 = rows()
        .iter()
        .find(|(p, _)| key4.starts_with(p.as_str()))
        .map(|(p, _)| p.clone());
    assert_eq!(prefix3.as_deref(), Some("anthropic-3-opus"));
    assert_eq!(prefix4.as_deref(), Some("anthropic-opus-4-"));
    assert_ne!(
        prefix3, prefix4,
        "opus-3 and opus-4 must resolve through distinct the table rows"
    );
    assert!((opus3.input_per_million - opus4.input_per_million).abs() < f64::EPSILON);
}

#[test]
fn web_search_requests_billed_at_one_cent_each() {
    let cost = web_search_cost(100);
    assert!(
        (cost - 1.0).abs() < 1e-9,
        "100 web-search requests must cost $1.00 (got {cost})"
    );
    let usage = TokenUsage::default();
    let extras = UsageExtras {
        web_search_requests: 5,
    };
    let cost = calculate_cost_with_extras("anthropic-sonnet-4-5", &usage, &extras)
        .expect("sonnet must resolve");
    assert!(
        (cost - 0.05).abs() < 1e-9,
        "5 web-search requests at $0.01 each must total $0.05 (got {cost})"
    );

    let usage_with_tokens = TokenUsage {
        input_tokens: 1_000_000,
        output_tokens: 0,
        cache_read_tokens: 0,
        cache_write_tokens: 0,
    };
    let cost_no_search =
        calculate_cost("anthropic-sonnet-4-5", &usage_with_tokens).expect("sonnet must resolve");
    let cost_with_search =
        calculate_cost_with_extras("anthropic-sonnet-4-5", &usage_with_tokens, &extras)
            .expect("sonnet must resolve");
    assert!(
        (cost_with_search - cost_no_search - 0.05).abs() < 1e-9,
        "web-search charge must be additive on top of token cost \
         (cost_no_search={cost_no_search}, cost_with_search={cost_with_search})"
    );
}

#[test]
fn fast_mode_uses_thirty_one_fifty_for_opus_4_6_plus() {
    let usage = TokenUsage {
        input_tokens: 1_000_000,
        output_tokens: 1_000_000,
        cache_read_tokens: 0,
        cache_write_tokens: 0,
    };
    let standard = calculate_cost("anthropic-opus-4-6", &usage).expect("opus-4-6 must resolve");
    assert!(
        (standard - 30.0).abs() < 1e-9,
        "opus-4-6 standard tier: 1M input + 1M output = $30 (got {standard})"
    );
    let fast =
        calculate_cost_fast_mode("anthropic-opus-4-6", &usage).expect("opus-4-6 must resolve");
    assert!(
        (fast - 180.0).abs() < 1e-9,
        "opus-4-6 fast tier: 1M input + 1M output = $180 (got {fast})"
    );
    let fast47 =
        calculate_cost_fast_mode("anthropic-opus-4-7", &usage).expect("opus-4-7 must resolve");
    assert!(
        (fast47 - 180.0).abs() < 1e-9,
        "opus-4-7 fast tier: 1M input + 1M output = $180 (got {fast47})"
    );
    let fast48 =
        calculate_cost_fast_mode("anthropic-opus-4-8", &usage).expect("opus-4-8 must resolve");
    assert!(
        (fast48 - 60.0).abs() < 1e-9,
        "opus-4-8 fast tier: 1M input + 1M output = $60 (got {fast48})"
    );
}

#[test]
fn fast_mode_cache_tokens_use_fast_input_rate() {
    let usage = TokenUsage {
        input_tokens: 0,
        output_tokens: 0,
        cache_read_tokens: 1_000_000,
        cache_write_tokens: 1_000_000,
    };
    let extras = UsageExtras::default();

    let opus_48 = calculate_cost_full(
        "anthropic-opus-4-8",
        &usage,
        &extras,
        CacheWriteTtl::FiveMinutes,
        true,
    )
    .expect("opus-4-8 must resolve");
    assert!(
        (opus_48 - 13.50).abs() < 1e-9,
        "opus-4-8 fast cache cost must use fast input rate; got {opus_48}"
    );

    let opus_46 = calculate_cost_full(
        "anthropic-opus-4-6",
        &usage,
        &extras,
        CacheWriteTtl::FiveMinutes,
        true,
    )
    .expect("opus-4-6 must resolve");
    assert!(
        (opus_46 - 40.50).abs() < 1e-9,
        "opus-4-6 fast cache cost must use fast input rate; got {opus_46}"
    );
}

#[test]
fn fast_mode_falls_back_for_models_without_override() {
    let usage = TokenUsage {
        input_tokens: 1_000_000,
        output_tokens: 1_000_000,
        cache_read_tokens: 0,
        cache_write_tokens: 0,
    };
    let standard = calculate_cost("anthropic-opus-4-5", &usage).expect("opus-4-5 must resolve");
    let fast =
        calculate_cost_fast_mode("anthropic-opus-4-5", &usage).expect("opus-4-5 must resolve");
    assert!(
        (standard - fast).abs() < f64::EPSILON,
        "models without fast-mode override must produce identical cost in either entry point \
         (standard={standard}, fast={fast})"
    );
    let s2 = calculate_cost("gpt-4o", &usage).expect("gpt-4o must resolve");
    let f2 = calculate_cost_fast_mode("gpt-4o", &usage).expect("gpt-4o must resolve");
    assert!(
        (s2 - f2).abs() < f64::EPSILON,
        "gpt-4o has no fast tier — fast-mode call must equal standard call \
         (standard={s2}, fast={f2})"
    );
}

#[test]
fn fast_mode_rows_precede_generic_opus_4_prefix() {
    let idx_48 = rows()
        .iter()
        .position(|(p, _)| *p == "anthropic-opus-4-8")
        .expect("table must contain anthropic-opus-4-8");
    let idx_46 = rows()
        .iter()
        .position(|(p, _)| *p == "anthropic-opus-4-6")
        .expect("table must contain anthropic-opus-4-6");
    let idx_47 = rows()
        .iter()
        .position(|(p, _)| *p == "anthropic-opus-4-7")
        .expect("table must contain anthropic-opus-4-7");
    let idx_generic = rows()
        .iter()
        .position(|(p, _)| *p == "anthropic-opus-4-")
        .expect("table must contain anthropic-opus-4-");
    assert!(
        idx_48 < idx_generic,
        "anthropic-opus-4-8 ({idx_48}) must precede anthropic-opus-4- ({idx_generic})"
    );
    assert!(
        idx_46 < idx_generic,
        "anthropic-opus-4-6 ({idx_46}) must precede anthropic-opus-4- ({idx_generic}) — \
         otherwise the ordered table loses the fast-mode override"
    );
    assert!(
        idx_47 < idx_generic,
        "anthropic-opus-4-7 ({idx_47}) must precede anthropic-opus-4- ({idx_generic})"
    );
    let p46 = get_pricing("anthropic-opus-4-6").expect("must resolve");
    assert_eq!(p46.fast_mode_input_per_million, Some(30.0));
    assert_eq!(p46.fast_mode_output_per_million, Some(150.0));
    let p47 = get_pricing("anthropic-opus-4-7").expect("must resolve");
    assert_eq!(p47.fast_mode_input_per_million, Some(30.0));
    assert_eq!(p47.fast_mode_output_per_million, Some(150.0));
    let p48 = get_pricing("anthropic-opus-4-8").expect("must resolve");
    assert_eq!(p48.fast_mode_input_per_million, Some(10.0));
    assert_eq!(p48.fast_mode_output_per_million, Some(50.0));
}

#[test]
fn unknown_model_sets_thread_local_session_flag() {
    let table = table();
    let mut flag = UnknownModelFlag::default();
    pricing::clear_unknown_model_cost(&mut flag);
    assert!(
        !pricing::has_unknown_model_cost(&flag),
        "flag must start cleared after clear_unknown_model_cost()"
    );

    // A successful lookup must NOT set the flag.
    let usage = TokenUsage {
        input_tokens: 1_000,
        output_tokens: 100,
        cache_read_tokens: 0,
        cache_write_tokens: 0,
    };
    pricing::calculate_cost(&table, &mut flag, "anthropic-3-haiku-20240307", &usage)
        .expect("haiku must resolve");
    assert!(
        !pricing::has_unknown_model_cost(&flag),
        "successful pricing lookup must not set the unknown-model flag"
    );

    // A failing lookup must set the flag and surface an Err.
    let err = pricing::calculate_cost(&table, &mut flag, "totally-unknown-model-zzz", &usage)
        .unwrap_err();
    assert_eq!(
        err,
        PricingError::UnknownModel("totally-unknown-model-zzz".to_string())
    );
    assert_eq!(
        err.message(),
        "no pricing entry matches model `totally-unknown-model-zzz`"
    );
    assert!(
        pricing::has_unknown_model_cost(&flag),
        "unknown-model lookup must set the session flag"
    );
    // It stays set when a later lookup succeeds.
    pricing::calculate_cost(&table, &mut flag, "gpt-4o", &usage).expect("gpt-4o must resolve");
    assert!(pricing::has_unknown_model_cost(&flag));

    pricing::clear_unknown_model_cost(&mut flag);
    assert!(
        !pricing::has_unknown_model_cost(&flag),
        "clear_unknown_model_cost() must reset the flag"
    );

    // The lookup primitive get_pricing does not touch the flag.
    assert!(pricing::get_pricing(&table, "totally-unknown-model-zzz").is_none());
    assert!(
        !pricing::has_unknown_model_cost(&flag),
        "get_pricing miss must not set the unknown-model flag"
    );
}

#[test]
fn calculate_cost_full_composes_fast_mode_and_extras() {
    let usage = TokenUsage {
        input_tokens: 1_000_000,
        output_tokens: 0,
        cache_read_tokens: 0,
        cache_write_tokens: 0,
    };
    let extras = UsageExtras {
        web_search_requests: 10,
    };
    let cost = calculate_cost_full(
        "anthropic-opus-4-6",
        &usage,
        &extras,
        CacheWriteTtl::FiveMinutes,
        /*fast=*/ true,
    )
    .expect("opus-4-6 must resolve");
    assert!(
        (cost - 30.10).abs() < 1e-9,
        "fast-mode + 10 web-search reqs must total $30.10 (got {cost})"
    );
}

#[test]
fn usage_extras_accumulate_sums_web_search_requests() {
    let mut acc = UsageExtras::default();
    acc.accumulate(&UsageExtras {
        web_search_requests: 3,
    });
    acc.accumulate(&UsageExtras {
        web_search_requests: 7,
    });
    assert_eq!(acc.web_search_requests, 10);
}

#[test]
fn tables_are_in_order() {
    for family in ["anthropic-", "a", "", "gpt-", "o1"] {
        let table = PriceTable::new(family.to_string());
        let rows = table.entries();
        assert_eq!(rows.len(), 78);
        for (i, (later, rates)) in rows.iter().enumerate() {
            assert!(rows[..i].iter().all(|(p, _)| !later.starts_with(p.as_str())));
            let found = pricing::get_pricing(&table, later).expect("every row is found");
            assert_eq!(found.input_per_million, rates.input_per_million);
        }
    }
}

#[test]
fn the_longest_matching_row_wins() {
    let key = "gpt-5.1-codex-mini-2026";
    let first = rows()
        .into_iter()
        .find(|(p, _)| key.starts_with(p.as_str()))
        .expect("a row matches");
    let longest = rows()
        .into_iter()
        .filter(|(p, _)| key.starts_with(p.as_str()))
        .max_by_key(|(p, _)| p.len())
        .expect("a row matches");
    assert_eq!(first.0, longest.0);
    assert_eq!(first.0, "gpt-5.1-codex-mini");
}

#[test]
fn costs_are_exact() {
    let mut flag = UnknownModelFlag::default();
    let usage = TokenUsage {
        input_tokens: 1,
        output_tokens: 1,
        cache_read_tokens: 1,
        cache_write_tokens: 1,
    };
    // 0.25 + 1.25 + 0.025 + 0.3125 dollars per million.
    let cost = pricing::calculate_cost(&table(), &mut flag, "anthropic-3-haiku", &usage);
    assert_eq!(cost, Ok(250 * 100 + 1_250 * 100 + 250 * 10 + 250 * 125));
    // Counts past 32 bits are billed as the largest that fits.
    let huge = TokenUsage {
        input_tokens: u64::MAX,
        output_tokens: 0,
        cache_read_tokens: 0,
        cache_write_tokens: 0,
    };
    let cost = pricing::calculate_cost(&table(), &mut flag, "gpt-4o", &huge);
    assert_eq!(cost, Ok(u32::MAX as u128 * 2_500 * 100));
}
