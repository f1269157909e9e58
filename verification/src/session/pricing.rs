//! Model pricing and cost calculation.
//!
//! Rates are looked up by ordered prefix match: the first row of the table whose prefix
//! begins the lower-cased model id wins. More specific prefixes therefore stand before
//! the shorter ones that would shadow them. The ids of the Anthropic family begin with a
//! name that the caller gives.
//!
//! Money is counted exactly. Rates are in thousandths of a dollar per million tokens,
//! multipliers in hundredths, and costs in units of 10^-11 dollars, the product of the
//! two with a count of tokens.

use vstd::prelude::*;

use super::state::{TokenUsage, UsageExtras};
use crate::seqs;
use crate::text;

verus! {

/// Units of cost in a dollar.
pub const COST_UNITS_PER_USD: u64 = 100_000_000_000;

/// Flat charge for one web search: one cent.
pub const WEB_SEARCH_REQUEST_COST: u64 = 1_000_000_000;

/// Why a cost cannot be told.
#[derive(Clone, Debug, PartialEq, Eq)]
pub enum PricingError {
    /// No row of the table matches the model id, which is given as it was written.
    UnknownModel(String),
}

impl PricingError {
    /// The message for the error.
    pub fn message(&self) -> (out: String)
        ensures
            out@ == "no pricing entry matches model `"@ + self->UnknownModel_0@ + "`"@,
    {
        match self {
            PricingError::UnknownModel(model) => "no pricing entry matches model `".to_owned().concat(
                model.as_str(),
            ).concat("`"),
        }
    }
}

/// How long a prompt-cache entry lives, which sets the price of writing it.
#[derive(Clone, Copy, Debug, PartialEq, Eq, Structural)]
pub enum CacheWriteTtl {
    /// Default ephemeral cache.
    FiveMinutes,
    /// Long-lived cache.
    OneHour,
}

impl Default for CacheWriteTtl {
    fn default() -> (ttl: CacheWriteTtl)
        ensures
            ttl == CacheWriteTtl::FiveMinutes,
    {
        CacheWriteTtl::FiveMinutes
    }
}

/// Pricing data for a model. Rates are thousandths of a dollar per million tokens,
/// multipliers hundredths; cache multipliers apply to the input rate in force.
#[derive(Clone, Copy, Debug, PartialEq, Eq, Structural)]
pub struct ModelPricing {
    /// Rate for input tokens.
    pub input_per_million: u64,
    /// Rate for output tokens.
    pub output_per_million: u64,
    /// Multiplier for prompt-cache reads.
    pub cache_read_multiplier: u64,
    /// Multiplier for prompt-cache writes that live five minutes.
    pub cache_write_5m_multiplier: u64,
    /// Multiplier for prompt-cache writes that live an hour.
    pub cache_write_1hr_multiplier: u64,
    /// Rate for input tokens in fast mode, where the model has one.
    pub fast_mode_input_per_million: Option<u64>,
    /// Rate for output tokens in fast mode, where the model has one.
    pub fast_mode_output_per_million: Option<u64>,
}

/// Cache reads at a tenth, writes at 1.25 or, for an hour, 2 times the input rate.
pub open spec fn anthropic_rates(input: u64, output: u64) -> ModelPricing {
    ModelPricing {
        input_per_million: input,
        output_per_million: output,
        cache_read_multiplier: 10,
        cache_write_5m_multiplier: 125,
        cache_write_1hr_multiplier: 200,
        fast_mode_input_per_million: None,
        fast_mode_output_per_million: None,
    }
}

/// The same, with rates of its own in fast mode.
pub open spec fn anthropic_fast_rates(
    input: u64,
    output: u64,
    fast_input: u64,
    fast_output: u64,
) -> ModelPricing {
    ModelPricing {
        fast_mode_input_per_million: Some(fast_input),
        fast_mode_output_per_million: Some(fast_output),
        ..anthropic_rates(input, output)
    }
}

/// The same without a price of its own for an hour in the cache.
pub open spec fn other_rates(input: u64, output: u64) -> ModelPricing {
    ModelPricing { cache_write_1hr_multiplier: 125, ..anthropic_rates(input, output) }
}

/// The rate for input tokens in force.
pub open spec fn input_rate(p: ModelPricing, fast: bool) -> u64 {
    match p.fast_mode_input_per_million {
        Some(rate) if fast => rate,
        _ => p.input_per_million,
    }
}

/// The rate for output tokens in force.
pub open spec fn output_rate(p: ModelPricing, fast: bool) -> u64 {
    match p.fast_mode_output_per_million {
        Some(rate) if fast => rate,
        _ => p.output_per_million,
    }
}

/// The multiplier for cache writes of the given life.
pub open spec fn write_multiplier(p: ModelPricing, ttl: CacheWriteTtl) -> u64 {
    match ttl {
        CacheWriteTtl::FiveMinutes => p.cache_write_5m_multiplier,
        CacheWriteTtl::OneHour => p.cache_write_1hr_multiplier,
    }
}

impl ModelPricing {
    fn anthropic(input_per_million: u64, output_per_million: u64) -> (p: ModelPricing)
        ensures
            p == anthropic_rates(input_per_million, output_per_million),
    {
        ModelPricing {
            input_per_million,
            output_per_million,
            cache_read_multiplier: 10,
            cache_write_5m_multiplier: 125,
            cache_write_1hr_multiplier: 200,
            fast_mode_input_per_million: None,
            fast_mode_output_per_million: None,
        }
    }

    fn anthropic_with_fast_mode(
        input_per_million: u64,
        output_per_million: u64,
        fast_input: u64,
        fast_output: u64,
    ) -> (p: ModelPricing)
        ensures
            p == anthropic_fast_rates(
                input_per_million,
                output_per_million,
                fast_input,
                fast_output,
            ),
    {
        ModelPricing {
            input_per_million,
            output_per_million,
            cache_read_multiplier: 10,
            cache_write_5m_multiplier: 125,
            cache_write_1hr_multiplier: 200,
            fast_mode_input_per_million: Some(fast_input),
            fast_mode_output_per_million: Some(fast_output),
        }
    }

    fn other(input_per_million: u64, output_per_million: u64) -> (p: ModelPricing)
        ensures
            p == other_rates(input_per_million, output_per_million),
    {
        ModelPricing {
            input_per_million,
            output_per_million,
            cache_read_multiplier: 10,
            cache_write_5m_multiplier: 125,
            cache_write_1hr_multiplier: 125,
            fast_mode_input_per_million: None,
            fast_mode_output_per_million: None,
        }
    }

    /// Select the cache-write multiplier for the requested life, in hundredths.
    pub fn cache_write_multiplier(&self, ttl: CacheWriteTtl) -> (m: u64)
        ensures
            m == write_multiplier(*self, ttl),
    {
        match ttl {
            CacheWriteTtl::FiveMinutes => self.cache_write_5m_multiplier,
            CacheWriteTtl::OneHour => self.cache_write_1hr_multiplier,
        }
    }

    /// The input rate in force: that of fast mode where it is asked for and the model
    /// has one.
    pub fn effective_input_per_million(&self, fast: bool) -> (rate: u64)
        ensures
            rate == input_rate(*self, fast),
    {
        if fast {
            if let Some(rate) = self.fast_mode_input_per_million {
                return rate;
            }
        }
        self.input_per_million
    }

    /// The output rate in force: that of fast mode where it is asked for and the model
    /// has one.
    pub fn effective_output_per_million(&self, fast: bool) -> (rate: u64)
        ensures
            rate == output_rate(*self, fast),
    {
        if fast {
            if let Some(rate) = self.fast_mode_output_per_million {
                return rate;
            }
        }
        self.output_per_million
    }
}

/// Rows for the models of the Anthropic family, by what follows the family's name in
/// their ids, in order of precedence.
pub open spec fn family_rows() -> Seq<(Seq<char>, ModelPricing)> {
    seq![
        ("fable-5"@, anthropic_rates(10_000, 50_000)),
        ("mythos-5"@, anthropic_rates(10_000, 50_000)),
        ("mythos-preview"@, anthropic_rates(10_000, 50_000)),
        ("3-5-haiku"@, anthropic_rates(800, 4_000)),
        ("3-5-sonnet"@, anthropic_rates(3_000, 15_000)),
        ("3-7-sonnet"@, anthropic_rates(3_000, 15_000)),
        ("3-haiku"@, anthropic_rates(250, 1_250)),
        ("3-opus"@, anthropic_rates(15_000, 75_000)),
        ("3-sonnet"@, anthropic_rates(3_000, 15_000)),
        ("haiku-4"@, anthropic_rates(1_000, 5_000)),
        ("opus-4-8"@, anthropic_fast_rates(5_000, 25_000, 10_000, 50_000)),
        ("opus-4-6"@, anthropic_fast_rates(5_000, 25_000, 30_000, 150_000)),
        ("opus-4-7"@, anthropic_fast_rates(5_000, 25_000, 30_000, 150_000)),
        ("opus-4-5"@, anthropic_rates(5_000, 25_000)),
        ("opus-4-1"@, anthropic_rates(15_000, 75_000)),
        ("opus-4-"@, anthropic_rates(15_000, 75_000)),
        ("opus-4"@, anthropic_rates(15_000, 75_000)),
        ("sonnet-4-"@, anthropic_rates(3_000, 15_000)),
        ("sonnet-4"@, anthropic_rates(3_000, 15_000)),
        ("code-"@, anthropic_rates(3_000, 15_000)),
    ]
}

/// Rows for the models of the other providers, in order of precedence.
pub open spec fn provider_rows() -> Seq<(Seq<char>, ModelPricing)> {
    seq![
        ("gpt-4o-mini-search-preview"@, other_rates(150, 600)),
        ("gpt-4o-mini"@, other_rates(150, 600)),
        ("gpt-4o-search-preview"@, other_rates(2_500, 10_000)),
        ("gpt-4o"@, other_rates(2_500, 10_000)),
        ("gpt-4.5-preview"@, other_rates(75_000, 150_000)),
        ("gpt-4.1-nano"@, other_rates(100, 400)),
        ("gpt-4.1-mini"@, other_rates(400, 1_600)),
        ("gpt-4.1"@, other_rates(2_000, 8_000)),
        ("gpt-4-turbo"@, other_rates(10_000, 30_000)),
        ("gpt-4"@, other_rates(30_000, 60_000)),
        ("gpt-3.5-turbo"@, other_rates(500, 1_500)),
        ("chat-latest"@, other_rates(5_000, 30_000)),
        ("gpt-5.5-pro"@, other_rates(30_000, 180_000)),
        ("gpt-5.5"@, other_rates(5_000, 30_000)),
        ("gpt-5.4-pro"@, other_rates(30_000, 180_000)),
        ("gpt-5.4-mini"@, other_rates(750, 4_500)),
        ("gpt-5.4-nano"@, other_rates(200, 1_250)),
        ("gpt-5.4"@, other_rates(2_500, 15_000)),
        ("gpt-5.3-codex"@, other_rates(1_750, 14_000)),
        ("gpt-5.3-chat-latest"@, other_rates(1_750, 14_000)),
        ("gpt-5.2-pro"@, other_rates(21_000, 168_000)),
        ("gpt-5.2-codex"@, other_rates(1_750, 14_000)),
        ("gpt-5.2-chat-latest"@, other_rates(1_750, 14_000)),
        ("gpt-5.2"@, other_rates(1_750, 14_000)),
        ("gpt-5.1-codex-mini"@, other_rates(250, 2_000)),
        ("gpt-5.1-codex"@, other_rates(1_250, 10_000)),
        ("gpt-5.1-chat-latest"@, other_rates(1_250, 10_000)),
        ("gpt-5.1"@, other_rates(1_250, 10_000)),
        ("gpt-5-pro"@, other_rates(15_000, 120_000)),
        ("gpt-5-codex"@, other_rates(1_250, 10_000)),
        ("gpt-5-chat-latest"@, other_rates(1_250, 10_000)),
        ("gpt-5-nano"@, other_rates(50, 400)),
        ("gpt-5-mini"@, other_rates(250, 2_000)),
        ("gpt-5"@, other_rates(1_250, 10_000)),
        ("codex-mini-latest"@, other_rates(1_500, 6_000)),
        ("o1-pro"@, other_rates(150_000, 600_000)),
        ("o1-mini"@, other_rates(1_100, 4_400)),
        ("o1-preview"@, other_rates(15_000, 60_000)),
        ("o1"@, other_rates(15_000, 60_000)),
        ("o3-pro"@, other_rates(20_000, 80_000)),
        ("o3-mini"@, other_rates(1_100, 4_400)),
        ("o3"@, other_rates(2_000, 8_000)),
        ("o4-mini"@, other_rates(1_100, 4_400)),
        ("o4-pro"@, other_rates(10_000, 40_000)),
        ("o4"@, other_rates(10_000, 40_000)),
        ("gemini-1.5-flash"@, other_rates(75, 300)),
        ("gemini-1.5-pro"@, other_rates(1_250, 5_000)),
        ("gemini-2.0-flash"@, other_rates(75, 300)),
        ("gemini-2.5-flash"@, other_rates(75, 300)),
        ("gemini-2.5-pro"@, other_rates(1_250, 10_000)),
        ("deepseek-chat"@, other_rates(270, 1_100)),
        ("deepseek-reasoner"@, other_rates(550, 2_190)),
        ("deepseek-r1"@, other_rates(550, 2_190)),
        ("qwen-max"@, other_rates(500, 2_000)),
        ("qwen-plus"@, other_rates(400, 1_200)),
        ("qwen-turbo"@, other_rates(300, 600)),
        ("qwen-long"@, other_rates(500, 2_000)),
        ("qwq-32b"@, other_rates(500, 2_000)),
    ]
}

/// The pricing table: prefixes of model ids and their rates, in order of precedence,
/// where the ids of the Anthropic family begin with `family`.
pub open spec fn price_rows(family: Seq<char>) -> Seq<(Seq<char>, ModelPricing)> {
    Seq::new(
        family_rows().len(),
        |i: int| (family + family_rows()[i].0, family_rows()[i].1),
    ) + provider_rows()
}

/// What listed rows say.
pub open spec fn rows_view(rows: Seq<(&'static str, ModelPricing)>) -> Seq<
    (Seq<char>, ModelPricing),
> {
    Seq::new(rows.len(), |i: int| (rows[i].0@, rows[i].1))
}

/// What the rows of a table say.
pub open spec fn entries_view(rows: Seq<(String, ModelPricing)>) -> Seq<
    (Seq<char>, ModelPricing),
> {
    Seq::new(rows.len(), |i: int| (rows[i].0@, rows[i].1))
}

fn family_list() -> (rows: Vec<(&'static str, ModelPricing)>)
    ensures
        rows_view(rows@) == family_rows(),
{
    let rows: Vec<(&'static str, ModelPricing)> = vec![
        ("fable-5", ModelPricing::anthropic(10_000, 50_000)),
        ("mythos-5", ModelPricing::anthropic(10_000, 50_000)),
        ("mythos-preview", ModelPricing::anthropic(10_000, 50_000)),
        ("3-5-haiku", ModelPricing::anthropic(800, 4_000)),
        ("3-5-sonnet", ModelPricing::anthropic(3_000, 15_000)),
        ("3-7-sonnet", ModelPricing::anthropic(3_000, 15_000)),
        ("3-haiku", ModelPricing::anthropic(250, 1_250)),
        ("3-opus", ModelPricing::anthropic(15_000, 75_000)),
        ("3-sonnet", ModelPricing::anthropic(3_000, 15_000)),
        ("haiku-4", ModelPricing::anthropic(1_000, 5_000)),
        ("opus-4-8", ModelPricing::anthropic_with_fast_mode(5_000, 25_000, 10_000, 50_000)),
        ("opus-4-6", ModelPricing::anthropic_with_fast_mode(5_000, 25_000, 30_000, 150_000)),
        ("opus-4-7", ModelPricing::anthropic_with_fast_mode(5_000, 25_000, 30_000, 150_000)),
        ("opus-4-5", ModelPricing::anthropic(5_000, 25_000)),
        ("opus-4-1", ModelPricing::anthropic(15_000, 75_000)),
        ("opus-4-", ModelPricing::anthropic(15_000, 75_000)),
        ("opus-4", ModelPricing::anthropic(15_000, 75_000)),
        ("sonnet-4-", ModelPricing::anthropic(3_000, 15_000)),
        ("sonnet-4", ModelPricing::anthropic(3_000, 15_000)),
        ("code-", ModelPricing::anthropic(3_000, 15_000)),
    ];
    assert(rows_view(rows@) =~= family_rows());
    rows
}

fn provider_list() -> (rows: Vec<(&'static str, ModelPricing)>)
    ensures
        rows_view(rows@) == provider_rows(),
{
    let rows: Vec<(&'static str, ModelPricing)> = vec![
        ("gpt-4o-mini-search-preview", ModelPricing::other(150, 600)),
        ("gpt-4o-mini", ModelPricing::other(150, 600)),
        ("gpt-4o-search-preview", ModelPricing::other(2_500, 10_000)),
        ("gpt-4o", ModelPricing::other(2_500, 10_000)),
        ("gpt-4.5-preview", ModelPricing::other(75_000, 150_000)),
        ("gpt-4.1-nano", ModelPricing::other(100, 400)),
        ("gpt-4.1-mini", ModelPricing::other(400, 1_600)),
        ("gpt-4.1", ModelPricing::other(2_000, 8_000)),
        ("gpt-4-turbo", ModelPricing::other(10_000, 30_000)),
        ("gpt-4", ModelPricing::other(30_000, 60_000)),
        ("gpt-3.5-turbo", ModelPricing::other(500, 1_500)),
        ("chat-latest", ModelPricing::other(5_000, 30_000)),
        ("gpt-5.5-pro", ModelPricing::other(30_000, 180_000)),
        ("gpt-5.5", ModelPricing::other(5_000, 30_000)),
        ("gpt-5.4-pro", ModelPricing::other(30_000, 180_000)),
        ("gpt-5.4-mini", ModelPricing::other(750, 4_500)),
        ("gpt-5.4-nano", ModelPricing::other(200, 1_250)),
        ("gpt-5.4", ModelPricing::other(2_500, 15_000)),
        ("gpt-5.3-codex", ModelPricing::other(1_750, 14_000)),
        ("gpt-5.3-chat-latest", ModelPricing::other(1_750, 14_000)),
        ("gpt-5.2-pro", ModelPricing::other(21_000, 168_000)),
        ("gpt-5.2-codex", ModelPricing::other(1_750, 14_000)),
        ("gpt-5.2-chat-latest", ModelPricing::other(1_750, 14_000)),
        ("gpt-5.2", ModelPricing::other(1_750, 14_000)),
        ("gpt-5.1-codex-mini", ModelPricing::other(250, 2_000)),
        ("gpt-5.1-codex", ModelPricing::other(1_250, 10_000)),
        ("gpt-5.1-chat-latest", ModelPricing::other(1_250, 10_000)),
        ("gpt-5.1", ModelPricing::other(1_250, 10_000)),
        ("gpt-5-pro", ModelPricing::other(15_000, 120_000)),
        ("gpt-5-codex", ModelPricing::other(1_250, 10_000)),
        ("gpt-5-chat-latest", ModelPricing::other(1_250, 10_000)),
        ("gpt-5-nano", ModelPricing::other(50, 400)),
        ("gpt-5-mini", ModelPricing::other(250, 2_000)),
        ("gpt-5", ModelPricing::other(1_250, 10_000)),
        ("codex-mini-latest", ModelPricing::other(1_500, 6_000)),
        ("o1-pro", ModelPricing::other(150_000, 600_000)),
        ("o1-mini", ModelPricing::other(1_100, 4_400)),
        ("o1-preview", ModelPricing::other(15_000, 60_000)),
        ("o1", ModelPricing::other(15_000, 60_000)),
        ("o3-pro", ModelPricing::other(20_000, 80_000)),
        ("o3-mini", ModelPricing::other(1_100, 4_400)),
        ("o3", ModelPricing::other(2_000, 8_000)),
        ("o4-mini", ModelPricing::other(1_100, 4_400)),
        ("o4-pro", ModelPricing::other(10_000, 40_000)),
        ("o4", ModelPricing::other(10_000, 40_000)),
        ("gemini-1.5-flash", ModelPricing::other(75, 300)),
        ("gemini-1.5-pro", ModelPricing::other(1_250, 5_000)),
        ("gemini-2.0-flash", ModelPricing::other(75, 300)),
        ("gemini-2.5-flash", ModelPricing::other(75, 300)),
        ("gemini-2.5-pro", ModelPricing::other(1_250, 10_000)),
        ("deepseek-chat", ModelPricing::other(270, 1_100)),
        ("deepseek-reasoner", ModelPricing::other(550, 2_190)),
        ("deepseek-r1", ModelPricing::other(550, 2_190)),
        ("qwen-max", ModelPricing::other(500, 2_000)),
        ("qwen-plus", ModelPricing::other(400, 1_200)),
        ("qwen-turbo", ModelPricing::other(300, 600)),
        ("qwen-long", ModelPricing::other(500, 2_000)),
        ("qwq-32b", ModelPricing::other(500, 2_000)),
    ];
    assert(rows_view(rows@) =~= provider_rows());
    rows
}

/// The rows whose prefix begins `key`.
pub open spec fn matching(key: Seq<char>) -> spec_fn((Seq<char>, ModelPricing)) -> bool {
    |row: (Seq<char>, ModelPricing)| row.0.is_prefix_of(key)
}

/// The rates of the first row of `rows` that matches `key`.
pub open spec fn rates_in(
    rows: Seq<(Seq<char>, ModelPricing)>,
    key: Seq<char>,
) -> Option<ModelPricing> {
    match seqs::first_where(rows, matching(key)) {
        Some(i) => Some(rows[i].1),
        None => None,
    }
}

/// The rates of a model whose id is `key` in lower case.
pub open spec fn rates_of(family: Seq<char>, key: Seq<char>) -> Option<ModelPricing> {
    rates_in(price_rows(family), key)
}

/// No row begins a later one.
pub open spec fn in_order(rows: Seq<(Seq<char>, ModelPricing)>) -> bool {
    forall|i: int, j: int|
        0 <= i < j < rows.len() ==> !(#[trigger] rows[i]).0.is_prefix_of((#[trigger] rows[j]).0)
}

#[verifier::spinoff_prover]
#[verifier::rlimit(50)]
proof fn lemma_family_rows_differ(i: int, j: int)
    requires
        0 <= i < j < family_rows().len(),
    ensures
        !family_rows()[i].0.is_prefix_of(family_rows()[j].0),
{
    let a = family_rows()[i].0;
    let b = family_rows()[j].0;
    if a.is_prefix_of(b) {
        text::lemma_prefix_agrees(a, b, 14);
    }
    reveal_with_fuel(text::agree, 15);
    reveal_strlit("fable-5");
    reveal_strlit("mythos-5");
    reveal_strlit("mythos-preview");
    reveal_strlit("3-5-haiku");
    reveal_strlit("3-5-sonnet");
    reveal_strlit("3-7-sonnet");
    reveal_strlit("3-haiku");
    reveal_strlit("3-opus");
    reveal_strlit("3-sonnet");
    reveal_strlit("haiku-4");
    reveal_strlit("opus-4-8");
    reveal_strlit("opus-4-6");
    reveal_strlit("opus-4-7");
    reveal_strlit("opus-4-5");
    reveal_strlit("opus-4-1");
    reveal_strlit("opus-4-");
    reveal_strlit("opus-4");
    reveal_strlit("sonnet-4-");
    reveal_strlit("sonnet-4");
    reveal_strlit("code-");
}

#[verifier::spinoff_prover]
#[verifier::rlimit(100)]
proof fn lemma_provider_rows_differ(i: int, j: int)
    requires
        0 <= i < j < provider_rows().len(),
    ensures
        !provider_rows()[i].0.is_prefix_of(provider_rows()[j].0),
{
    let a = provider_rows()[i].0;
    let b = provider_rows()[j].0;
    if a.is_prefix_of(b) {
        text::lemma_prefix_agrees(a, b, 20);
    }
    reveal_with_fuel(text::agree, 21);
    reveal_strlit("gpt-4o-mini-search-preview");
    reveal_strlit("gpt-4o-mini");
    reveal_strlit("gpt-4o-search-preview");
    reveal_strlit("gpt-4o");
    reveal_strlit("gpt-4.5-preview");
    reveal_strlit("gpt-4.1-nano");
    reveal_strlit("gpt-4.1-mini");
    reveal_strlit("gpt-4.1");
    reveal_strlit("gpt-4-turbo");
    reveal_strlit("gpt-4");
    reveal_strlit("gpt-3.5-turbo");
    reveal_strlit("chat-latest");
    reveal_strlit("gpt-5.5-pro");
    reveal_strlit("gpt-5.5");
    reveal_strlit("gpt-5.4-pro");
    reveal_strlit("gpt-5.4-mini");
    reveal_strlit("gpt-5.4-nano");
    reveal_strlit("gpt-5.4");
    reveal_strlit("gpt-5.3-codex");
    reveal_strlit("gpt-5.3-chat-latest");
    reveal_strlit("gpt-5.2-pro");
    reveal_strlit("gpt-5.2-codex");
    reveal_strlit("gpt-5.2-chat-latest");
    reveal_strlit("gpt-5.2");
    reveal_strlit("gpt-5.1-codex-mini");
    reveal_strlit("gpt-5.1-codex");
    reveal_strlit("gpt-5.1-chat-latest");
    reveal_strlit("gpt-5.1");
    reveal_strlit("gpt-5-pro");
    reveal_strlit("gpt-5-codex");
    reveal_strlit("gpt-5-chat-latest");
    reveal_strlit("gpt-5-nano");
    reveal_strlit("gpt-5-mini");
    reveal_strlit("gpt-5");
    reveal_strlit("codex-mini-latest");
    reveal_strlit("o1-pro");
    reveal_strlit("o1-mini");
    reveal_strlit("o1-preview");
    reveal_strlit("o1");
    reveal_strlit("o3-pro");
    reveal_strlit("o3-mini");
    reveal_strlit("o3");
    reveal_strlit("o4-mini");
    reveal_strlit("o4-pro");
    reveal_strlit("o4");
    reveal_strlit("gemini-1.5-flash");
    reveal_strlit("gemini-1.5-pro");
    reveal_strlit("gemini-2.0-flash");
    reveal_strlit("gemini-2.5-flash");
    reveal_strlit("gemini-2.5-pro");
    reveal_strlit("deepseek-chat");
    reveal_strlit("deepseek-reasoner");
    reveal_strlit("deepseek-r1");
    reveal_strlit("qwen-max");
    reveal_strlit("qwen-plus");
    reveal_strlit("qwen-turbo");
    reveal_strlit("qwen-long");
    reveal_strlit("qwq-32b");
}

/// The two characters follow one another in some row of the Anthropic family and in no row
/// of another provider.
spec fn telling(c: char, d: char) -> bool {
    ||| c == 'f' && d == 'a'
    ||| c == 'm' && d == 'y'
    ||| c == 'a' && d == 'i'
    ||| c == 'n' && d == 'n'
    ||| c == 'o' && d == 'p'
    ||| c == 'e' && d == '-'
}

/// No telling pair starts among the first `n` characters.
spec fn tells_nothing(s: Seq<char>, n: int) -> bool
    decreases n,
{
    n <= 0 || (tells_nothing(s, n - 1) && (n < s.len() ==> !telling(s[n - 1], s[n])))
}

proof fn lemma_tells_nothing(s: Seq<char>, n: int, k: int)
    requires
        tells_nothing(s, n),
        0 <= k < n,
        k + 1 < s.len(),
    ensures
        !telling(s[k], s[k + 1]),
    decreases n,
{
    if k < n - 1 {
        lemma_tells_nothing(s, n - 1, k);
    }
}

/// The place of a telling pair in a row of the Anthropic family.
spec fn telling_at(s: Seq<char>, k: int) -> bool {
    0 <= k < s.len() - 1 && telling(s[k], s[k + 1])
}

#[verifier::spinoff_prover]
#[verifier::rlimit(50)]
proof fn lemma_family_rows_tell(i: int)
    requires
        0 <= i < family_rows().len(),
    ensures
        exists|k: int| telling_at(family_rows()[i].0, k),
{
    let s = family_rows()[i].0;
    reveal_strlit("fable-5");
    reveal_strlit("mythos-5");
    reveal_strlit("mythos-preview");
    reveal_strlit("3-5-haiku");
    reveal_strlit("3-5-sonnet");
    reveal_strlit("3-7-sonnet");
    reveal_strlit("3-haiku");
    reveal_strlit("3-opus");
    reveal_strlit("3-sonnet");
    reveal_strlit("haiku-4");
    reveal_strlit("opus-4-8");
    reveal_strlit("opus-4-6");
    reveal_strlit("opus-4-7");
    reveal_strlit("opus-4-5");
    reveal_strlit("opus-4-1");
    reveal_strlit("opus-4-");
    reveal_strlit("opus-4");
    reveal_strlit("sonnet-4-");
    reveal_strlit("sonnet-4");
    reveal_strlit("code-");
    assert(telling_at(s, 0) || telling_at(s, 1) || telling_at(s, 2) || telling_at(s, 3)
        || telling_at(s, 4) || telling_at(s, 5) || telling_at(s, 6));
}

#[verifier::spinoff_prover]
#[verifier::rlimit(100)]
proof fn lemma_provider_rows_tell_nothing(j: int)
    requires
        0 <= j < provider_rows().len(),
    ensures
        tells_nothing(provider_rows()[j].0, 26),
        provider_rows()[j].0.len() <= 26,
{
    reveal_with_fuel(tells_nothing, 27);
    reveal_strlit("gpt-4o-mini-search-preview");
    reveal_strlit("gpt-4o-mini");
    reveal_strlit("gpt-4o-search-preview");
    reveal_strlit("gpt-4o");
    reveal_strlit("gpt-4.5-preview");
    reveal_strlit("gpt-4.1-nano");
    reveal_strlit("gpt-4.1-mini");
    reveal_strlit("gpt-4.1");
    reveal_strlit("gpt-4-turbo");
    reveal_strlit("gpt-4");
    reveal_strlit("gpt-3.5-turbo");
    reveal_strlit("chat-latest");
    reveal_strlit("gpt-5.5-pro");
    reveal_strlit("gpt-5.5");
    reveal_strlit("gpt-5.4-pro");
    reveal_strlit("gpt-5.4-mini");
    reveal_strlit("gpt-5.4-nano");
    reveal_strlit("gpt-5.4");
    reveal_strlit("gpt-5.3-codex");
    reveal_strlit("gpt-5.3-chat-latest");
    reveal_strlit("gpt-5.2-pro");
    reveal_strlit("gpt-5.2-codex");
    reveal_strlit("gpt-5.2-chat-latest");
    reveal_strlit("gpt-5.2");
    reveal_strlit("gpt-5.1-codex-mini");
    reveal_strlit("gpt-5.1-codex");
    reveal_strlit("gpt-5.1-chat-latest");
    reveal_strlit("gpt-5.1");
    reveal_strlit("gpt-5-pro");
    reveal_strlit("gpt-5-codex");
    reveal_strlit("gpt-5-chat-latest");
    reveal_strlit("gpt-5-nano");
    reveal_strlit("gpt-5-mini");
    reveal_strlit("gpt-5");
    reveal_strlit("codex-mini-latest");
    reveal_strlit("o1-pro");
    reveal_strlit("o1-mini");
    reveal_strlit("o1-preview");
    reveal_strlit("o1");
    reveal_strlit("o3-pro");
    reveal_strlit("o3-mini");
    reveal_strlit("o3");
    reveal_strlit("o4-mini");
    reveal_strlit("o4-pro");
    reveal_strlit("o4");
    reveal_strlit("gemini-1.5-flash");
    reveal_strlit("gemini-1.5-pro");
    reveal_strlit("gemini-2.0-flash");
    reveal_strlit("gemini-2.5-flash");
    reveal_strlit("gemini-2.5-pro");
    reveal_strlit("deepseek-chat");
    reveal_strlit("deepseek-reasoner");
    reveal_strlit("deepseek-r1");
    reveal_strlit("qwen-max");
    reveal_strlit("qwen-plus");
    reveal_strlit("qwen-turbo");
    reveal_strlit("qwen-long");
    reveal_strlit("qwq-32b");
}

/// Whatever name the ids of the Anthropic family begin with, no row of the table begins a
/// later one: every row can be found.
pub proof fn rows_are_in_order(family: Seq<char>)
    ensures
        in_order(price_rows(family)),
{
    let rows = price_rows(family);
    let n = family_rows().len() as int;
    assert forall|i: int, j: int| 0 <= i < j < rows.len() implies !(#[trigger] rows[i]).0.is_prefix_of(
        (#[trigger] rows[j]).0,
    ) by {
        let a = rows[i].0;
        let b = rows[j].0;
        if a.is_prefix_of(b) {
            if i >= n {
                lemma_provider_rows_differ(i - n, j - n);
            } else if j < n {
                let x = family_rows()[i].0;
                let y = family_rows()[j].0;
                lemma_family_rows_differ(i, j);
                assert forall|k: int| 0 <= k < x.len() implies x[k] == y[k] by {
                    assert(a[family.len() + k] == x[k]);
                    assert(b.subrange(0, a.len() as int)[family.len() + k] == b[family.len() + k]);
                    assert(b[family.len() + k] == y[k]);
                }
                assert(x =~= y.subrange(0, x.len() as int));
            } else {
                let x = family_rows()[i].0;
                lemma_family_rows_tell(i);
                lemma_provider_rows_tell_nothing(j - n);
                let k = choose|k: int| telling_at(x, k);
                let at = family.len() + k;
                assert(a[at] == x[k] && a[at + 1] == x[k + 1]);
                assert(b.subrange(0, a.len() as int)[at] == b[at]);
                assert(b.subrange(0, a.len() as int)[at + 1] == b[at + 1]);
                lemma_tells_nothing(b, 26, at);
            }
        }
    }
}

/// The pricing table: prefixes of model ids and their rates, in order of precedence.
///
/// The first matching row wins, so a prefix must stand before any shorter prefix that
/// begins it: `gpt-5.2` before `gpt-5`, `o1-mini` before `o1`. [`rows_are_in_order`] shows
/// that it does.
#[derive(Debug)]
pub struct PriceTable {
    family: String,
    rows: Vec<(String, ModelPricing)>,
}

impl PriceTable {
    /// The name with which the ids of the Anthropic family begin.
    pub closed spec fn family(&self) -> Seq<char> {
        self.family@
    }

    #[verifier::type_invariant]
    spec fn holds_the_rows(self) -> bool {
        entries_view(self.rows@) == price_rows(self.family@)
    }

    /// The table in which the ids of the Anthropic family begin with `family`, its dash
    /// included and in lower case.
    pub fn new(family: String) -> (table: PriceTable)
        ensures
            table.family() == family@,
    {
        let own = family_list();
        let others = provider_list();
        let ghost want = price_rows(family@);
        let mut rows: Vec<(String, ModelPricing)> = Vec::new();
        let mut i: usize = 0;
        while i < own.len()
            invariant
                0 <= i <= own@.len(),
                rows_view(own@) == family_rows(),
                want == price_rows(family@),
                rows@.len() == i,
                forall|k: int|
                    0 <= k < i ==> ((#[trigger] rows@[k]).0@, rows@[k].1) == want[k],
            decreases own@.len() - i,
        {
            assert(family_rows()[i as int] == (own@[i as int].0@, own@[i as int].1));
            rows.push((family.clone().concat(own[i].0), own[i].1));
            i += 1;
        }
        assert(own@.len() == family_rows().len());
        let ghost n = own@.len() as int;
        let mut j: usize = 0;
        while j < others.len()
            invariant
                0 <= j <= others@.len(),
                rows_view(others@) == provider_rows(),
                want == price_rows(family@),
                n == family_rows().len(),
                rows@.len() == n + j,
                forall|k: int|
                    0 <= k < n + j ==> ((#[trigger] rows@[k]).0@, rows@[k].1) == want[k],
            decreases others@.len() - j,
        {
            assert(provider_rows()[j as int] == (others@[j as int].0@, others@[j as int].1));
            assert(want[n + j] == provider_rows()[j as int]);
            rows.push((others[j].0.to_owned(), others[j].1));
            j += 1;
        }
        assert(others@.len() == provider_rows().len());
        assert(entries_view(rows@) =~= want);
        PriceTable { family, rows }
    }

    /// The rows of the table.
    pub fn entries(&self) -> (rows: &Vec<(String, ModelPricing)>)
        ensures
            entries_view(rows@) == price_rows(self.family()),
            in_order(price_rows(self.family())),
    {
        proof {
            use_type_invariant(self);
            rows_are_in_order(self.family@);
        }
        &self.rows
    }
}

/// In a table in order the first row that matches is the longest one that does.
pub proof fn first_match_is_longest(
    rows: Seq<(Seq<char>, ModelPricing)>,
    key: Seq<char>,
    i: int,
    j: int,
)
    requires
        in_order(rows),
        seqs::first_where(rows, matching(key)) == Some(i),
        0 <= j < rows.len(),
        rows[j].0.is_prefix_of(key),
    ensures
        rows[i].0.len() >= rows[j].0.len(),
{
    assert(seqs::is_first_where(rows, matching(key), i));
    if j < i {
        assert(!matching(key)(rows[j]));
    }
    if rows[i].0.len() < rows[j].0.len() {
        let short = rows[i].0;
        let long = rows[j].0;
        assert(short =~= key.subrange(0, short.len() as int));
        assert(long =~= key.subrange(0, long.len() as int));
        assert(short =~= long.subrange(0, short.len() as int));
        assert(i < j);
        assert(rows[i].0.is_prefix_of(rows[j].0));
    }
}

/// In a table in order each row is what its own prefix finds.
pub proof fn every_row_is_found(rows: Seq<(Seq<char>, ModelPricing)>, i: int)
    requires
        in_order(rows),
        0 <= i < rows.len(),
    ensures
        rates_in(rows, rows[i].0) == Some(rows[i].1),
{
    let key = rows[i].0;
    assert(key =~= key.subrange(0, key.len() as int));
    assert forall|j: int| 0 <= j < i implies !matching(key)(#[trigger] rows[j]) by {
        assert(!rows[j].0.is_prefix_of(rows[i].0));
    }
    assert(seqs::is_first_where(rows, matching(key), i));
    seqs::lemma_first_where(rows, matching(key), i);
}

/// Whatever name the ids of the Anthropic family begin with, what follows it decides their
/// rates: the first row of the family that begins it.
pub proof fn family_ids_are_priced(family: Seq<char>, rest: Seq<char>)
    requires
        rates_in(family_rows(), rest) is Some,
    ensures
        rates_of(family, family + rest) == rates_in(family_rows(), rest),
{
    let own = family_rows();
    let rows = price_rows(family);
    let key = family + rest;
    let i = seqs::first_where(own, matching(rest))->0;
    assert(seqs::is_first_where(own, matching(rest), i));
    assert forall|j: int| 0 <= j < own.len() implies matching(key)(#[trigger] rows[j])
        == matching(rest)(own[j]) by {
        lemma_same_start(family, own[j].0, rest);
    }
    assert forall|j: int| 0 <= j < i implies !matching(key)(#[trigger] rows[j]) by {
        assert(!matching(rest)(own[j]));
    }
    assert(matching(key)(rows[i]));
    assert(seqs::is_first_where(rows, matching(key), i));
    seqs::lemma_first_where(rows, matching(key), i);
}

proof fn lemma_same_start(family: Seq<char>, prefix: Seq<char>, rest: Seq<char>)
    ensures
        (family + prefix).is_prefix_of(family + rest) <==> prefix.is_prefix_of(rest),
{
    let a = family + prefix;
    let b = family + rest;
    if a.is_prefix_of(b) {
        assert forall|k: int| 0 <= k < prefix.len() implies prefix[k] == rest[k] by {
            assert(a[family.len() + k] == prefix[k]);
            assert(b.subrange(0, a.len() as int)[family.len() + k] == b[family.len() + k]);
        }
        assert(prefix =~= rest.subrange(0, prefix.len() as int));
    }
    if prefix.is_prefix_of(rest) {
        assert forall|k: int| 0 <= k < prefix.len() implies prefix[k] == rest[k] by {
            assert(rest.subrange(0, prefix.len() as int)[k] == rest[k]);
        }
        assert(a =~= b.subrange(0, a.len() as int));
    }
}

/// Look up pricing for a model by ordered prefix match, whatever the case of its letters.
pub fn get_pricing(table: &PriceTable, model: &str) -> (p: Option<ModelPricing>)
    ensures
        p == rates_of(table.family(), text::lowered(model@)),
{
    let key = text::to_lowercase(model);
    get_pricing_for_key(table, key.as_str())
}

/// The rates of the first row whose prefix begins `key`.
pub fn get_pricing_for_key(table: &PriceTable, key: &str) -> (p: Option<ModelPricing>)
    ensures
        p == rates_of(table.family(), key@),
{
    let entries = table.entries();
    let ghost rows = price_rows(table.family());
    let ghost hit = matching(key@);
    let mut i: usize = 0;
    while i < entries.len()
        invariant
            0 <= i <= entries@.len(),
            entries_view(entries@) == rows,
            hit == matching(key@),
            forall|j: int| 0 <= j < i ==> !hit(#[trigger] rows[j]),
            rows == price_rows(table.family()),
        decreases entries@.len() - i,
    {
        assert(rows[i as int] == (entries@[i as int].0@, entries@[i as int].1));
        if text::starts_with(key, entries[i].0.as_str()) {
            proof {
                assert(seqs::is_first_where(rows, hit, i as int));
                seqs::lemma_first_where(rows, hit, i as int);
            }
            return Some(entries[i].1);
        }
        i += 1;
    }
    proof {
        assert(entries@.len() == rows.len());
        seqs::lemma_none_where(rows, hit);
    }
    None
}

/// A count of tokens as it is billed: no more than `u32::MAX`.
pub open spec fn billed(n: u64) -> int {
    if n <= u32::MAX {
        n as int
    } else {
        u32::MAX as int
    }
}

fn billed_tokens(n: u64) -> (r: u32)
    ensures
        r == billed(n),
{
    if n <= 0xffff_ffff {
        n as u32
    } else {
        0xffff_ffff
    }
}

/// The charge for web searches.
pub open spec fn search_charge(requests: u64) -> int {
    billed(requests) * WEB_SEARCH_REQUEST_COST
}

/// The charge for `tokens` tokens at a rate and a multiplier.
pub open spec fn charge(tokens: u64, rate: u64, hundredths: u64) -> int {
    billed(tokens) * rate * hundredths
}

/// The cost of a request: what each kind of tokens costs, and the web searches.
pub open spec fn cost_of(
    p: ModelPricing,
    usage: TokenUsage,
    extras: UsageExtras,
    ttl: CacheWriteTtl,
    fast: bool,
) -> int {
    charge(usage.input_tokens, input_rate(p, fast), 100) + charge(
        usage.output_tokens,
        output_rate(p, fast),
        100,
    ) + charge(usage.cache_read_tokens, input_rate(p, fast), p.cache_read_multiplier) + charge(
        usage.cache_write_tokens,
        input_rate(p, fast),
        write_multiplier(p, ttl),
    ) + search_charge(extras.web_search_requests)
}

/// The multipliers are small enough for costs to be counted.
pub open spec fn sound_multipliers(p: ModelPricing) -> bool {
    &&& p.cache_read_multiplier <= 200
    &&& p.cache_write_5m_multiplier <= 200
    &&& p.cache_write_1hr_multiplier <= 200
}

proof fn lemma_charge_bound(tokens: u64, rate: u64, hundredths: u64)
    requires
        hundredths <= 200,
    ensures
        0 <= billed(tokens) * rate <= 0xffff_ffff * 0xffff_ffff_ffff_ffff,
        0 <= charge(tokens, rate, hundredths) <= 0xffff_ffff * 0xffff_ffff_ffff_ffff * 200,
{
    let t = billed(tokens);
    let r = rate as int;
    let h = hundredths as int;
    assert(0 <= t * r <= 0xffff_ffff * 0xffff_ffff_ffff_ffff) by (nonlinear_arith)
        requires
            0 <= t <= 0xffff_ffff,
            0 <= r <= 0xffff_ffff_ffff_ffff,
    ;
    let m = t * r;
    assert(0 <= m * h <= 0xffff_ffff * 0xffff_ffff_ffff_ffff * 200) by (nonlinear_arith)
        requires
            0 <= m <= 0xffff_ffff * 0xffff_ffff_ffff_ffff,
            0 <= h <= 200,
    ;
}

fn charge_units(tokens: u64, rate: u64, hundredths: u64) -> (c: u128)
    requires
        hundredths <= 200,
    ensures
        c == charge(tokens, rate, hundredths),
        c <= 0xffff_ffff * 0xffff_ffff_ffff_ffff * 200,
{
    proof {
        lemma_charge_bound(tokens, rate, hundredths);
    }
    let base: u128 = billed_tokens(tokens) as u128 * rate as u128;
    base * hundredths as u128
}

/// Flat charge for web searches.
pub fn web_search_cost(requests: u64) -> (c: u128)
    ensures
        c == search_charge(requests),
        c <= 0xffff_ffff * WEB_SEARCH_REQUEST_COST,
{
    let n: u128 = billed_tokens(requests) as u128;
    n * 1_000_000_000
}

/// The cost of a request at given rates.
pub fn cost_at(
    p: &ModelPricing,
    usage: &TokenUsage,
    extras: &UsageExtras,
    ttl: CacheWriteTtl,
    fast: bool,
) -> (c: u128)
    requires
        sound_multipliers(*p),
    ensures
        c == cost_of(*p, *usage, *extras, ttl, fast),
{
    let input: u64 = p.effective_input_per_million(fast);
    let output: u64 = p.effective_output_per_million(fast);
    let write: u64 = p.cache_write_multiplier(ttl);
    charge_units(usage.input_tokens, input, 100) + charge_units(usage.output_tokens, output, 100)
        + charge_units(usage.cache_read_tokens, input, p.cache_read_multiplier) + charge_units(
        usage.cache_write_tokens,
        input,
        write,
    ) + web_search_cost(extras.web_search_requests)
}

/// Whether a cost was asked for of a model that is not in the table, since the flag was
/// last cleared. It feeds the warning that costs may be inaccurate.
#[derive(Clone, Copy, Debug, PartialEq, Eq, Structural)]
pub struct UnknownModelFlag {
    pub seen: bool,
}

impl Default for UnknownModelFlag {
    fn default() -> (f: UnknownModelFlag)
        ensures
            !f.seen,
    {
        UnknownModelFlag { seen: false }
    }
}

/// Whether a `calculate_cost*` call on this flag has met an unknown model since the last
/// [`clear_unknown_model_cost`].
pub fn has_unknown_model_cost(flag: &UnknownModelFlag) -> (b: bool)
    ensures
        b == flag.seen,
{
    flag.seen
}

/// Reset the flag, at the start of a session or once the user has been warned.
pub fn clear_unknown_model_cost(flag: &mut UnknownModelFlag)
    ensures
        !final(flag).seen,
{
    flag.seen = false;
}

fn mark_unknown_model_cost(flag: &mut UnknownModelFlag)
    ensures
        final(flag).seen,
{
    flag.seen = true;
}

/// What a calculation of a cost does to the flag and what it answers, where `rates` is
/// what the lookup of the model gave.
pub open spec fn cost_answer(
    flag: UnknownModelFlag,
    rates: Option<ModelPricing>,
    model: Seq<char>,
    usage: TokenUsage,
    extras: UsageExtras,
    ttl: CacheWriteTtl,
    fast: bool,
    after: UnknownModelFlag,
    answer: Result<u128, PricingError>,
) -> bool {
    match rates {
        Some(p) => answer matches Ok(c) && c == cost_of(p, usage, extras, ttl, fast) && after
            == flag,
        None => answer matches Err(PricingError::UnknownModel(m)) && m@ == model && after.seen,
    }
}

/// No extras.
pub open spec fn no_extras() -> UsageExtras {
    UsageExtras { web_search_requests: 0 }
}

/// Calculate the cost for given token usage and model: five minutes in the cache,
/// standard rates, no extras.
pub fn calculate_cost(
    table: &PriceTable,
    flag: &mut UnknownModelFlag,
    model: &str,
    usage: &TokenUsage,
) -> (r: Result<u128, PricingError>)
    ensures
        cost_answer(
            *old(flag),
            rates_of(table.family(), text::lowered(model@)),
            model@,
            *usage,
            no_extras(),
            CacheWriteTtl::FiveMinutes,
            false,
            *final(flag),
            r,
        ),
{
    calculate_cost_with_ttl(table, flag, model, usage, CacheWriteTtl::FiveMinutes)
}

/// Calculate cost with explicit cache life.
pub fn calculate_cost_with_ttl(
    table: &PriceTable,
    flag: &mut UnknownModelFlag,
    model: &str,
    usage: &TokenUsage,
    ttl: CacheWriteTtl,
) -> (r: Result<u128, PricingError>)
    ensures
        cost_answer(
            *old(flag),
            rates_of(table.family(), text::lowered(model@)),
            model@,
            *usage,
            no_extras(),
            ttl,
            false,
            *final(flag),
            r,
        ),
{
    calculate_cost_full(table, flag, model, usage, &UsageExtras::default(), ttl, false)
}

/// Calculate cost with explicit extras: five minutes in the cache, standard rates.
pub fn calculate_cost_with_extras(
    table: &PriceTable,
    flag: &mut UnknownModelFlag,
    model: &str,
    usage: &TokenUsage,
    extras: &UsageExtras,
) -> (r: Result<u128, PricingError>)
    ensures
        cost_answer(
            *old(flag),
            rates_of(table.family(), text::lowered(model@)),
            model@,
            *usage,
            *extras,
            CacheWriteTtl::FiveMinutes,
            false,
            *final(flag),
            r,
        ),
{
    calculate_cost_full(table, flag, model, usage, extras, CacheWriteTtl::FiveMinutes, false)
}

/// Calculate cost at the model's fast-mode rates, or at the standard ones where it has
/// none: five minutes in the cache, no extras.
pub fn calculate_cost_fast_mode(
    table: &PriceTable,
    flag: &mut UnknownModelFlag,
    model: &str,
    usage: &TokenUsage,
) -> (r: Result<u128, PricingError>)
    ensures
        cost_answer(
            *old(flag),
            rates_of(table.family(), text::lowered(model@)),
            model@,
            *usage,
            no_extras(),
            CacheWriteTtl::FiveMinutes,
            true,
            *final(flag),
            r,
        ),
{
    calculate_cost_full(
        table,
        flag,
        model,
        usage,
        &UsageExtras::default(),
        CacheWriteTtl::FiveMinutes,
        true,
    )
}

/// Calculate cost with full control over cache life, fast mode and extras.
pub fn calculate_cost_full(
    table: &PriceTable,
    flag: &mut UnknownModelFlag,
    model: &str,
    usage: &TokenUsage,
    extras: &UsageExtras,
    ttl: CacheWriteTtl,
    fast: bool,
) -> (r: Result<u128, PricingError>)
    ensures
        cost_answer(
            *old(flag),
            rates_of(table.family(), text::lowered(model@)),
            model@,
            *usage,
            *extras,
            ttl,
            fast,
            *final(flag),
            r,
        ),
{
    let rates = get_pricing(table, model);
    proof {
        lemma_rows_are_sound(table.family());
    }
    calculate_cost_at(flag, rates, model, usage, extras, ttl, fast)
}

/// The cost of a request once the model has been looked up. An unknown model sets the
/// flag and is handed back as it was written.
pub fn calculate_cost_at(
    flag: &mut UnknownModelFlag,
    rates: Option<ModelPricing>,
    model: &str,
    usage: &TokenUsage,
    extras: &UsageExtras,
    ttl: CacheWriteTtl,
    fast: bool,
) -> (r: Result<u128, PricingError>)
    requires
        rates matches Some(p) ==> sound_multipliers(p),
    ensures
        cost_answer(*old(flag), rates, model@, *usage, *extras, ttl, fast, *final(flag), r),
{
    match rates {
        Some(p) => Ok(cost_at(&p, usage, extras, ttl, fast)),
        None => {
            mark_unknown_model_cost(flag);
            Err(PricingError::UnknownModel(model.to_owned()))
        },
    }
}

proof fn lemma_rows_are_sound(family: Seq<char>)
    ensures
        forall|key: Seq<char>| #[trigger]
            rates_of(family, key) matches Some(p) ==> sound_multipliers(p),
{
    let rows = price_rows(family);
    assert forall|i: int| 0 <= i < rows.len() implies sound_multipliers(
        (#[trigger] rows[i]).1,
    ) by {
        if i < family_rows().len() {
            assert(rows[i].1 == family_rows()[i].1);
        } else {
            assert(rows[i] == provider_rows()[i - family_rows().len()]);
        }
    }
    assert forall|key: Seq<char>| #[trigger]
        rates_of(family, key) is Some implies sound_multipliers(rates_of(family, key)->0) by {
        let i = seqs::first_where(rows, matching(key))->0;
        assert(seqs::is_first_where(rows, matching(key), i));
        assert(sound_multipliers(rows[i].1));
    }
}

/// A model without rates of its own in fast mode costs the same in it.
pub proof fn fast_mode_falls_back(
    p: ModelPricing,
    usage: TokenUsage,
    extras: UsageExtras,
    ttl: CacheWriteTtl,
)
    requires
        p.fast_mode_input_per_million is None,
        p.fast_mode_output_per_million is None,
    ensures
        cost_of(p, usage, extras, ttl, true) == cost_of(p, usage, extras, ttl, false),
{
}

/// For every model in the table an hour in the cache costs no less than five minutes.
pub proof fn hour_costs_no_less(
    family: Seq<char>,
    key: Seq<char>,
    usage: TokenUsage,
    extras: UsageExtras,
    fast: bool,
)
    ensures
        rates_of(family, key) matches Some(p) ==> cost_of(
            p,
            usage,
            extras,
            CacheWriteTtl::FiveMinutes,
            fast,
        ) <= cost_of(p, usage, extras, CacheWriteTtl::OneHour, fast),
{
    let rows = price_rows(family);
    assert forall|i: int| 0 <= i < rows.len() implies (#[trigger] rows[i]).1.cache_write_5m_multiplier
        <= rows[i].1.cache_write_1hr_multiplier by {
        if i < family_rows().len() {
            assert(rows[i].1 == family_rows()[i].1);
        } else {
            assert(rows[i] == provider_rows()[i - family_rows().len()]);
        }
    }
    if let Some(p) = rates_of(family, key) {
        let i = seqs::first_where(rows, matching(key))->0;
        assert(seqs::is_first_where(rows, matching(key), i));
        assert(rows[i].1 == p);
        let base = billed(usage.cache_write_tokens) * input_rate(p, fast);
        let five = p.cache_write_5m_multiplier as int;
        let hour = p.cache_write_1hr_multiplier as int;
        let t = billed(usage.cache_write_tokens);
        let rate = input_rate(p, fast) as int;
        assert(0 <= base) by (nonlinear_arith)
            requires
                base == t * rate,
                0 <= t,
                0 <= rate,
        ;
        assert(base * five <= base * hour) by (nonlinear_arith)
            requires
                0 <= base,
                five <= hour,
        ;
    }
}

/// Web searches are charged on top of the tokens, one cent each.
pub proof fn searches_are_charged_on_top(
    p: ModelPricing,
    usage: TokenUsage,
    extras: UsageExtras,
    ttl: CacheWriteTtl,
    fast: bool,
)
    ensures
        cost_of(p, usage, extras, ttl, fast) == cost_of(p, usage, no_extras(), ttl, fast)
            + search_charge(extras.web_search_requests),
        COST_UNITS_PER_USD == 100 * WEB_SEARCH_REQUEST_COST,
{
    assert(search_charge(0) == 0);
}

/// Nothing used costs nothing, at any rates.
pub proof fn nothing_costs_nothing(p: ModelPricing, ttl: CacheWriteTtl, fast: bool)
    ensures
        cost_of(p, super::state::no_usage(), no_extras(), ttl, fast) == 0,
{
    let r = input_rate(p, fast) as int;
    let o = output_rate(p, fast) as int;
    assert(0 * r == 0 && 0 * o == 0) by (nonlinear_arith);
    let a = p.cache_read_multiplier as int;
    let b = write_multiplier(p, ttl) as int;
    assert(0 * a == 0 && 0 * b == 0) by (nonlinear_arith);
}

/// So many input tokens and nothing else.
pub open spec fn input_tokens(n: u64) -> TokenUsage {
    TokenUsage { input_tokens: n, output_tokens: 0, cache_read_tokens: 0, cache_write_tokens: 0 }
}

/// So many output tokens and nothing else.
pub open spec fn output_tokens(n: u64) -> TokenUsage {
    TokenUsage { input_tokens: 0, output_tokens: n, cache_read_tokens: 0, cache_write_tokens: 0 }
}

/// So many tokens read from the cache and nothing else.
pub open spec fn cache_reads(n: u64) -> TokenUsage {
    TokenUsage { input_tokens: 0, output_tokens: 0, cache_read_tokens: n, cache_write_tokens: 0 }
}

/// So many tokens written to the cache and nothing else.
pub open spec fn cache_writes(n: u64) -> TokenUsage {
    TokenUsage { input_tokens: 0, output_tokens: 0, cache_read_tokens: 0, cache_write_tokens: n }
}

proof fn lemma_lone_costs(p: ModelPricing, n: u64, ttl: CacheWriteTtl, fast: bool)
    ensures
        cost_of(p, input_tokens(n), no_extras(), ttl, fast) == charge(n, input_rate(p, fast), 100),
        cost_of(p, output_tokens(n), no_extras(), ttl, fast) == charge(
            n,
            output_rate(p, fast),
            100,
        ),
        cost_of(p, cache_reads(n), no_extras(), ttl, fast) == charge(
            n,
            input_rate(p, fast),
            p.cache_read_multiplier,
        ),
        cost_of(p, cache_writes(n), no_extras(), ttl, fast) == charge(
            n,
            input_rate(p, fast),
            write_multiplier(p, ttl),
        ),
{
    let r = input_rate(p, fast) as int;
    let o = output_rate(p, fast) as int;
    assert(0 * r == 0 && 0 * o == 0) by (nonlinear_arith);
    let a = p.cache_read_multiplier as int;
    let b = write_multiplier(p, ttl) as int;
    assert(0 * a == 0 && 0 * b == 0) by (nonlinear_arith);
}

/// A request costs what its input, its output, its reads from the cache, its writes to it and
/// its searches cost alone: each counts once, and none is left out.
pub proof fn costs_add_up(
    p: ModelPricing,
    usage: TokenUsage,
    extras: UsageExtras,
    ttl: CacheWriteTtl,
    fast: bool,
)
    ensures
        cost_of(p, usage, extras, ttl, fast) == cost_of(
            p,
            input_tokens(usage.input_tokens),
            no_extras(),
            ttl,
            fast,
        ) + cost_of(p, output_tokens(usage.output_tokens), no_extras(), ttl, fast) + cost_of(
            p,
            cache_reads(usage.cache_read_tokens),
            no_extras(),
            ttl,
            fast,
        ) + cost_of(p, cache_writes(usage.cache_write_tokens), no_extras(), ttl, fast) + cost_of(
            p,
            super::state::no_usage(),
            extras,
            ttl,
            fast,
        ),
{
    lemma_lone_costs(p, usage.input_tokens, ttl, fast);
    lemma_lone_costs(p, usage.output_tokens, ttl, fast);
    lemma_lone_costs(p, usage.cache_read_tokens, ttl, fast);
    lemma_lone_costs(p, usage.cache_write_tokens, ttl, fast);
    nothing_costs_nothing(p, ttl, fast);
    searches_are_charged_on_top(p, super::state::no_usage(), extras, ttl, fast);
}

/// Tokens cost what the model's rates say: a million of them so many thousandths of a dollar.
/// In fast mode the rates of fast mode hold where the model has them.
pub proof fn tokens_cost_their_rate(p: ModelPricing, n: u64, ttl: CacheWriteTtl, fast: bool)
    requires
        n <= u32::MAX,
    ensures
        !fast || p.fast_mode_input_per_million is None ==> cost_of(
            p,
            input_tokens(n),
            no_extras(),
            ttl,
            fast,
        ) * 1_000_000 * 1_000 == n * p.input_per_million * COST_UNITS_PER_USD,
        !fast || p.fast_mode_output_per_million is None ==> cost_of(
            p,
            output_tokens(n),
            no_extras(),
            ttl,
            fast,
        ) * 1_000_000 * 1_000 == n * p.output_per_million * COST_UNITS_PER_USD,
        fast ==> (p.fast_mode_input_per_million matches Some(rate) ==> cost_of(
            p,
            input_tokens(n),
            no_extras(),
            ttl,
            fast,
        ) * 1_000_000 * 1_000 == n * rate * COST_UNITS_PER_USD),
        fast ==> (p.fast_mode_output_per_million matches Some(rate) ==> cost_of(
            p,
            output_tokens(n),
            no_extras(),
            ttl,
            fast,
        ) * 1_000_000 * 1_000 == n * rate * COST_UNITS_PER_USD),
{
    lemma_lone_costs(p, n, ttl, fast);
}

/// A search costs a cent: a hundred of them a dollar.
pub proof fn a_hundred_searches_cost_a_dollar(
    p: ModelPricing,
    n: u64,
    ttl: CacheWriteTtl,
    fast: bool,
)
    requires
        n <= u32::MAX,
    ensures
        100 * cost_of(
            p,
            super::state::no_usage(),
            UsageExtras { web_search_requests: n },
            ttl,
            fast,
        ) == n * COST_UNITS_PER_USD,
{
    nothing_costs_nothing(p, ttl, fast);
    searches_are_charged_on_top(
        p,
        super::state::no_usage(),
        UsageExtras { web_search_requests: n },
        ttl,
        fast,
    );
}

/// A count that is too large to be one costs as much as the largest that is.
pub proof fn absurd_counts_cost_the_most(
    p: ModelPricing,
    n: u64,
    ttl: CacheWriteTtl,
    fast: bool,
)
    requires
        n > u32::MAX,
    ensures
        cost_of(p, input_tokens(n), no_extras(), ttl, fast) == cost_of(
            p,
            input_tokens(u32::MAX as u64),
            no_extras(),
            ttl,
            fast,
        ),
        cost_of(p, output_tokens(n), no_extras(), ttl, fast) == cost_of(
            p,
            output_tokens(u32::MAX as u64),
            no_extras(),
            ttl,
            fast,
        ),
        cost_of(p, cache_reads(n), no_extras(), ttl, fast) == cost_of(
            p,
            cache_reads(u32::MAX as u64),
            no_extras(),
            ttl,
            fast,
        ),
        cost_of(p, cache_writes(n), no_extras(), ttl, fast) == cost_of(
            p,
            cache_writes(u32::MAX as u64),
            no_extras(),
            ttl,
            fast,
        ),
{
    lemma_lone_costs(p, n, ttl, fast);
    lemma_lone_costs(p, u32::MAX as u64, ttl, fast);
}

proof fn lemma_rows_of(family: Seq<char>, key: Seq<char>)
    requires
        rates_of(family, key) is Some,
    ensures
        ({
            let p = rates_of(family, key)->0;
            &&& p.cache_read_multiplier == 10
            &&& p.cache_write_5m_multiplier == 125
            &&& 0 < p.input_per_million <= p.output_per_million
            &&& p.fast_mode_input_per_million matches Some(rate) ==> rate > p.input_per_million
            &&& p.fast_mode_output_per_million matches Some(rate) ==> rate > p.output_per_million
            &&& p.fast_mode_input_per_million is Some <==> p.fast_mode_output_per_million is Some
        }),
{
    let rows = price_rows(family);
    assert forall|i: int| 0 <= i < rows.len() implies ({
        let p = (#[trigger] rows[i]).1;
        &&& p.cache_read_multiplier == 10
        &&& p.cache_write_5m_multiplier == 125
        &&& 0 < p.input_per_million <= p.output_per_million
        &&& p.fast_mode_input_per_million matches Some(rate) ==> rate > p.input_per_million
        &&& p.fast_mode_output_per_million matches Some(rate) ==> rate > p.output_per_million
        &&& p.fast_mode_input_per_million is Some <==> p.fast_mode_output_per_million is Some
    }) by {
        if i < family_rows().len() {
            assert(rows[i].1 == family_rows()[i].1);
        } else {
            assert(rows[i] == provider_rows()[i - family_rows().len()]);
        }
    }
    let i = seqs::first_where(rows, matching(key))->0;
    assert(seqs::is_first_where(rows, matching(key), i));
    assert(rows[i].1 == rates_of(family, key)->0);
}

/// Whichever model it is, tokens read from the cache cost a tenth of what they cost as input,
/// and tokens written to it for five minutes cost a quarter more.
pub proof fn cached_tokens_cost_a_tenth(
    family: Seq<char>,
    key: Seq<char>,
    n: u64,
    ttl: CacheWriteTtl,
    fast: bool,
)
    ensures
        rates_of(family, key) matches Some(p) ==> {
            &&& 10 * cost_of(p, cache_reads(n), no_extras(), ttl, fast) == cost_of(
                p,
                input_tokens(n),
                no_extras(),
                ttl,
                fast,
            )
            &&& 4 * cost_of(p, cache_writes(n), no_extras(), CacheWriteTtl::FiveMinutes, fast) == 5
                * cost_of(p, input_tokens(n), no_extras(), CacheWriteTtl::FiveMinutes, fast)
        },
{
    if let Some(p) = rates_of(family, key) {
        lemma_rows_of(family, key);
        lemma_lone_costs(p, n, ttl, fast);
        lemma_lone_costs(p, n, CacheWriteTtl::FiveMinutes, fast);
    }
}

/// An hour in the cache costs twice the input for the models of the Anthropic family, and no
/// more than five minutes for the others.
pub proof fn an_hour_in_the_cache(
    family: Seq<char>,
    rest: Seq<char>,
    key: Seq<char>,
    n: u64,
    fast: bool,
)
    ensures
        rates_in(family_rows(), rest) is Some ==> (rates_of(family, family + rest) matches Some(p)
            && cost_of(p, cache_writes(n), no_extras(), CacheWriteTtl::OneHour, fast) == 2
            * cost_of(p, input_tokens(n), no_extras(), CacheWriteTtl::OneHour, fast)),
        rates_in(provider_rows(), key) matches Some(p) ==> cost_of(
            p,
            cache_writes(n),
            no_extras(),
            CacheWriteTtl::OneHour,
            fast,
        ) == cost_of(p, cache_writes(n), no_extras(), CacheWriteTtl::FiveMinutes, fast),
{
    if rates_in(family_rows(), rest) is Some {
        family_ids_are_priced(family, rest);
        let own = family_rows();
        let i = seqs::first_where(own, matching(rest))->0;
        assert(seqs::is_first_where(own, matching(rest), i));
        let p = own[i].1;
        assert(p.cache_write_1hr_multiplier == 200);
        lemma_lone_costs(p, n, CacheWriteTtl::OneHour, fast);
    }
    if let Some(p) = rates_in(provider_rows(), key) {
        let others = provider_rows();
        let i = seqs::first_where(others, matching(key))->0;
        assert(seqs::is_first_where(others, matching(key), i));
        assert(others[i].1.cache_write_1hr_multiplier == others[i].1.cache_write_5m_multiplier);
        lemma_lone_costs(p, n, CacheWriteTtl::OneHour, fast);
        lemma_lone_costs(p, n, CacheWriteTtl::FiveMinutes, fast);
    }
}

/// No model is free, output costs no less than input, and fast mode costs more where there is
/// one.
pub proof fn rates_are_plausible(family: Seq<char>, key: Seq<char>)
    ensures
        rates_of(family, key) matches Some(p) ==> {
            &&& 0 < p.input_per_million <= p.output_per_million
            &&& p.fast_mode_input_per_million matches Some(rate) ==> rate > p.input_per_million
            &&& p.fast_mode_output_per_million matches Some(rate) ==> rate > p.output_per_million
            &&& p.fast_mode_input_per_million is Some <==> p.fast_mode_output_per_million is Some
        },
{
    if rates_of(family, key) is Some {
        lemma_rows_of(family, key);
    }
}

/// An unknown model has no cost: the error names the model as it was written, and the flag is
/// set and stays set, whatever is asked for next, until it is cleared. A known model leaves
/// the flag alone.
pub proof fn unknown_models_are_flagged(
    flag: UnknownModelFlag,
    rates: Option<ModelPricing>,
    model: Seq<char>,
    usage: TokenUsage,
    extras: UsageExtras,
    ttl: CacheWriteTtl,
    fast: bool,
    after: UnknownModelFlag,
    answer: Result<u128, PricingError>,
)
    requires
        cost_answer(flag, rates, model, usage, extras, ttl, fast, after, answer),
    ensures
        answer is Ok <==> rates is Some,
        answer matches Err(PricingError::UnknownModel(told)) ==> told@ == model,
        after.seen <==> flag.seen || rates is None,
{
}

} // verus!
