use std::sync::{Arc, Mutex};
use std::time::Duration;

use openclaudia::json::{self, Json};
use openclaudia::plugins::{McpServerConfig, Plugin};
use openclaudia::services::analytics::{
    AnalyticsEvent, AnalyticsSink, LogValue, NoopAnalytics, TracingAnalytics, ANALYTICS_TARGET,
};
use openclaudia::services::auto_compactor::{
    AutoCompactPolicy, AutoCompactor, CompactionAnalysis,
};
use openclaudia::services::background::{
    dedup_archival, summarise_tasks, AgentSummaryJob, BackgroundJob, JobOutcome, JobPlan,
    JobScheduler, JobTally, MemoryConsolidationJob, MemoryRow,
};
use openclaudia::services::feature_flags::{FeatureFlagSource, StaticFlags};
use openclaudia::services::lsp_diagnostics::{
    DefaultDiagnosticInjector, Diagnostic, DiagnosticInjector, DiagnosticRegistry,
    DiagnosticSeverity, NoopDiagnosticInjector,
};
use openclaudia::services::lsp_pool::{ChildHandle, LspServerManager, DEFAULT_IDLE_TTL};
use openclaudia::services::mcp_registry::{McpRegistration, McpServerSpec, PluginMcpRegistry};
use openclaudia::services::policy::{
    projected_session_policy_tokens, request_output_token_budget, EnterprisePolicy,
    PolicyDecision, PolicyEnforcer, PolicyError, ProviderRequestPolicy,
    ProviderRequestPolicyInput, ToolCaps, ToolExecutionPolicy,
};
use openclaudia::services::rate_limit_mock::{MockRateLimit, MockResponse, RateLimitMock};
use openclaudia::services::tool_executor::{
    json_value_type_name, ToolDispatch, ToolExecutionBlock, ToolExecutor, ToolExecutorRequest,
};
use openclaudia::services::ServiceRegistry;
use openclaudia::string_map::StringMap;
use openclaudia::tools::{FunctionCall, ToolCall};

/// What a request asks for that names no output budget.
const DEFAULT_MAX_TOKENS: u32 = 4096;

// ── Analytics ───────────────────────────────────────────────────────────

struct Recording {
    events: Mutex<Vec<AnalyticsEvent>>,
}

impl AnalyticsSink for Recording {
    fn record(&self, event: AnalyticsEvent) {
        self.events.lock().unwrap().push(event);
    }
}

fn recording() -> Arc<Recording> {
    Arc::new(Recording {
        events: Mutex::new(Vec::new()),
    })
}

#[test]
fn noop_sink_discards_events() {
    // Compiles if the trait object is Send + Sync (required for
    // Arc<dyn AnalyticsSink>).
    let sink: Box<dyn AnalyticsSink> = Box::new(NoopAnalytics);
    sink.record(AnalyticsEvent::SessionStart {
        session_id: "x".to_string(),
    });
}

#[test]
fn tracing_sink_handles_all_variants() {
    let sink = TracingAnalytics;
    let events = [
        (
            AnalyticsEvent::SessionStart {
                session_id: "s".to_string(),
            },
            "session_start",
            1,
        ),
        (
            AnalyticsEvent::SessionEnd {
                session_id: "s".to_string(),
                messages: 3,
            },
            "session_end",
            2,
        ),
        (
            AnalyticsEvent::ToolUsed {
                tool: "bash".to_string(),
                success: true,
            },
            "tool_used",
            2,
        ),
        (
            AnalyticsEvent::PromptSubmitted { prompt_chars: 42 },
            "prompt_submitted",
            1,
        ),
        (
            AnalyticsEvent::ContextCompacted {
                trigger: "auto",
                tokens_freed: 1000,
            },
            "context_compacted",
            2,
        ),
        (
            AnalyticsEvent::ApiRequest {
                provider: "anthropic".to_string(),
                model: "opus-4-6".to_string(),
            },
            "api_request",
            2,
        ),
        (
            AnalyticsEvent::ThinkingEmitted { budget: 31_999 },
            "thinking_emitted",
            1,
        ),
    ];
    for (event, name, fields) in events {
        let record = sink.log_record(&event);
        assert_eq!(record.event, name);
        assert_eq!(record.fields.len(), fields);
    }
    assert_eq!(ANALYTICS_TARGET, "openclaudia::analytics");
}

#[test]
fn log_records_carry_the_fields() {
    let record = TracingAnalytics.log_record(&AnalyticsEvent::ContextCompacted {
        trigger: "auto",
        tokens_freed: 1000,
    });
    assert_eq!(
        record.fields,
        vec![
            ("trigger", LogValue::Text("auto".to_string())),
            ("tokens_freed", LogValue::Count(1000))
        ]
    );
    let record = TracingAnalytics.log_record(&AnalyticsEvent::ToolUsed {
        tool: "bash".to_string(),
        success: false,
    });
    assert_eq!(record.fields[1], ("success", LogValue::Flag(false)));
}

#[test]
fn recording_sink_captures_in_order() {
    let rec = recording();
    rec.record(AnalyticsEvent::SessionStart {
        session_id: "a".to_string(),
    });
    rec.record(AnalyticsEvent::ToolUsed {
        tool: "read_file".to_string(),
        success: false,
    });
    let events = rec.events.lock().unwrap();
    assert_eq!(events.len(), 2);
    match &events[0] {
        AnalyticsEvent::SessionStart { session_id } => assert_eq!(session_id, "a"),
        other => panic!("expected SessionStart, got {other:?}"),
    }
    match &events[1] {
        AnalyticsEvent::ToolUsed { tool, success } => {
            assert_eq!(tool, "read_file");
            assert!(!success);
        }
        other => panic!("expected ToolUsed, got {other:?}"),
    }
}

// ── Compaction policy ───────────────────────────────────────────────────

#[test]
fn auto_policy_skips_small_request() {
    let ac = AutoCompactor::auto(());
    assert!(!ac.should_compact(&CompactionAnalysis {
        needs_compaction: false,
        current_tokens: 5,
        max_tokens: 128_000,
    }));
}

#[test]
fn always_over_budget_with_low_cap_triggers() {
    let ac = AutoCompactor::new((), AutoCompactPolicy::AlwaysOverBudget);
    assert!(ac.should_compact(&CompactionAnalysis {
        needs_compaction: false,
        current_tokens: 5,
        max_tokens: 1,
    }));
}

#[test]
fn policies_look_at_different_things() {
    let full = CompactionAnalysis {
        needs_compaction: true,
        current_tokens: 9,
        max_tokens: 10,
    };
    assert!(AutoCompactor::auto("c").should_compact(&full));
    assert_eq!(*AutoCompactor::auto("c").compactor(), "c");
    let over = AutoCompactor::new((), AutoCompactPolicy::AlwaysOverBudget);
    assert!(!over.should_compact(&full));
    assert!(over.should_compact(&CompactionAnalysis {
        needs_compaction: false,
        current_tokens: 10,
        max_tokens: 10,
    }));
    assert_eq!(AutoCompactPolicy::default(), AutoCompactPolicy::Auto);
}

// ── Background jobs ─────────────────────────────────────────────────────

/// One hour, in milliseconds.
const ONE_HOUR: u128 = 3_600_000_000_000;

/// Rows as the memory database keeps them, the newest last.
struct Db {
    rows: Vec<MemoryRow>,
}

impl Db {
    fn new() -> Self {
        Db { rows: Vec::new() }
    }

    fn save_at(&mut self, content: &str, tags: &[&str], updated_at: &str) -> i64 {
        let id = self.rows.iter().map(|r| r.id).max().unwrap_or(0) + 1;
        self.rows.push(MemoryRow {
            id,
            content: content.to_string(),
            tags: tags.iter().map(|t| t.to_string()).collect(),
            updated_at: updated_at.to_string(),
        });
        id
    }

    fn save(&mut self, content: &str, tags: &[&str]) -> i64 {
        self.save_at(content, tags, "2026-01-01 00:00:00")
    }

    fn has_row(&self, id: i64) -> bool {
        self.rows.iter().any(|r| r.id == id)
    }

    fn apply(&mut self, job: &dyn BackgroundJob) -> JobOutcome {
        let plan = job.run(&self.rows);
        let before = self.rows.len();
        self.rows.retain(|r| !plan.delete.contains(&r.id));
        let deleted = before - self.rows.len();
        let saved = plan.save.len();
        for new in plan.save {
            let tags: Vec<&str> = new.tags.iter().map(|t| t.as_str()).collect();
            self.save(&new.content, &tags);
        }
        job.outcome(JobTally {
            sessions_pruned: 0,
            activities_pruned: 0,
            deleted,
            saved,
        })
    }
}

#[test]
fn background_job_trait_is_object_safe() {
    fn accepts_job(_job: &dyn BackgroundJob) {
        // Compile-time proof only.
    }
    accepts_job(&MemoryConsolidationJob);
}

#[test]
fn background_job_is_send_sync() {
    fn assert_send_sync<T: Send + Sync>() {}
    assert_send_sync::<MemoryConsolidationJob>();
}

#[test]
fn consolidation_job_on_empty_db_succeeds() {
    let outcome = Db::new().apply(&MemoryConsolidationJob);
    assert_eq!(outcome.job_name, "memory_consolidation");
    assert_eq!(outcome.records_pruned, 0);
    assert_eq!(outcome.records_deduped, 0);
}

#[test]
fn consolidation_job_name_is_stable() {
    let job = MemoryConsolidationJob;
    assert_eq!(job.name(), "memory_consolidation");
}

#[test]
fn consolidation_prunes_expired_sessions() {
    assert!(MemoryConsolidationJob.prunes_expired());
    let outcome = MemoryConsolidationJob.outcome(JobTally {
        sessions_pruned: 1,
        activities_pruned: 0,
        deleted: 0,
        saved: 0,
    });
    // 1 session + 0 activities pruned.
    assert_eq!(outcome.records_pruned, 1);
}

#[test]
fn consolidation_deduplicates_archival_entries() {
    let mut db = Db::new();
    // Three entries: two with identical content, one unique.
    let id_a = db.save("duplicate content", &["tag"]);
    let id_b = db.save("duplicate content", &["tag"]);
    let id_unique = db.save("unique content", &[]);

    let outcome = db.apply(&MemoryConsolidationJob);
    assert_eq!(outcome.records_deduped, 1, "one duplicate must be removed");

    // 2 survive: one from the dup group + the unique entry.
    let survivor_count = [id_a, id_b, id_unique]
        .iter()
        .filter(|id| db.has_row(**id))
        .count();
    assert_eq!(survivor_count, 2);
}

#[test]
fn consolidation_keeps_most_recently_updated_duplicate() {
    let mut db = Db::new();
    let id_older = db.save_at("same content", &[], "2026-01-01 00:00:00");
    let id_newer = db.save_at("same content", &[], "2026-01-01 00:00:10");

    let outcome = db.apply(&MemoryConsolidationJob);
    assert_eq!(outcome.records_deduped, 1);

    assert!(!db.has_row(id_older), "older dup removed");
    assert!(db.has_row(id_newer), "newer dup kept");
}

#[test]
fn consolidation_leaves_unique_entries_intact() {
    let mut db = Db::new();
    let id1 = db.save("alpha", &[]);
    let id2 = db.save("beta", &[]);
    let id3 = db.save("gamma", &[]);

    let outcome = db.apply(&MemoryConsolidationJob);
    assert_eq!(outcome.records_deduped, 0);

    assert!(db.has_row(id1));
    assert!(db.has_row(id2));
    assert!(db.has_row(id3));
}

#[test]
fn equally_old_copies_lose_to_one_of_them() {
    let mut db = Db::new();
    let ids = [
        db.save("x", &[]),
        db.save("x", &[]),
        db.save("x", &[]),
    ];
    let gone = dedup_archival(&db.rows);
    assert_eq!(gone.len(), 2);
    assert!(gone.iter().all(|id| ids.contains(id)));
    assert_ne!(gone[0], gone[1]);
}

#[test]
fn job_outcome_equality_and_debug() {
    let a = JobOutcome {
        job_name: "x",
        records_pruned: 1,
        records_deduped: 2,
    };
    let b = a.clone();
    assert_eq!(a, b);
    // Debug must not panic.
    let _ = format!("{a:?}");
}

#[test]
fn scheduler_registers_jobs() {
    let mut sched = JobScheduler::new();
    assert_eq!(sched.job_count(), 0);
    sched.register(MemoryConsolidationJob, 1_000_000_000);
    assert_eq!(sched.job_count(), 1);
}

#[test]
fn scheduler_runs_job_on_first_tick() {
    let mut sched = JobScheduler::new();
    sched.register(MemoryConsolidationJob, ONE_HOUR);
    // First tick: job has never run, so it's always due.
    let due = sched.tick(0);
    assert_eq!(due.len(), 1);
    assert_eq!(sched.job(due[0]).name(), "memory_consolidation");
}

#[test]
fn scheduler_skips_job_before_interval_elapses() {
    let mut sched = JobScheduler::new();
    // Very long interval — job won't be due on the second tick.
    sched.register(MemoryConsolidationJob, ONE_HOUR);
    let first = sched.tick(10);
    assert_eq!(first.len(), 1, "first tick must run the job");

    let second = sched.tick(11);
    assert!(
        second.is_empty(),
        "second tick must skip job (interval not elapsed)"
    );
    assert!(sched.tick(10 + ONE_HOUR - 1).is_empty());
    assert_eq!(sched.tick(10 + ONE_HOUR).len(), 1);
}

#[test]
fn scheduler_runs_multiple_jobs_independently() {
    let mut sched = JobScheduler::new();
    sched.register(MemoryConsolidationJob, ONE_HOUR);
    sched.register(MemoryConsolidationJob, ONE_HOUR);
    let due = sched.tick(0);
    assert_eq!(due.len(), 2, "both jobs must run on first tick");
}

#[test]
fn scheduler_with_zero_interval_always_runs() {
    let mut sched = JobScheduler::new();
    // Zero interval → every tick is due.
    sched.register(MemoryConsolidationJob, 0);
    let first = sched.tick(5);
    let second = sched.tick(5);
    assert_eq!(first.len(), 1);
    assert_eq!(second.len(), 1, "zero interval means always due");
}

struct CountingJob {
    runs: Arc<Mutex<usize>>,
}

impl BackgroundJob for CountingJob {
    fn name(&self) -> &'static str {
        "counting"
    }

    fn prunes_expired(&self) -> bool {
        false
    }

    fn run(&self, _rows: &Vec<MemoryRow>) -> JobPlan {
        *self.runs.lock().unwrap() += 1;
        JobPlan {
            delete: Vec::new(),
            save: Vec::new(),
        }
    }

    fn outcome(&self, _tally: JobTally) -> JobOutcome {
        JobOutcome {
            job_name: self.name(),
            records_pruned: 0,
            records_deduped: 0,
        }
    }
}

#[test]
fn custom_job_integrates_with_scheduler() {
    let counter = Arc::new(Mutex::new(0));
    let mut sched: JobScheduler<Arc<dyn BackgroundJob>> = JobScheduler::new();
    sched.register(
        Arc::new(CountingJob {
            runs: Arc::clone(&counter),
        }),
        0,
    );
    let mut db = Db::new();
    for now in 0..3 {
        for i in sched.tick(now) {
            let outcome = db.apply(sched.job(i).as_ref());
            assert_eq!(outcome.job_name, "counting");
        }
    }
    assert_eq!(*counter.lock().unwrap(), 3);
}

#[test]
fn agent_summary_job_name_is_stable() {
    assert_eq!(AgentSummaryJob.name(), "agent_summary");
}

#[test]
fn agent_summary_job_emits_summary_for_subagent_task() {
    let mut db = Db::new();
    // Two rows for the same subagent task — must be folded into ONE
    // summary row tagged `agent-summary` + `subagent-task:T1`.
    db.save(
        "step 1 — looked up the user",
        &["subagent-task:T1", "tool-output"],
    );
    db.save(
        "step 2 — applied the patch",
        &["subagent-task:T1", "tool-output"],
    );

    let outcome = db.apply(&AgentSummaryJob);
    assert_eq!(outcome.job_name, "agent_summary");
    assert_eq!(outcome.records_deduped, 1, "one summary row created");

    assert!(db
        .rows
        .iter()
        .any(|r| r.content.contains("applied the patch")
            && r.tags.contains(&"agent-summary".to_string())
            && r.tags.contains(&"subagent-task:T1".to_string())));
}

#[test]
fn agent_summary_job_is_idempotent() {
    let mut db = Db::new();
    db.save("subagent step", &["subagent-task:T2"]);

    let first = db.apply(&AgentSummaryJob);
    assert_eq!(first.records_deduped, 1);

    // Second pass must NOT create a new summary row because the task
    // already has one.
    let second = db.apply(&AgentSummaryJob);
    assert_eq!(
        second.records_deduped, 0,
        "AgentSummaryJob must be idempotent across passes"
    );
}

#[test]
fn each_task_is_summed_up_once() {
    let mut db = Db::new();
    db.save("one", &["subagent-task:A"]);
    db.save("two", &["subagent-task:B"]);
    db.save("three", &["subagent-task:A"]);
    db.save("four", &["subagent-task:B"]);
    let save = summarise_tasks(&db.rows);
    assert_eq!(save.len(), 2);
    for task in ["subagent-task:A", "subagent-task:B"] {
        let rows = save.iter().filter(|r| r.tags.contains(&task.to_string()));
        assert_eq!(rows.count(), 1);
    }
}

#[test]
fn long_summaries_are_clipped() {
    let mut db = Db::new();
    db.save(&"ü".repeat(4000), &["subagent-task:T"]);
    db.save("unrelated", &["other"]);
    let save = summarise_tasks(&db.rows);
    assert_eq!(save.len(), 1);
    assert!(save[0].content.len() <= 4096 + 3);
    assert!(save[0].content.len() > 4000);
}

// ── Feature flags ───────────────────────────────────────────────────────

#[test]
fn unknown_flag_defaults_false() {
    let flags = StaticFlags::new();
    assert!(!flags.is_enabled("missing"));
}

#[test]
fn explicit_set_wins_over_default() {
    let flags = StaticFlags::new().with("fast_path", true);
    assert!(flags.is_enabled("fast_path"));
}

#[test]
fn env_var_overrides_map_entry() {
    let mut flags = StaticFlags::new().with("beta_feature", false);
    // With map=false, no env override yet: should be false.
    assert!(!flags.is_enabled("beta_feature"));

    flags.read_variable("OPENCLAUDIA_FEATURE_BETA_FEATURE", Some("1"));
    assert!(flags.is_enabled("beta_feature"));
    flags.read_variable("OPENCLAUDIA_FEATURE_BETA_FEATURE", None);
    assert!(!flags.is_enabled("beta_feature"));
}

#[test]
fn env_var_accepts_truthy_variants() {
    let mut flags = StaticFlags::new();
    for truthy in ["1", "true", "on", "yes", "TRUE", "Yes", "ON"] {
        flags.read_variable("OPENCLAUDIA_FEATURE_GATE", Some(truthy));
        assert!(
            flags.is_enabled("gate"),
            "expected '{truthy}' to count as truthy"
        );
    }
}

#[test]
fn env_var_rejects_non_truthy_variants() {
    let mut flags = StaticFlags::new();
    for falsy in ["0", "false", "off", "no", "random"] {
        flags.read_variable("OPENCLAUDIA_FEATURE_GATE", Some(falsy));
        assert!(
            !flags.is_enabled("gate"),
            "expected '{falsy}' to count as falsy"
        );
    }
}

#[test]
fn env_var_falls_through_to_map_when_unset() {
    let mut flags = StaticFlags::new().with("map_only", true);
    flags.read_variable("OPENCLAUDIA_FEATURE_MAP_ONLY", None);
    assert!(flags.is_enabled("map_only"));
}

#[test]
fn b2_env_var_key_is_prefix_plus_upper_name() {
    let mut flags = StaticFlags::new();
    flags.read_variable("OPENCLAUDIA_FEATURE_SNAKE_CASE_FLAG", Some("1"));
    flags.read_variable("OPENCLAUDIA_FEATURE_snake_case_flag", None);
    assert!(
        flags.is_enabled("snake_case_flag"),
        "env key must be OPENCLAUDIA_FEATURE_SNAKE_CASE_FLAG"
    );
    assert_eq!(
        StaticFlags::variable_of("snake_case_flag"),
        "OPENCLAUDIA_FEATURE_SNAKE_CASE_FLAG"
    );
}

#[test]
fn b2_empty_env_var_evaluates_to_false_not_fallthrough() {
    let mut flags = StaticFlags::new().with("empty_var_flag", true);
    flags.read_variable("OPENCLAUDIA_FEATURE_EMPTY_VAR_FLAG", Some(""));
    // Map has `true`; env var is `""` (not truthy) → env wins with false.
    assert!(
        !flags.is_enabled("empty_var_flag"),
        "empty env var must evaluate to false, not fall through to map=true"
    );
}

#[test]
fn b2_with_builder_is_chainable_and_last_write_wins() {
    let flags = StaticFlags::new()
        .with("overwritten", false)
        .with("overwritten", true);
    assert!(flags.is_enabled("overwritten"));
}

#[test]
fn b2_env_false_overrides_map_true() {
    let mut flags = StaticFlags::new().with("env_wins_flag", true);
    flags.read_variable("OPENCLAUDIA_FEATURE_ENV_WINS_FLAG", Some("0"));
    assert!(
        !flags.is_enabled("env_wins_flag"),
        "falsy env var must override map=true"
    );
}

#[test]
fn b2_unknown_flag_no_env_var_returns_false() {
    let flags = StaticFlags::new();
    assert!(!flags.is_enabled("totally_unknown_xyz"));
}

// ── Diagnostics ─────────────────────────────────────────────────────────

fn d(line: u32, msg: &str, sev: DiagnosticSeverity) -> Diagnostic {
    Diagnostic {
        line,
        character: 0,
        severity: sev,
        message: msg.to_string(),
        source: Some("rust-analyzer".to_string()),
    }
}

#[test]
fn severity_wire_roundtrip() {
    for sev in [
        DiagnosticSeverity::Error,
        DiagnosticSeverity::Warning,
        DiagnosticSeverity::Information,
        DiagnosticSeverity::Hint,
    ] {
        assert_eq!(DiagnosticSeverity::from_wire(sev.wire()), sev);
    }
}

#[test]
fn severity_from_wire_invalid_defaults_information() {
    assert_eq!(
        DiagnosticSeverity::from_wire(99),
        DiagnosticSeverity::Information
    );
}

#[test]
fn registry_set_and_get_round_trips() {
    let mut reg = DiagnosticRegistry::new();
    let diags = vec![d(10, "missing semicolon", DiagnosticSeverity::Error)];
    reg.set("file:///a.rs", diags.clone());
    assert_eq!(reg.get("file:///a.rs"), diags);
}

#[test]
fn registry_set_empty_removes_entry() {
    let mut reg = DiagnosticRegistry::new();
    reg.set("file:///a.rs", vec![d(1, "x", DiagnosticSeverity::Error)]);
    assert_eq!(reg.total(), 1);
    reg.set("file:///a.rs", Vec::new());
    assert_eq!(reg.total(), 0);
}

#[test]
fn registry_caps_per_file() {
    let mut reg = DiagnosticRegistry::with_cap(2);
    let diags = vec![
        d(1, "a", DiagnosticSeverity::Error),
        d(2, "b", DiagnosticSeverity::Warning),
        d(3, "c", DiagnosticSeverity::Hint),
    ];
    reg.set("file:///x.rs", diags);
    assert_eq!(reg.get("file:///x.rs").len(), 2);
}

#[test]
fn registry_drain_empties_state() {
    let mut reg = DiagnosticRegistry::new();
    reg.set("file:///a.rs", vec![d(1, "x", DiagnosticSeverity::Error)]);
    reg.set("file:///b.rs", vec![d(2, "y", DiagnosticSeverity::Warning)]);
    let drained = reg.drain();
    assert_eq!(drained.len(), 2);
    assert_eq!(reg.total(), 0);
}

#[test]
fn noop_injector_returns_none() {
    let mut map = StringMap::new();
    map.insert(
        "file:///a.rs".to_string(),
        vec![d(1, "x", DiagnosticSeverity::Error)],
    );
    assert!(NoopDiagnosticInjector.render(&map).is_none());
}

#[test]
fn default_injector_renders_block() {
    let mut map = StringMap::new();
    map.insert(
        "file:///a.rs".to_string(),
        vec![d(10, "unused variable", DiagnosticSeverity::Warning)],
    );
    let body = DefaultDiagnosticInjector.render(&map).unwrap();
    assert!(body.starts_with("<lsp-diagnostics>"));
    assert!(body.ends_with("</lsp-diagnostics>"));
    assert!(body.contains("file:///a.rs"));
    assert!(body.contains("warning at 10:0: unused variable"));
    assert!(body.contains("(rust-analyzer)"));
}

#[test]
fn default_injector_empty_input_returns_none() {
    let map = StringMap::new();
    assert!(DefaultDiagnosticInjector.render(&map).is_none());
}

// ── Language servers ────────────────────────────────────────────────────

/// Stands for a spawned server; spawning counts.
fn acquire(
    pool: &mut LspServerManager<usize>,
    spawned: &mut usize,
    language: &str,
    now: u128,
) -> ChildHandle<usize> {
    match pool.acquire(language, now) {
        Some(handle) => handle,
        None => {
            *spawned += 1;
            ChildHandle::new(language.to_string(), *spawned, now)
        }
    }
}

#[test]
fn acquire_then_release_reuses_handle() {
    let mut count = 0;
    let mut mgr = LspServerManager::new();

    let handle1 = acquire(&mut mgr, &mut count, "rust", 0);
    assert_eq!(count, 1);
    assert!(mgr.release(handle1, 1).is_none());
    assert_eq!(mgr.len(), 1);

    // Second acquire must NOT spawn — it reuses the pooled handle.
    let handle2 = acquire(&mut mgr, &mut count, "rust", 2);
    assert_eq!(count, 1, "no second spawn");
    assert_eq!(handle2.last_used, 2);
    mgr.release(handle2, 3);
    assert_eq!(mgr.kill_all().len(), 1);
}

#[test]
fn different_languages_get_independent_handles() {
    let mut count = 0;
    let mut mgr = LspServerManager::new();

    let rust = acquire(&mut mgr, &mut count, "rust", 0);
    let go = acquire(&mut mgr, &mut count, "go", 0);
    assert_eq!(count, 2);
    mgr.release(rust, 0);
    mgr.release(go, 0);
    assert_eq!(mgr.len(), 2);
    mgr.kill_all();
}

#[test]
fn reap_idle_evicts_old_entries() {
    let mut count = 0;
    // Set TTL to zero so any pooled handle is immediately stale.
    let mut mgr = LspServerManager::with_ttl(0);

    let h = acquire(&mut mgr, &mut count, "rust", 0);
    mgr.release(h, 0);
    assert_eq!(mgr.len(), 1);

    let reaped = mgr.reap_idle(5_000_000);
    assert_eq!(reaped.len(), 1);
    assert!(mgr.is_empty());
}

#[test]
fn kill_all_drains_the_pool() {
    let mut count = 0;
    let mut mgr = LspServerManager::new();
    let h = acquire(&mut mgr, &mut count, "rust", 0);
    mgr.release(h, 0);
    assert_eq!(mgr.len(), 1);
    mgr.kill_all();
    assert!(mgr.is_empty());
}

#[test]
fn idle_times_are_told_to_the_nanosecond() {
    let mut mgr = LspServerManager::with_ttl(500_000);
    mgr.release(ChildHandle::new("rust".to_string(), 1, 0), 0);
    assert!(mgr.reap_idle(500_000).is_empty());
    assert_eq!(mgr.reap_idle(500_001).len(), 1);
    let mut mgr = LspServerManager::with_ttl(0);
    mgr.release(ChildHandle::new("rust".to_string(), 1, 0), 7);
    assert!(mgr.reap_idle(7).is_empty());
    assert_eq!(mgr.reap_idle(400_007).len(), 1);
}

#[test]
fn used_servers_are_not_reaped() {
    let mut mgr = LspServerManager::new();
    mgr.release(ChildHandle::new("rust".to_string(), 1, 0), 100);
    mgr.release(ChildHandle::new("go".to_string(), 2, 0), 0);
    let reaped = mgr.reap_idle(DEFAULT_IDLE_TTL + 1);
    assert_eq!(reaped.len(), 1);
    assert_eq!(reaped[0].language, "go");
    assert_eq!(mgr.len(), 1);
    // A second server for the language pushes the first one out.
    assert_eq!(
        mgr.release(ChildHandle::new("rust".to_string(), 3, 0), 200),
        Some(1)
    );
}

// ── Plugin servers ──────────────────────────────────────────────────────

fn make_reg(plugin: &str, name: &str) -> McpRegistration {
    McpRegistration {
        plugin_id: plugin.into(),
        server_name: name.into(),
        spec: McpServerSpec {
            command: Some("foo".into()),
            args: vec![],
            env: StringMap::new(),
            transport: "stdio".into(),
            url: None,
        },
    }
}

#[test]
fn replace_plugin_with_empty_removes_entries() {
    let mut r = PluginMcpRegistry::default();
    r.replace_plugin("p", vec![make_reg("p", "a"), make_reg("p", "b")]);
    assert_eq!(r.count(), 2);

    r.replace_plugin("p", vec![]);
    assert_eq!(
        r.count(),
        0,
        "empty registrations must drop the plugin entry"
    );
}

#[test]
fn replace_plugin_is_per_plugin_atomic() {
    let mut r = PluginMcpRegistry::default();
    r.replace_plugin("p1", vec![make_reg("p1", "a")]);
    r.replace_plugin("p2", vec![make_reg("p2", "b")]);
    // Swap p1's contents; p2 is untouched.
    r.replace_plugin("p1", vec![make_reg("p1", "c"), make_reg("p1", "d")]);

    assert_eq!(r.for_plugin("p1").len(), 2);
    assert_eq!(r.for_plugin("p2").len(), 1);
    assert_eq!(r.count(), 3);
}

#[test]
fn remove_plugin_drops_only_its_entries() {
    let mut r = PluginMcpRegistry::default();
    r.replace_plugin("p1", vec![make_reg("p1", "a")]);
    r.replace_plugin("p2", vec![make_reg("p2", "b")]);
    r.remove_plugin("p1");
    assert!(r.for_plugin("p1").is_empty());
    assert_eq!(r.for_plugin("p2").len(), 1);
}

fn python_config() -> McpServerConfig {
    let mut env = StringMap::new();
    env.insert("X".to_string(), "1".to_string());
    McpServerConfig {
        command: Some("python".into()),
        args: vec!["-m".into(), "server".into()],
        env,
        transport: "stdio".into(),
        url: None,
    }
}

#[test]
fn spec_round_trips_from_manifest_config() {
    let spec = McpServerSpec::from_plugin_config(&python_config());
    assert_eq!(spec.command.as_deref(), Some("python"));
    assert_eq!(spec.args, vec!["-m", "server"]);
    assert_eq!(spec.env.get("X").map(String::as_str), Some("1"));
    assert_eq!(spec.transport, "stdio");
    assert!(spec.url.is_none());
}

// ── Registry ────────────────────────────────────────────────────────────

#[test]
fn default_registry_is_noop_everywhere() {
    let reg = ServiceRegistry::default();
    reg.analytics().record(AnalyticsEvent::SessionStart {
        session_id: "s".to_string(),
    });
    assert!(!reg.flags().is_enabled("any_flag"));
}

#[test]
fn with_analytics_swaps_sink() {
    let sink = recording();
    let reg = ServiceRegistry::noop().with_analytics(sink.clone());
    reg.analytics().record(AnalyticsEvent::ToolUsed {
        tool: "bash".to_string(),
        success: true,
    });
    let events = sink.events.lock().unwrap();
    assert_eq!(events.len(), 1);
    assert!(matches!(events[0], AnalyticsEvent::ToolUsed { .. }));
}

#[test]
fn with_flags_swaps_source() {
    let mut flags = StaticFlags::default();
    flags.set("fast_path", true);
    let reg = ServiceRegistry::noop().with_flags(Arc::new(flags));
    assert!(reg.flags().is_enabled("fast_path"));
    assert!(!reg.flags().is_enabled("slow_path"));
}

#[test]
fn registry_is_clone() {
    // The two handles point at the same sinks. A test sink receiving events through either
    // handle sees them in the same vector.
    let sink = recording();
    let reg = ServiceRegistry::noop().with_analytics(sink.clone());
    let clone = reg.clone();

    reg.analytics().record(AnalyticsEvent::SessionStart {
        session_id: "a".to_string(),
    });
    clone.analytics().record(AnalyticsEvent::SessionEnd {
        session_id: "a".to_string(),
        messages: 10,
    });

    assert_eq!(sink.events.lock().unwrap().len(), 2);
}

#[test]
fn handles_outlive_the_registry() {
    let sink = recording();
    let reg = ServiceRegistry::noop().with_analytics(sink.clone());
    let analytics = reg.analytics_arc();
    let flags = reg.flags_arc();
    drop(reg);
    analytics.record(AnalyticsEvent::SessionStart {
        session_id: "b".to_string(),
    });
    assert_eq!(sink.events.lock().unwrap().len(), 1);
    assert!(!flags.is_enabled("x"));
}

#[test]
fn plugins_are_wired_once() {
    let mut configs = StringMap::new();
    configs.insert("server".to_string(), python_config());
    let plugins = vec![
        Plugin {
            id: "p".to_string(),
            mcp_configs: configs,
        },
        Plugin {
            id: "q".to_string(),
            mcp_configs: StringMap::new(),
        },
    ];
    let reg = ServiceRegistry::noop();
    let clone = reg.clone();
    let mut servers = PluginMcpRegistry::default();
    reg.wire_plugin_mcp_servers(&mut servers, &plugins);
    clone.wire_plugin_mcp_servers(&mut servers, &plugins);
    let all = reg.plugin_mcp_registrations(&servers);
    assert_eq!(all.len(), 1);
    assert_eq!(clone.plugin_mcp_registrations(&servers).len(), 1);
    assert_eq!(servers.count(), 1);
    servers.replace_plugin("p", Vec::new());
    assert_eq!(servers.count(), 0);
    assert_eq!(all[0].plugin_id, "p");
    assert_eq!(all[0].server_name, "server");
    assert_eq!(all[0].spec.command.as_deref(), Some("python"));
}

// ── Policy ──────────────────────────────────────────────────────────────

#[test]
fn empty_allowlist_lets_every_model_through() {
    let p = EnterprisePolicy::default();
    assert!(p.check_model("any-model").is_ok());
}

#[test]
fn populated_allowlist_rejects_unknown_models() {
    let mut p = EnterprisePolicy::default();
    p.model_allowlist.insert("sonnet-4-5".to_string());
    assert!(p.check_model("sonnet-4-5").is_ok());
    let err = p.check_model("gpt-4").unwrap_err();
    assert!(matches!(err, PolicyError::ModelDenied { .. }));
}

#[test]
fn request_token_cap_enforced() {
    let p = EnterprisePolicy {
        max_request_tokens: Some(100),
        ..Default::default()
    };
    assert!(p.check_request_tokens(50).is_ok());
    assert!(p.check_request_tokens(100).is_ok());
    let err = p.check_request_tokens(101).unwrap_err();
    match err {
        PolicyError::TokenCapExceeded { scope, .. } => assert_eq!(scope, "request"),
        other => panic!("wrong variant: {other:?}"),
    }
}

#[test]
fn session_token_cap_enforced() {
    let p = EnterprisePolicy {
        max_session_tokens: Some(1000),
        ..Default::default()
    };
    assert!(p.check_session_tokens(999).is_ok());
    let err = p.check_session_tokens(1001).unwrap_err();
    match err {
        PolicyError::TokenCapExceeded { scope, .. } => assert_eq!(scope, "session"),
        other => panic!("wrong variant: {other:?}"),
    }
}

fn capped(tool: &str, cap: usize) -> PolicyEnforcer {
    let mut caps = ToolCaps::new();
    caps.insert(tool.to_string(), cap);
    PolicyEnforcer::new(EnterprisePolicy {
        tool_caps: caps,
        ..Default::default()
    })
}

#[test]
fn tool_caps_block_after_n_invocations() {
    let mut enforcer = capped("bash", 2);

    assert_eq!(
        enforcer.evaluate_tool_call("s1", "bash"),
        PolicyDecision::Allow
    );
    enforcer.record_tool_invocation("s1", "bash");
    assert_eq!(
        enforcer.evaluate_tool_call("s1", "bash"),
        PolicyDecision::Allow
    );
    enforcer.record_tool_invocation("s1", "bash");
    assert_eq!(
        enforcer.evaluate_tool_call("s1", "bash"),
        PolicyDecision::Deny
    );

    // Different session has its own counter.
    assert_eq!(
        enforcer.evaluate_tool_call("s2", "bash"),
        PolicyDecision::Allow
    );
}

#[test]
fn check_and_record_combines_predicate_and_counter() {
    let mut enforcer = capped("edit_file", 1);
    assert!(enforcer.check_and_record_tool("s", "edit_file").is_ok());
    let err = enforcer
        .check_and_record_tool("s", "edit_file")
        .unwrap_err();
    assert!(matches!(err, PolicyError::ToolCapExceeded { .. }));
}

#[test]
fn refusals_tell_how_often_a_tool_ran() {
    let mut enforcer = capped("bash", 2);
    for _ in 0..3 {
        enforcer.record_tool_invocation("s", "bash");
    }
    assert_eq!(
        enforcer.check_tool("s", "bash"),
        Err(PolicyError::ToolCapExceeded {
            tool: "bash".to_string(),
            cap: 2,
            consumed: 3
        })
    );
}

#[test]
fn reset_session_drops_per_session_counts() {
    let mut enforcer = capped("bash", 1);
    enforcer.record_tool_invocation("s", "bash");
    assert_eq!(
        enforcer.evaluate_tool_call("s", "bash"),
        PolicyDecision::Deny
    );
    enforcer.reset_session("s");
    assert_eq!(
        enforcer.evaluate_tool_call("s", "bash"),
        PolicyDecision::Allow
    );
}

#[test]
fn provider_request_policy_checks_model_and_token_projection() {
    let mut policy = EnterprisePolicy {
        max_request_tokens: Some(100),
        max_session_tokens: Some(150),
        ..Default::default()
    };
    policy.model_allowlist.insert("allowed-model".to_string());
    let gate = ProviderRequestPolicy::new(&policy);

    gate.check(ProviderRequestPolicyInput {
        model: "allowed-model",
        estimated_input_tokens: 40,
        output_token_budget: 50,
        cumulative_session_tokens: 60,
    })
    .expect("60 + 40 + 50 should be accepted at the cap");

    let denied_model = gate
        .check(ProviderRequestPolicyInput::new(
            "denied-model",
            40,
            Some(50),
            60,
            DEFAULT_MAX_TOKENS,
        ))
        .unwrap_err();
    assert!(matches!(denied_model, PolicyError::ModelDenied { .. }));

    let denied_request = gate
        .check(ProviderRequestPolicyInput::new(
            "allowed-model",
            101,
            Some(0),
            0,
            DEFAULT_MAX_TOKENS,
        ))
        .unwrap_err();
    assert!(matches!(
        denied_request,
        PolicyError::TokenCapExceeded {
            scope: "request",
            ..
        }
    ));

    let denied_session = gate
        .check(ProviderRequestPolicyInput::new(
            "allowed-model",
            50,
            Some(50),
            51,
            DEFAULT_MAX_TOKENS,
        ))
        .unwrap_err();
    assert!(matches!(
        denied_session,
        PolicyError::TokenCapExceeded {
            scope: "session",
            ..
        }
    ));
}

#[test]
fn tool_execution_policy_noops_without_policy_state() {
    let mut gate = ToolExecutionPolicy::new(None, Some("session"));
    assert!(gate.check_and_record_tool("bash").is_ok());

    let mut enforcer = capped("bash", 0);
    let mut gate = ToolExecutionPolicy::new(Some(&mut enforcer), None);
    assert!(gate.check_and_record_tool("bash").is_ok());
}

#[test]
fn tool_execution_policy_enforces_when_session_and_enforcer_exist() {
    let mut enforcer = capped("bash", 1);
    let mut gate = ToolExecutionPolicy::new(Some(&mut enforcer), Some("s1"));

    assert!(gate.check_and_record_tool("bash").is_ok());
    let err = gate.check_and_record_tool("bash").unwrap_err();
    assert!(matches!(err, PolicyError::ToolCapExceeded { .. }));
}

#[test]
fn tool_execution_policy_dry_run_does_not_consume_cap() {
    let mut enforcer = capped("bash", 1);
    let mut gate = ToolExecutionPolicy::new(Some(&mut enforcer), Some("s1"));

    assert!(gate.check_tool("bash").is_ok());
    assert!(gate.check_tool("bash").is_ok());
    assert!(gate.check_and_record_tool("bash").is_ok());
    let err = gate.check_tool("bash").unwrap_err();
    assert!(matches!(err, PolicyError::ToolCapExceeded { .. }));
}

#[test]
fn policy_errors_say_what_was_refused() {
    let denied = PolicyError::ModelDenied {
        model: "m".to_string(),
    };
    assert!(denied.message().contains("m"));
    let tokens = PolicyError::TokenCapExceeded {
        estimated: 101,
        cap: 100,
        scope: "request",
    };
    assert!(tokens.message().contains("101"));
    assert!(tokens.message().contains("100"));
    let err = capped("bash", 0).check_and_record_tool("s", "bash").unwrap_err();
    assert_eq!(
        err,
        PolicyError::ToolCapExceeded {
            tool: "bash".to_string(),
            cap: 0,
            consumed: 0
        }
    );
    assert!(err.message().contains("bash"));
}

#[test]
fn projections_saturate() {
    assert_eq!(projected_session_policy_tokens(60, 40, 50), 150);
    assert_eq!(
        projected_session_policy_tokens(u64::MAX, 1, 1),
        usize::MAX
    );
    assert_eq!(request_output_token_budget(Some(7), DEFAULT_MAX_TOKENS), 7);
    assert_eq!(
        request_output_token_budget(None, DEFAULT_MAX_TOKENS),
        DEFAULT_MAX_TOKENS as usize
    );
}

// ── Rate limits ─────────────────────────────────────────────────────────

#[test]
fn dormant_lets_every_request_through() {
    let mut mock = MockRateLimit::dormant();
    for _ in 0..5 {
        assert_eq!(mock.next_response(), MockResponse::Proceed);
    }
}

#[test]
fn throttle_next_decrements_count() {
    let mut mock = MockRateLimit::dormant();
    mock.throttle_next(2, Duration::from_secs(7), "test quota");

    let MockResponse::Throttle {
        retry_after,
        reason,
    } = mock.next_response()
    else {
        panic!("expected throttle");
    };
    assert_eq!(retry_after, Duration::from_secs(7));
    assert_eq!(reason, "test quota");

    // Second call also throttles.
    assert!(matches!(
        mock.next_response(),
        MockResponse::Throttle { .. }
    ));

    // Third call is back to Proceed because the counter exhausted.
    assert_eq!(mock.next_response(), MockResponse::Proceed);
}

#[test]
fn record_call_counts() {
    let mut mock = MockRateLimit::dormant();
    for _ in 0..3 {
        mock.record_call();
    }
    assert_eq!(mock.calls_recorded(), 3);
}

#[test]
fn kill_switch_disables_pending_throttle() {
    let mut mock = MockRateLimit::dormant();
    mock.throttle_next(5, Duration::from_secs(1), "x");
    mock.set_enabled(false);
    assert_eq!(mock.next_response(), MockResponse::Proceed);
    mock.set_enabled(true);
    assert!(matches!(
        mock.next_response(),
        MockResponse::Throttle { .. }
    ));
}

#[test]
fn reset_clears_state() {
    let mut mock = MockRateLimit::dormant();
    mock.throttle_next(3, Duration::from_secs(1), "x");
    mock.record_call();
    mock.reset();
    assert_eq!(mock.next_response(), MockResponse::Proceed);
    assert_eq!(mock.calls_recorded(), 0);
}

// ── Tool executor ───────────────────────────────────────────────────────

fn bash_call(command: &str) -> ToolCall {
    ToolCall {
        id: "call_bash".to_string(),
        call_type: "function".to_string(),
        function: FunctionCall {
            name: "bash".to_string(),
            arguments: format!("{{\"command\":\"{command}\"}}"),
        },
    }
}

#[test]
fn tool_executor_enforces_policy_before_dispatch() {
    let mut enforcer = capped("bash", 0);
    let call = bash_call("printf tool-executor-should-not-run");

    let step = ToolExecutor::execute(ToolExecutorRequest {
        tool_call: &call,
        permission_already_checked: false,
        session_id: Some("s1"),
        policy_enforcer: Some(&mut enforcer),
    });

    let ToolDispatch::Blocked(result) = step else {
        panic!("the call must be blocked");
    };
    assert!(result.is_error);
    assert_eq!(result.tool_call_id, "call_bash");
    assert!(result.content.contains("Blocked by policy"));
    assert!(!result.content.contains("tool-executor-should-not-run"));
}

#[test]
fn tool_executor_uses_checked_dispatch_without_nested_permission() {
    let call = bash_call("printf tool-executor-ok");

    let step = ToolExecutor::execute(ToolExecutorRequest {
        tool_call: &call,
        permission_already_checked: true,
        session_id: Some("s2"),
        policy_enforcer: None,
    });

    assert!(matches!(
        step,
        ToolDispatch::Run {
            check_permissions: false
        }
    ));
}

#[test]
fn executed_calls_are_counted() {
    let mut enforcer = capped("bash", 1);
    let call = bash_call("true");
    assert!(
        ToolExecutor::check_policy_before_prompt(Some(&enforcer), Some("s"), "bash").is_ok()
    );
    let step = ToolExecutor::execute(ToolExecutorRequest {
        tool_call: &call,
        permission_already_checked: false,
        session_id: Some("s"),
        policy_enforcer: Some(&mut enforcer),
    });
    assert!(matches!(
        step,
        ToolDispatch::Run {
            check_permissions: true
        }
    ));
    assert!(
        ToolExecutor::check_policy_before_prompt(Some(&enforcer), Some("s"), "bash").is_err()
    );
    assert!(ToolExecutor::check_policy_before_prompt(Some(&enforcer), None, "bash").is_ok());
}

#[test]
fn arguments_are_an_object() {
    let (args, value) = ToolExecutor::parse_arguments_map("bash", r#"{"command": "ls"}"#).unwrap();
    assert_eq!(args.get("command"), Some(&Json::string("ls")));
    assert_eq!(value, json::parse(r#"{"command": "ls"}"#).unwrap());
    assert_eq!(
        ToolExecutor::parse_arguments("bash", "[1]").unwrap_err(),
        "Invalid tool arguments JSON for 'bash': expected a JSON object, got array"
    );
    assert!(ToolExecutor::parse_arguments("bash", "{")
        .unwrap_err()
        .starts_with("Invalid tool arguments JSON for 'bash': EOF while parsing"));
    for (text, name) in [
        ("null", "null"),
        ("true", "boolean"),
        ("1", "number"),
        ("\"x\"", "string"),
        ("[]", "array"),
        ("{}", "object"),
    ] {
        assert_eq!(json_value_type_name(&json::parse(text).unwrap()), name);
    }
}

#[test]
fn hooks_block_with_a_reason() {
    assert!(ToolExecutor::run_pre_tool_use("bash", None).is_ok());
    let block = ToolExecutor::run_pre_tool_use("bash", Some("no shell")).unwrap_err();
    assert_eq!(
        block,
        ToolExecutionBlock {
            content: "Tool 'bash' blocked by PreToolUse hook: no shell".to_string()
        }
    );
    let result = block.into_tool_result("call".to_string());
    assert!(result.is_error);
    assert_eq!(result.tool_call_id, "call");
    assert!(result.content.contains("no shell"));
}

#[test]
fn the_most_recent_diagnostics_are_kept() {
    let diagnostic = |line: u32, message: &str| Diagnostic {
        line,
        character: 0,
        severity: DiagnosticSeverity::Error,
        message: message.to_string(),
        source: None,
    };
    let mut reg = DiagnosticRegistry::with_cap(2);
    let list = vec![diagnostic(1, "a"), diagnostic(2, "b"), diagnostic(3, "c")];
    reg.set("file:///x.rs", list);
    let kept = reg.get("file:///x.rs");
    assert_eq!(kept, vec![diagnostic(2, "b"), diagnostic(3, "c")]);
    assert_eq!(reg.total(), 2);
    for uri in ["file:///y.rs", "file:///z.rs", "file:///y.rs"] {
        reg.set(uri, vec![diagnostic(1, "a"), diagnostic(2, "b"), diagnostic(3, "c")]);
    }
    assert_eq!(reg.total(), 6);
    let drained = reg.drain();
    assert_eq!(drained.len(), 3);
    assert_eq!(reg.total(), 0);
    assert!(reg.drain().is_empty());
}
