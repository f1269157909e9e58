//! Session state types: token usage, turn metrics, plan mode.

use vstd::prelude::*;

use crate::clock::Timestamp;
use crate::json::{self, Json, JsonView};
use crate::text;

verus! {

/// Token usage from a single API response.
#[derive(Clone, Copy, Debug, PartialEq, Eq, Structural)]
pub struct TokenUsage {
    /// Input tokens billed.
    pub input_tokens: u64,
    /// Output tokens billed.
    pub output_tokens: u64,
    /// Tokens read from cache (reduced cost).
    pub cache_read_tokens: u64,
    /// Tokens written to cache.
    pub cache_write_tokens: u64,
}

impl Default for TokenUsage {
    fn default() -> (u: TokenUsage)
        ensures
            u == no_usage(),
    {
        TokenUsage {
            input_tokens: 0,
            output_tokens: 0,
            cache_read_tokens: 0,
            cache_write_tokens: 0,
        }
    }
}

/// No tokens of any kind.
pub open spec fn no_usage() -> TokenUsage {
    TokenUsage { input_tokens: 0, output_tokens: 0, cache_read_tokens: 0, cache_write_tokens: 0 }
}

/// Input and output tokens together.
pub open spec fn usage_total(u: TokenUsage) -> int {
    u.input_tokens + u.output_tokens
}

/// Each kind of tokens of `a` and `b` together fits its counter.
pub open spec fn usage_fits(a: TokenUsage, b: TokenUsage) -> bool {
    &&& a.input_tokens + b.input_tokens <= u64::MAX
    &&& a.output_tokens + b.output_tokens <= u64::MAX
    &&& a.cache_read_tokens + b.cache_read_tokens <= u64::MAX
    &&& a.cache_write_tokens + b.cache_write_tokens <= u64::MAX
}

/// Each kind of tokens added up.
pub open spec fn usage_sum(a: TokenUsage, b: TokenUsage) -> TokenUsage {
    TokenUsage {
        input_tokens: (a.input_tokens + b.input_tokens) as u64,
        output_tokens: (a.output_tokens + b.output_tokens) as u64,
        cache_read_tokens: (a.cache_read_tokens + b.cache_read_tokens) as u64,
        cache_write_tokens: (a.cache_write_tokens + b.cache_write_tokens) as u64,
    }
}

impl TokenUsage {
    /// Total tokens (input + output).
    pub fn total(&self) -> (n: u64)
        requires
            usage_total(*self) <= u64::MAX,
        ensures
            n == usage_total(*self),
    {
        self.input_tokens + self.output_tokens
    }

    /// Accumulate usage from another `TokenUsage`.
    pub fn accumulate(&mut self, other: &TokenUsage)
        requires
            usage_fits(*old(self), *other),
        ensures
            *final(self) == usage_sum(*old(self), *other),
    {
        self.input_tokens = self.input_tokens + other.input_tokens;
        self.output_tokens = self.output_tokens + other.output_tokens;
        self.cache_read_tokens = self.cache_read_tokens + other.cache_read_tokens;
        self.cache_write_tokens = self.cache_write_tokens + other.cache_write_tokens;
    }
}

/// The order in which usages are added up makes no difference.
pub proof fn usage_adds_up_in_any_order(a: TokenUsage, b: TokenUsage, c: TokenUsage)
    requires
        usage_fits(a, b),
        usage_fits(usage_sum(a, b), c),
    ensures
        usage_sum(a, b) == usage_sum(b, a),
        usage_fits(b, c),
        usage_fits(a, usage_sum(b, c)),
        usage_sum(usage_sum(a, b), c) == usage_sum(a, usage_sum(b, c)),
        usage_sum(a, no_usage()) == a,
        usage_total(usage_sum(a, b)) == usage_total(a) + usage_total(b),
{
}

/// Extra provider usage metadata not measured in tokens.
///
/// Stands beside [`TokenUsage`]. All zero unless there is something to report.
#[derive(Clone, Copy, Debug, PartialEq, Eq, Structural)]
pub struct UsageExtras {
    /// Web searches that the provider ran.
    pub web_search_requests: u64,
}

impl Default for UsageExtras {
    fn default() -> (e: UsageExtras)
        ensures
            e.web_search_requests == 0,
    {
        UsageExtras { web_search_requests: 0 }
    }
}

impl UsageExtras {
    /// Accumulate one set of extras into another.
    pub fn accumulate(&mut self, other: &UsageExtras)
        requires
            old(self).web_search_requests + other.web_search_requests <= u64::MAX,
        ensures
            final(self).web_search_requests == old(self).web_search_requests
                + other.web_search_requests,
    {
        self.web_search_requests = self.web_search_requests + other.web_search_requests;
    }
}

/// Metrics for a single API turn (round-trip).
#[derive(Clone, Copy, Debug, PartialEq, Eq, Structural)]
pub struct TurnMetrics {
    /// Turn number within the session.
    pub turn_number: u64,
    /// Pre-request estimated input tokens.
    pub estimated_input_tokens: usize,
    /// Actual usage reported by the provider, once it is there.
    pub actual_usage: Option<TokenUsage>,
    /// Tokens consumed by injected context (rules, hooks, session, MCP tools).
    pub injected_context_tokens: usize,
    /// Tokens consumed by system prompt.
    pub system_prompt_tokens: usize,
    /// Tokens consumed by tool definitions.
    pub tool_def_tokens: usize,
    /// When this turn occurred.
    pub timestamp: Timestamp,
    /// Adversarial iterations this turn, under review.
    pub vdd_iterations: Option<u32>,
    /// Genuine findings of the review.
    pub vdd_genuine_findings: Option<u32>,
    /// False positives of the review.
    pub vdd_false_positives: Option<u32>,
    /// Tokens used by the adversary model.
    pub vdd_adversary_tokens: Option<TokenUsage>,
    /// Whether the review converged.
    pub vdd_converged: Option<bool>,
}

/// An allowed prompt constraint for plan mode exit.
#[derive(Clone, Debug, PartialEq, Eq)]
pub struct AllowedPrompt {
    /// Tool name this prompt applies to.
    pub tool: String,
    /// Prompt/description for the allowed operation.
    pub prompt: String,
}

/// Plan mode state for the agent session.
///
/// `plan_realpath` is the canonical absolute path of the plan file, found once
/// when plan mode is entered. Later checks compare against it and never resolve
/// the path anew.
#[derive(Clone, Debug)]
pub struct PlanModeState {
    /// Whether plan mode is currently active.
    pub active: bool,
    /// The path originally asked for, for display only.
    pub plan_file: String,
    /// The canonical absolute path of the plan file.
    pub plan_realpath: String,
    /// Allowed prompts when exiting plan mode.
    pub allowed_prompts: Vec<AllowedPrompt>,
    /// Lowercase token of the agent mode that was active when plan mode was entered, so
    /// that leaving plan mode can restore it.
    pub previous_mode: Option<String>,
}

/// Why plan mode could not be entered, with the path that was asked for.
#[derive(Clone, Debug, PartialEq, Eq)]
pub enum PlanModeEntryError {
    /// The plan file does not exist on disk.
    PlanFileMissing { path: String },
    /// The plan file path is a symlink.
    PlanFileIsSymlink { path: String },
    /// The plan file is not a regular file (directory, FIFO, socket, etc).
    PlanFileNotRegular { path: String },
    /// The plan file could not be canonicalized.
    CanonicalizeFailed { path: String, source: String },
    /// The plan file could not be opened or inspected.
    OpenFailed { path: String, source: String },
}

/// What a failure to enter plan mode says.
pub enum EntryErrorView {
    Missing(Seq<char>),
    IsSymlink(Seq<char>),
    NotRegular(Seq<char>),
    CanonicalizeFailed(Seq<char>, Seq<char>),
    OpenFailed(Seq<char>, Seq<char>),
}

impl View for PlanModeEntryError {
    type V = EntryErrorView;

    open spec fn view(&self) -> EntryErrorView {
        match self {
            PlanModeEntryError::PlanFileMissing { path } => EntryErrorView::Missing(path@),
            PlanModeEntryError::PlanFileIsSymlink { path } => EntryErrorView::IsSymlink(path@),
            PlanModeEntryError::PlanFileNotRegular { path } => EntryErrorView::NotRegular(path@),
            PlanModeEntryError::CanonicalizeFailed { path, source } =>
                EntryErrorView::CanonicalizeFailed(path@, source@),
            PlanModeEntryError::OpenFailed { path, source } => EntryErrorView::OpenFailed(
                path@,
                source@,
            ),
        }
    }
}

/// The message for a failure to enter plan mode.
pub open spec fn entry_error_text(e: EntryErrorView) -> Seq<char> {
    match e {
        EntryErrorView::Missing(path) => "plan file does not exist: "@ + path,
        EntryErrorView::IsSymlink(path) => "plan file path is a symlink (not allowed): "@ + path,
        EntryErrorView::NotRegular(path) => "plan file is not a regular file: "@ + path,
        EntryErrorView::CanonicalizeFailed(path, source) => "failed to canonicalize plan file "@
            + path + ": "@ + source,
        EntryErrorView::OpenFailed(path, source) => "failed to open plan file "@ + path + ": "@
            + source,
    }
}

impl PlanModeEntryError {
    /// The message for the failure.
    pub fn message(&self) -> (out: String)
        ensures
            out@ == entry_error_text(self@),
    {
        match self {
            PlanModeEntryError::PlanFileMissing { path } => "plan file does not exist: ".to_owned().concat(
                path.as_str(),
            ),
            PlanModeEntryError::PlanFileIsSymlink {
                path,
            } => "plan file path is a symlink (not allowed): ".to_owned().concat(path.as_str()),
            PlanModeEntryError::PlanFileNotRegular {
                path,
            } => "plan file is not a regular file: ".to_owned().concat(path.as_str()),
            PlanModeEntryError::CanonicalizeFailed {
                path,
                source,
            } => "failed to canonicalize plan file ".to_owned().concat(path.as_str()).concat(
                ": ",
            ).concat(source.as_str()),
            PlanModeEntryError::OpenFailed {
                path,
                source,
            } => "failed to open plan file ".to_owned().concat(path.as_str()).concat(": ").concat(
                source.as_str(),
            ),
        }
    }
}

/// Why the file system did not answer a question.
#[derive(Debug)]
pub struct FileFault {
    /// Whether there is nothing at the path.
    pub not_found: bool,
    /// The fault in words.
    pub text: String,
}

/// What can be asked about a path, in the order in which it is asked.
#[derive(Clone, Copy, Debug, PartialEq, Eq, Structural)]
pub enum FileQuestion {
    /// Whether the path itself is a symlink.
    IsSymlink,
    /// Whether it can be opened; the file stays open from here on.
    Open,
    /// Whether the open file is a regular file.
    IsRegular,
    /// What the canonical path is.
    Realpath,
}

/// The answers to the questions about a path, as far as they have been asked.
#[derive(Debug)]
pub struct FileAnswers {
    pub is_symlink: Option<Result<bool, FileFault>>,
    pub open: Option<Result<(), FileFault>>,
    pub is_regular: Option<Result<bool, FileFault>>,
    pub realpath: Option<Result<String, FileFault>>,
}

/// The question to put next, if the answers leave one: each question is put only where
/// the answers before it speak for a regular file that is no symlink.
pub open spec fn open_question(a: FileAnswers) -> Option<FileQuestion> {
    match a.is_symlink {
        None => Some(FileQuestion::IsSymlink),
        Some(Ok(false)) => match a.open {
            None => Some(FileQuestion::Open),
            Some(Ok(())) => match a.is_regular {
                None => Some(FileQuestion::IsRegular),
                Some(Ok(true)) => match a.realpath {
                    None => Some(FileQuestion::Realpath),
                    Some(_) => None,
                },
                Some(_) => None,
            },
            Some(_) => None,
        },
        Some(_) => None,
    }
}

/// The canonical path, if all four questions were answered as for a regular file that is
/// no symlink.
pub open spec fn pinned_realpath(a: FileAnswers) -> Option<Seq<char>> {
    match (a.is_symlink, a.open, a.is_regular, a.realpath) {
        (Some(Ok(false)), Some(Ok(())), Some(Ok(true)), Some(Ok(p))) => Some(p@),
        _ => None,
    }
}

impl FileAnswers {
    /// Nothing asked yet.
    pub fn none() -> (a: FileAnswers)
        ensures
            a.is_symlink is None,
            a.open is None,
            a.is_regular is None,
            a.realpath is None,
    {
        FileAnswers { is_symlink: None, open: None, is_regular: None, realpath: None }
    }

    /// The question to put next, if the answers leave one.
    pub fn next_question(&self) -> (q: Option<FileQuestion>)
        ensures
            q == open_question(*self),
    {
        match &self.is_symlink {
            None => Some(FileQuestion::IsSymlink),
            Some(Ok(false)) => match &self.open {
                None => Some(FileQuestion::Open),
                Some(Ok(())) => match &self.is_regular {
                    None => Some(FileQuestion::IsRegular),
                    Some(Ok(true)) => match &self.realpath {
                        None => Some(FileQuestion::Realpath),
                        Some(_) => None,
                    },
                    Some(_) => None,
                },
                Some(_) => None,
            },
            Some(_) => None,
        }
    }
}

/// How the file system's refusal to inspect or open the plan file is reported.
pub open spec fn open_fault(path: Seq<char>, fault: FileFault) -> EntryErrorView {
    if fault.not_found {
        EntryErrorView::Missing(path)
    } else {
        EntryErrorView::OpenFailed(path, fault.text@)
    }
}

/// Why plan mode cannot be entered, once the questions are answered.
pub open spec fn entry_refusal(path: Seq<char>, a: FileAnswers) -> Option<EntryErrorView> {
    match a.is_symlink {
        None => None,
        Some(Err(fault)) => Some(open_fault(path, fault)),
        Some(Ok(true)) => Some(EntryErrorView::IsSymlink(path)),
        Some(Ok(false)) => match a.open {
            None => None,
            Some(Err(fault)) => Some(open_fault(path, fault)),
            Some(Ok(())) => match a.is_regular {
                None => None,
                Some(Err(fault)) => Some(EntryErrorView::OpenFailed(path, fault.text@)),
                Some(Ok(false)) => Some(EntryErrorView::NotRegular(path)),
                Some(Ok(true)) => match a.realpath {
                    Some(Err(fault)) => Some(
                        EntryErrorView::CanonicalizeFailed(path, fault.text@),
                    ),
                    _ => None,
                },
            },
        },
    }
}

fn open_fault_error(path: &str, fault: &FileFault) -> (e: PlanModeEntryError)
    ensures
        e@ == open_fault(path@, *fault),
{
    if fault.not_found {
        PlanModeEntryError::PlanFileMissing { path: path.to_owned() }
    } else {
        PlanModeEntryError::OpenFailed { path: path.to_owned(), source: fault.text.clone() }
    }
}

/// Plan mode was entered on `plan_file`, which is the file `realpath`.
pub open spec fn entered(
    state: PlanModeState,
    plan_file: Seq<char>,
    realpath: Seq<char>,
    previous_mode: Option<Seq<char>>,
) -> bool {
    &&& state.active
    &&& state.plan_file@ == plan_file
    &&& state.plan_realpath@ == realpath
    &&& state.allowed_prompts@.len() == 0
    &&& text::opt_view(state.previous_mode) == previous_mode
}

impl PlanModeState {
    /// Enter plan mode on a plan file whose identity `answers` pins down. `None` as long
    /// as a question is open.
    pub fn enter(plan_file: String, answers: &FileAnswers) -> (r: Option<
        Result<PlanModeState, PlanModeEntryError>,
    >)
        ensures
            match r {
                None => open_question(*answers) is Some,
                Some(Err(e)) => entry_refusal(plan_file@, *answers) == Some(e@),
                Some(Ok(state)) => pinned_realpath(*answers) is Some && entered(
                    state,
                    plan_file@,
                    pinned_realpath(*answers)->0,
                    None,
                ),
            },
    {
        PlanModeState::enter_with_previous_mode(plan_file, None, answers)
    }

    /// Enter plan mode and remember the agent mode that was active before.
    ///
    /// `previous_mode` is the lowercase token of that mode; with `None` leaving plan mode
    /// falls back to the default mode.
    pub fn enter_with_previous_mode(
        plan_file: String,
        previous_mode: Option<String>,
        answers: &FileAnswers,
    ) -> (r: Option<Result<PlanModeState, PlanModeEntryError>>)
        ensures
            match r {
                None => open_question(*answers) is Some,
                Some(Err(e)) => entry_refusal(plan_file@, *answers) == Some(e@),
                Some(Ok(state)) => pinned_realpath(*answers) is Some && entered(
                    state,
                    plan_file@,
                    pinned_realpath(*answers)->0,
                    text::opt_view(previous_mode),
                ),
            },
    {
        match &answers.is_symlink {
            None => {
                return None;
            },
            Some(Err(fault)) => {
                return Some(Err(open_fault_error(plan_file.as_str(), fault)));
            },
            Some(Ok(true)) => {
                return Some(Err(PlanModeEntryError::PlanFileIsSymlink { path: plan_file }));
            },
            Some(Ok(false)) => {},
        }
        match &answers.open {
            None => {
                return None;
            },
            Some(Err(fault)) => {
                return Some(Err(open_fault_error(plan_file.as_str(), fault)));
            },
            Some(Ok(())) => {},
        }
        match &answers.is_regular {
            None => {
                return None;
            },
            Some(Err(fault)) => {
                return Some(
                    Err(
                        PlanModeEntryError::OpenFailed {
                            path: plan_file,
                            source: fault.text.clone(),
                        },
                    ),
                );
            },
            Some(Ok(false)) => {
                return Some(Err(PlanModeEntryError::PlanFileNotRegular { path: plan_file }));
            },
            Some(Ok(true)) => {},
        }
        match &answers.realpath {
            None => None,
            Some(Err(fault)) => Some(
                Err(
                    PlanModeEntryError::CanonicalizeFailed {
                        path: plan_file,
                        source: fault.text.clone(),
                    },
                ),
            ),
            Some(Ok(realpath)) => Some(
                Ok(
                    PlanModeState {
                        active: true,
                        plan_file,
                        plan_realpath: realpath.clone(),
                        allowed_prompts: Vec::new(),
                        previous_mode,
                    },
                ),
            ),
        }
    }
}

/// Exactly one of three things holds of the answers about a plan file: a question is
/// open, entry is refused, or the file is pinned to a canonical path.
pub proof fn plan_entry_is_decided(path: Seq<char>, a: FileAnswers)
    ensures
        open_question(a) is Some <==> entry_refusal(path, a) is None && pinned_realpath(a) is None,
        entry_refusal(path, a) is Some ==> open_question(a) is None && pinned_realpath(a) is None,
        pinned_realpath(a) is Some ==> open_question(a) is None && entry_refusal(path, a) is None,
{
}

/// Tools that are allowed in plan mode (read-only + user interaction).
///
/// A tool that is not in this list is refused, wherever it comes from, unless it manages
/// plan mode itself or writes the plan file.
pub open spec fn plan_tools() -> Seq<Seq<char>> {
    seq![
        "read_file"@,
        "grounding_context"@,
        "list_files"@,
        "grep"@,
        "web_fetch"@,
        "web_search"@,
        "web_browser"@,
        "ask_user_question"@,
        "task"@,
        "agent_output"@,
        "todo_read"@,
        "crosslink"@,
        "bash_output"@,
    ]
}

/// Tools that are allowed in plan mode (read-only + user interaction).
pub fn plan_mode_allowed_tools() -> (tools: Vec<&'static str>)
    ensures
        text::str_views(tools@) == plan_tools(),
{
    let tools: Vec<&'static str> = vec![
        "read_file",
        "grounding_context",
        "list_files",
        "grep",
        "web_fetch",
        "web_search",
        "web_browser",
        "ask_user_question",
        "task",
        "agent_output",
        "todo_read",
        "crosslink",
        "bash_output",
    ];
    assert(text::str_views(tools@) =~= plan_tools());
    tools
}

/// MCP tool name prefix.
///
/// MCP servers register tools as `mcp__<server>__<tool>`. What such a tool does cannot be
/// told from here, so plan mode refuses it.
pub const MCP_TOOL_PREFIX: &'static str = "mcp__";

/// Plugin tool name prefix.
///
/// Plugin tools follow `plugin__<plugin>__<tool>` and are refused for the same reason.
pub const PLUGIN_TOOL_PREFIX: &'static str = "plugin__";

/// Policy for plan-mode tool gating.
///
/// By default every MCP and plugin tool is refused. A flag lifts the refusal by prefix
/// only: the name must still be in the list of allowed tools.
#[derive(Clone, Copy, Debug, PartialEq, Eq, Structural)]
pub struct PlanModePolicy {
    /// Permit `mcp__*` tools to be considered by the allowlist.
    pub allow_mcp_tools: bool,
    /// Permit `plugin__*` tools to be considered by the allowlist.
    pub allow_plugin_tools: bool,
}

impl Default for PlanModePolicy {
    fn default() -> (p: PlanModePolicy)
        ensures
            p == default_policy(),
    {
        PlanModePolicy { allow_mcp_tools: false, allow_plugin_tools: false }
    }
}

/// No MCP tools, no plugin tools.
pub open spec fn default_policy() -> PlanModePolicy {
    PlanModePolicy { allow_mcp_tools: false, allow_plugin_tools: false }
}

/// The policy refuses the tool for where it comes from.
pub open spec fn refused_by_prefix(tool: Seq<char>, policy: PlanModePolicy) -> bool {
    ||| MCP_TOOL_PREFIX@.is_prefix_of(tool) && !policy.allow_mcp_tools
    ||| PLUGIN_TOOL_PREFIX@.is_prefix_of(tool) && !policy.allow_plugin_tools
}

/// The tool manages plan mode itself.
pub open spec fn is_plan_marker(tool: Seq<char>) -> bool {
    tool == "enter_plan_mode"@ || tool == "exit_plan_mode"@
}

/// The arguments name a path, and the answers about it pin it to the plan file.
pub open spec fn writes_plan_file(
    realpath: Seq<char>,
    args: JsonView,
    target: FileAnswers,
) -> bool {
    json::str_opt(json::member(args, "path"@)) is Some && pinned_realpath(target) == Some(realpath)
}

/// The tool may run in plan mode.
pub open spec fn plan_allows(
    tool: Seq<char>,
    realpath: Seq<char>,
    args: JsonView,
    policy: PlanModePolicy,
    target: FileAnswers,
) -> bool {
    &&& !refused_by_prefix(tool, policy)
    &&& {
        ||| is_plan_marker(tool)
        ||| tool == "write_file"@ && writes_plan_file(realpath, args, target)
        ||| tool != "write_file"@ && plan_tools().contains(tool)
    }
}

/// Check if a tool is allowed in plan mode, under the default policy.
///
/// `target` holds the answers about the path that the arguments name; it matters for
/// `write_file` only, and a question left open refuses. Both canonical paths are compared
/// as they stand.
pub fn is_tool_allowed_in_plan_mode(
    tool_name: &str,
    plan_realpath: &str,
    args: &Json,
    target: &FileAnswers,
) -> (allowed: bool)
    ensures
        allowed == plan_allows(tool_name@, plan_realpath@, args@, default_policy(), *target),
{
    is_tool_allowed_in_plan_mode_with_policy(
        tool_name,
        plan_realpath,
        args,
        PlanModePolicy::default(),
        target,
    )
}

/// Check if a tool is allowed in plan mode.
///
/// 1. `mcp__*` / `plugin__*` names are refused unless the policy lifts that.
/// 2. `enter_plan_mode` / `exit_plan_mode` are allowed.
/// 3. `write_file` is allowed only onto the plan file.
/// 4. A name in [`plan_mode_allowed_tools`] is allowed.
/// 5. Anything else is refused.
pub fn is_tool_allowed_in_plan_mode_with_policy(
    tool_name: &str,
    plan_realpath: &str,
    args: &Json,
    policy: PlanModePolicy,
    target: &FileAnswers,
) -> (allowed: bool)
    ensures
        allowed == plan_allows(tool_name@, plan_realpath@, args@, policy, *target),
{
    if text::starts_with(tool_name, MCP_TOOL_PREFIX) && !policy.allow_mcp_tools {
        return false;
    }
    if text::starts_with(tool_name, PLUGIN_TOOL_PREFIX) && !policy.allow_plugin_tools {
        return false;
    }
    if text::str_eq(tool_name, "enter_plan_mode") || text::str_eq(tool_name, "exit_plan_mode") {
        return true;
    }
    if text::str_eq(tool_name, "write_file") {
        if args.get_str("path").is_none() {
            return false;
        }
        return match (&target.is_symlink, &target.open, &target.is_regular, &target.realpath) {
            (Some(Ok(false)), Some(Ok(())), Some(Ok(true)), Some(Ok(path))) => text::str_eq(
                path.as_str(),
                plan_realpath,
            ),
            _ => false,
        };
    }
    text::listed(&plan_mode_allowed_tools(), tool_name)
}

/// The path whose questions must be answered before `write_file` can be judged.
pub fn plan_write_target<'a>(tool_name: &str, args: &'a Json) -> (path: Option<&'a str>)
    ensures
        json::str_view(path) == (if tool_name@ == "write_file"@ {
            json::str_opt(json::member(args@, "path"@))
        } else {
            None
        }),
{
    if text::str_eq(tool_name, "write_file") {
        args.get_str("path")
    } else {
        None
    }
}

/// Nothing but the listed tools, the two that manage plan mode and a write of the plan
/// file gets through, under any policy.
pub proof fn plan_mode_denies_by_default(
    tool: Seq<char>,
    realpath: Seq<char>,
    args: JsonView,
    policy: PlanModePolicy,
    target: FileAnswers,
)
    requires
        plan_allows(tool, realpath, args, policy, target),
    ensures
        plan_tools().contains(tool) || is_plan_marker(tool) || (tool == "write_file"@
            && pinned_realpath(target) == Some(realpath)),
{
}

proof fn lemma_first_letter(prefix: Seq<char>, name: Seq<char>)
    requires
        prefix.len() > 0,
        prefix.is_prefix_of(name),
    ensures
        name.len() > 0,
        name[0] == prefix[0],
{
    assert(name.subrange(0, prefix.len() as int)[0] == name[0]);
}

/// MCP and plugin tools are refused under every policy: no flag lets one through, as no
/// name with such a prefix is in the list.
pub proof fn plan_mode_denies_outside_tools(
    tool: Seq<char>,
    realpath: Seq<char>,
    args: JsonView,
    policy: PlanModePolicy,
    target: FileAnswers,
)
    requires
        MCP_TOOL_PREFIX@.is_prefix_of(tool) || PLUGIN_TOOL_PREFIX@.is_prefix_of(tool),
    ensures
        !plan_allows(tool, realpath, args, policy, target),
{
    reveal_strlit("mcp__");
    reveal_strlit("plugin__");
    reveal_strlit("read_file");
    reveal_strlit("grounding_context");
    reveal_strlit("list_files");
    reveal_strlit("grep");
    reveal_strlit("web_fetch");
    reveal_strlit("web_search");
    reveal_strlit("web_browser");
    reveal_strlit("ask_user_question");
    reveal_strlit("task");
    reveal_strlit("agent_output");
    reveal_strlit("todo_read");
    reveal_strlit("crosslink");
    reveal_strlit("bash_output");
    reveal_strlit("enter_plan_mode");
    reveal_strlit("exit_plan_mode");
    reveal_strlit("write_file");
    if MCP_TOOL_PREFIX@.is_prefix_of(tool) {
        lemma_first_letter(MCP_TOOL_PREFIX@, tool);
    } else {
        lemma_first_letter(PLUGIN_TOOL_PREFIX@, tool);
    }
    assert(tool[0] == 'm' || tool[0] == 'p');
    if plan_tools().contains(tool) {
        let i = choose|i: int| 0 <= i < plan_tools().len() && plan_tools()[i] == tool;
        assert(plan_tools()[i][0] != 'm' && plan_tools()[i][0] != 'p');
    }
    assert("enter_plan_mode"@[0] == 'e');
    assert("exit_plan_mode"@[0] == 'e');
    assert("write_file"@[0] == 'w');
}

/// A write through a symlink is refused, and so is one to a path that cannot be resolved.
pub proof fn plan_mode_denies_unpinned_writes(
    realpath: Seq<char>,
    args: JsonView,
    policy: PlanModePolicy,
    target: FileAnswers,
)
    requires
        target.is_symlink == Some(Ok::<bool, FileFault>(true)) || pinned_realpath(target) is None,
    ensures
        !plan_allows("write_file"@, realpath, args, policy, target),
{
    reveal_strlit("write_file");
    reveal_strlit("enter_plan_mode");
    reveal_strlit("exit_plan_mode");
    assert("write_file"@.len() == 10);
    assert("enter_plan_mode"@.len() == 15);
    assert("exit_plan_mode"@.len() == 14);
}

/// Usage is added kind by kind.
pub proof fn each_kind_of_tokens_adds_up(a: TokenUsage, b: TokenUsage)
    requires
        usage_fits(a, b),
    ensures
        usage_sum(a, b).input_tokens == a.input_tokens + b.input_tokens,
        usage_sum(a, b).output_tokens == a.output_tokens + b.output_tokens,
        usage_sum(a, b).cache_read_tokens == a.cache_read_tokens + b.cache_read_tokens,
        usage_sum(a, b).cache_write_tokens == a.cache_write_tokens + b.cache_write_tokens,
        usage_total(a) == a.input_tokens + a.output_tokens,
{
}

/// A plan file is refused for the first thing that is wrong with it: it is missing, or a
/// symlink, or cannot be opened, or is no regular file, or has no canonical path.
pub proof fn plan_files_are_refused(path: Seq<char>, a: FileAnswers, fault: FileFault)
    ensures
        a.is_symlink == Some(Ok::<bool, FileFault>(true)) ==> entry_refusal(path, a) == Some(
            EntryErrorView::IsSymlink(path),
        ),
        a.is_symlink == Some(Err::<bool, FileFault>(fault)) && fault.not_found ==> entry_refusal(
            path,
            a,
        ) == Some(EntryErrorView::Missing(path)),
        a.is_symlink == Some(Err::<bool, FileFault>(fault)) && !fault.not_found ==> entry_refusal(
            path,
            a,
        ) == Some(EntryErrorView::OpenFailed(path, fault.text@)),
        a.is_symlink == Some(Ok::<bool, FileFault>(false)) && a.open == Some(
            Err::<(), FileFault>(fault),
        ) && fault.not_found ==> entry_refusal(path, a) == Some(EntryErrorView::Missing(path)),
        a.is_symlink == Some(Ok::<bool, FileFault>(false)) && a.open == Some(
            Ok::<(), FileFault>(()),
        ) && a.is_regular == Some(Ok::<bool, FileFault>(false)) ==> entry_refusal(path, a) == Some(
            EntryErrorView::NotRegular(path),
        ),
        a.is_symlink == Some(Ok::<bool, FileFault>(false)) && a.open == Some(
            Ok::<(), FileFault>(()),
        ) && a.is_regular == Some(Ok::<bool, FileFault>(true)) && a.realpath == Some(
            Err::<String, FileFault>(fault),
        ) ==> entry_refusal(path, a) == Some(
            EntryErrorView::CanonicalizeFailed(path, fault.text@),
        ),
{
}

/// A plan file that is a regular file and no symlink is pinned to its canonical path, and no
/// other file is pinned.
pub proof fn plan_files_are_pinned(a: FileAnswers, p: String)
    ensures
        a.is_symlink == Some(Ok::<bool, FileFault>(false)) && a.open == Some(
            Ok::<(), FileFault>(()),
        ) && a.is_regular == Some(Ok::<bool, FileFault>(true)) && a.realpath == Some(
            Ok::<String, FileFault>(p),
        ) ==> pinned_realpath(a) == Some(p@),
        a.is_symlink != Some(Ok::<bool, FileFault>(false)) ==> pinned_realpath(a) is None,
        !(a.open matches Some(Ok(_))) ==> pinned_realpath(a) is None,
        a.is_regular != Some(Ok::<bool, FileFault>(true)) ==> pinned_realpath(a) is None,
{
}

/// The errors on a plan file name its path.
pub proof fn plan_errors_name_the_path(path: Seq<char>, source: Seq<char>)
    ensures
        path.is_suffix_of(entry_error_text(EntryErrorView::Missing(path))),
        path.is_suffix_of(entry_error_text(EntryErrorView::IsSymlink(path))),
        path.is_suffix_of(entry_error_text(EntryErrorView::NotRegular(path))),
        (path + ": "@ + source).is_suffix_of(
            entry_error_text(EntryErrorView::CanonicalizeFailed(path, source)),
        ),
        (path + ": "@ + source).is_suffix_of(
            entry_error_text(EntryErrorView::OpenFailed(path, source)),
        ),
{
    lemma_told_last("plan file does not exist: "@, path);
    lemma_told_last("plan file path is a symlink (not allowed): "@, path);
    lemma_told_last("plan file is not a regular file: "@, path);
    let both = path + ": "@ + source;
    lemma_told_last("failed to canonicalize plan file "@, both);
    lemma_told_last("failed to open plan file "@, both);
    assert("failed to canonicalize plan file "@ + path + ": "@ + source
        =~= "failed to canonicalize plan file "@ + both);
    assert("failed to open plan file "@ + path + ": "@ + source =~= "failed to open plan file "@
        + both);
}

proof fn lemma_told_last(a: Seq<char>, b: Seq<char>)
    ensures
        b.is_suffix_of(a + b),
{
    assert((a + b).subrange(a.len() as int, (a + b).len() as int) =~= b);
}

/// Tools that change something or run something are denied in plan mode, whatever their
/// arguments and whatever the policy: a shell, an edit, a task list.
pub proof fn plan_mode_changes_nothing(
    realpath: Seq<char>,
    args: JsonView,
    policy: PlanModePolicy,
    target: FileAnswers,
)
    ensures
        !plan_allows("bash"@, realpath, args, policy, target),
        !plan_allows("edit_file"@, realpath, args, policy, target),
        !plan_allows("todo_write"@, realpath, args, policy, target),
        !plan_allows("kill_shell"@, realpath, args, policy, target),
{
    lemma_not_a_plan_tool("bash"@);
    lemma_not_a_plan_tool("edit_file"@);
    lemma_not_a_plan_tool("todo_write"@);
    lemma_not_a_plan_tool("kill_shell"@);
    reveal_strlit("bash");
    reveal_strlit("edit_file");
    reveal_strlit("todo_write");
    reveal_strlit("kill_shell");
}

/// A text that is told from every tool of plan mode by its length or its first letters.
proof fn lemma_not_a_plan_tool(tool: Seq<char>)
    ensures
        tool == "bash"@ || tool == "edit_file"@ || tool == "todo_write"@ || tool == "kill_shell"@
            ==> !plan_tools().contains(tool) && !is_plan_marker(tool) && tool != "write_file"@,
{
    reveal_strlit("read_file");
    reveal_strlit("grounding_context");
    reveal_strlit("list_files");
    reveal_strlit("grep");
    reveal_strlit("web_fetch");
    reveal_strlit("web_search");
    reveal_strlit("web_browser");
    reveal_strlit("ask_user_question");
    reveal_strlit("task");
    reveal_strlit("agent_output");
    reveal_strlit("todo_read");
    reveal_strlit("crosslink");
    reveal_strlit("bash_output");
    reveal_strlit("enter_plan_mode");
    reveal_strlit("exit_plan_mode");
    reveal_strlit("write_file");
    reveal_strlit("bash");
    reveal_strlit("edit_file");
    reveal_strlit("todo_write");
    reveal_strlit("kill_shell");
    let list = plan_tools();
    if tool == "bash"@ || tool == "edit_file"@ || tool == "todo_write"@ || tool == "kill_shell"@ {
        assert forall|i: int| 0 <= i < list.len() implies list[i] != tool by {
            if list[i] == tool {
                assert(list[i].len() == tool.len());
                assert(list[i][0] == tool[0]);
            }
        }
        assert("write_file"@.len() == 10 && "write_file"@[0] == 'w');
        assert("enter_plan_mode"@.len() == 15);
        assert("exit_plan_mode"@.len() == 14);
        assert(tool[0] != 'w' && tool.len() <= 10);
    }
}

/// The tools that only look are allowed in plan mode, whatever their arguments.
pub proof fn plan_mode_lets_tools_look(
    realpath: Seq<char>,
    args: JsonView,
    policy: PlanModePolicy,
    target: FileAnswers,
)
    ensures
        plan_allows("read_file"@, realpath, args, policy, target),
        plan_allows("list_files"@, realpath, args, policy, target),
        plan_allows("grep"@, realpath, args, policy, target),
        plan_allows("web_fetch"@, realpath, args, policy, target),
        plan_allows("web_search"@, realpath, args, policy, target),
        plan_allows("ask_user_question"@, realpath, args, policy, target),
        plan_allows("exit_plan_mode"@, realpath, args, policy, target),
        plan_allows("enter_plan_mode"@, realpath, args, policy, target),
{
    reveal_strlit("read_file");
    reveal_strlit("list_files");
    reveal_strlit("grep");
    reveal_strlit("web_fetch");
    reveal_strlit("web_search");
    reveal_strlit("ask_user_question");
    reveal_strlit("exit_plan_mode");
    reveal_strlit("enter_plan_mode");
    reveal_strlit("write_file");
    reveal_strlit("mcp__");
    reveal_strlit("plugin__");
    lemma_not_prefixed("read_file"@);
    lemma_not_prefixed("list_files"@);
    lemma_not_prefixed("grep"@);
    lemma_not_prefixed("web_fetch"@);
    lemma_not_prefixed("web_search"@);
    lemma_not_prefixed("ask_user_question"@);
    lemma_not_prefixed("exit_plan_mode"@);
    lemma_not_prefixed("enter_plan_mode"@);
    let list = plan_tools();
    assert(list[0] == "read_file"@ && list[2] == "list_files"@ && list[3] == "grep"@);
    assert(list[4] == "web_fetch"@ && list[5] == "web_search"@ && list[7]
        == "ask_user_question"@);
    assert("read_file"@[0] != "write_file"@[0] && "list_files"@[0] != "write_file"@[0]);
    assert("grep"@[0] != "write_file"@[0] && "web_fetch"@[1] != "write_file"@[1]);
    assert("web_search"@[1] != "write_file"@[1] && "ask_user_question"@[0] != "write_file"@[0]);
}

proof fn lemma_not_prefixed(tool: Seq<char>)
    ensures
        tool.len() > 0 && tool[0] != 'm' && tool[0] != 'p' ==> !MCP_TOOL_PREFIX@.is_prefix_of(tool)
            && !PLUGIN_TOOL_PREFIX@.is_prefix_of(tool),
{
    reveal_strlit("mcp__");
    reveal_strlit("plugin__");
    if MCP_TOOL_PREFIX@.is_prefix_of(tool) {
        assert(tool.subrange(0, 5)[0] == tool[0]);
    }
    if PLUGIN_TOOL_PREFIX@.is_prefix_of(tool) {
        assert(tool.subrange(0, 8)[0] == tool[0]);
    }
}

/// A file is written in plan mode where it is the plan file, and nowhere else.
pub proof fn plan_mode_writes_the_plan(
    realpath: Seq<char>,
    args: JsonView,
    path: Seq<char>,
    policy: PlanModePolicy,
    target: FileAnswers,
)
    requires
        json::member(args, "path"@) == Some(JsonView::Str(path)),
    ensures
        plan_allows("write_file"@, realpath, args, policy, target) <==> pinned_realpath(target)
            == Some(realpath),
{
    reveal_strlit("write_file");
    reveal_strlit("enter_plan_mode");
    reveal_strlit("exit_plan_mode");
    lemma_not_prefixed("write_file"@);
    assert("write_file"@.len() == 10);
    assert("enter_plan_mode"@.len() == 15);
    assert("exit_plan_mode"@.len() == 14);
}

} // verus!
