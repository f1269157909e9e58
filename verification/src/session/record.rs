//! A session: what it has done, what it has used, and what it hands over.

use vstd::prelude::*;

use super::state::{
    no_usage, usage_fits, usage_sum, usage_total, TokenUsage, TurnMetrics,
};
use crate::clock::{self, Timestamp};
use crate::ids;
use crate::scan;
use crate::text;

verus! {

/// Maximum number of entries retained in [`Session::turn_metrics`].
///
/// Once it is reached the oldest entry makes room for the new one. The cumulative usage
/// goes on counting all turns.
pub const MAX_TURN_METRICS: usize = 1_000;

/// Why a session id cannot name a file, or `None`.
pub open spec fn file_id_error(id: Seq<char>) -> Option<Seq<char>> {
    if id.len() == 0 {
        Some("session id must not be empty"@)
    } else if text::utf8_len(id) > 128 {
        Some("session id must be 128 bytes or fewer"@)
    } else if forall|i: int| 0 <= i < id.len() ==> is_file_id_char(#[trigger] id[i]) {
        None
    } else {
        Some("session id must contain only ASCII letters, numbers, or '-'"@)
    }
}

/// An ASCII letter, a digit or a hyphen.
pub open spec fn is_file_id_char(c: char) -> bool {
    'a' <= c <= 'z' || 'A' <= c <= 'Z' || '0' <= c <= '9' || c == '-'
}

/// Checks that a session id can name a file.
pub fn validate_session_file_id(id: &str) -> (r: Result<(), &'static str>)
    ensures
        match r {
            Ok(()) => file_id_error(id@) is None,
            Err(reason) => file_id_error(id@) == Some(reason@),
        },
{
    if id.is_empty() {
        return Err("session id must not be empty");
    }
    if text::byte_len(id) > 128 {
        return Err("session id must be 128 bytes or fewer");
    }
    let chars = text::chars_of(id);
    let mut i: usize = 0;
    while i < chars.len()
        invariant
            0 <= i <= chars@.len(),
            chars@ == id@,
            id@.len() > 0,
            text::utf8_len(id@) <= 128,
            forall|j: int| 0 <= j < i ==> is_file_id_char(#[trigger] id@[j]),
        decreases chars@.len() - i,
    {
        let c = chars[i];
        let good = ('a' <= c && c <= 'z') || ('A' <= c && c <= 'Z') || ('0' <= c && c <= '9') || c
            == '-';
        if !good {
            assert(!is_file_id_char(id@[i as int]));
            return Err("session id must contain only ASCII letters, numbers, or '-'");
        }
        i += 1;
    }
    Ok(())
}

/// An id that can name a file names nothing outside its directory: it holds no separator
/// and no dot.
pub proof fn file_ids_hold_no_path(id: Seq<char>, i: int)
    requires
        file_id_error(id) is None,
        0 <= i < id.len(),
    ensures
        id[i] != '/',
        id[i] != '\\',
        id[i] != '.',
{
    assert(is_file_id_char(id[i]));
}

/// Session state indicating the agent mode.
#[derive(Clone, Copy, Debug, PartialEq, Eq, Structural)]
pub enum SessionMode {
    /// First session - creates initial context.
    Initializer,
    /// Subsequent sessions - continues from handoff.
    Coding,
}

impl SessionMode {
    /// The name of the mode.
    pub open spec fn text(self) -> Seq<char> {
        match self {
            SessionMode::Initializer => "Initializer"@,
            SessionMode::Coding => "Coding"@,
        }
    }

    /// The name of the mode.
    pub fn as_str(&self) -> (s: &'static str)
        ensures
            s@ == self.text(),
    {
        match self {
            SessionMode::Initializer => "Initializer",
            SessionMode::Coding => "Coding",
        }
    }
}

/// Progress tracking for a session.
#[derive(Clone, Debug)]
pub struct SessionProgress {
    /// Tasks completed in this session.
    pub completed_tasks: Vec<String>,
    /// Tasks in progress.
    pub in_progress_tasks: Vec<String>,
    /// Tasks pending.
    pub pending_tasks: Vec<String>,
    /// Key decisions made.
    pub decisions: Vec<String>,
    /// Files modified.
    pub files_modified: Vec<String>,
    /// Notes for next session.
    pub handoff_notes: String,
    /// Total findings across all reviews.
    pub vdd_total_findings: u32,
    /// Total genuine findings.
    pub vdd_total_genuine: u32,
    /// Ids of the reviews in this session.
    pub vdd_sessions: Vec<String>,
}

/// What progress says.
#[verifier::ext_equal]
pub struct ProgressView {
    pub completed_tasks: Seq<Seq<char>>,
    pub in_progress_tasks: Seq<Seq<char>>,
    pub pending_tasks: Seq<Seq<char>>,
    pub decisions: Seq<Seq<char>>,
    pub files_modified: Seq<Seq<char>>,
    pub handoff_notes: Seq<char>,
    pub vdd_total_findings: u32,
    pub vdd_total_genuine: u32,
    pub vdd_sessions: Seq<Seq<char>>,
}

impl View for SessionProgress {
    type V = ProgressView;

    open spec fn view(&self) -> ProgressView {
        ProgressView {
            completed_tasks: text::views(self.completed_tasks@),
            in_progress_tasks: text::views(self.in_progress_tasks@),
            pending_tasks: text::views(self.pending_tasks@),
            decisions: text::views(self.decisions@),
            files_modified: text::views(self.files_modified@),
            handoff_notes: self.handoff_notes@,
            vdd_total_findings: self.vdd_total_findings,
            vdd_total_genuine: self.vdd_total_genuine,
            vdd_sessions: text::views(self.vdd_sessions@),
        }
    }
}

/// No progress yet.
pub open spec fn no_progress() -> ProgressView {
    ProgressView {
        completed_tasks: seq![],
        in_progress_tasks: seq![],
        pending_tasks: seq![],
        decisions: seq![],
        files_modified: seq![],
        handoff_notes: seq![],
        vdd_total_findings: 0,
        vdd_total_genuine: 0,
        vdd_sessions: seq![],
    }
}

impl Default for SessionProgress {
    fn default() -> (p: SessionProgress)
        ensures
            p@ == no_progress(),
    {
        let p = SessionProgress {
            completed_tasks: Vec::new(),
            in_progress_tasks: Vec::new(),
            pending_tasks: Vec::new(),
            decisions: Vec::new(),
            files_modified: Vec::new(),
            handoff_notes: String::new(),
            vdd_total_findings: 0,
            vdd_total_genuine: 0,
            vdd_sessions: Vec::new(),
        };
        assert(p@ =~= no_progress());
        p
    }
}

/// A single agent session.
#[derive(Clone, Debug)]
pub struct Session {
    /// Unique session identifier.
    pub id: String,
    /// Session mode (initializer or coding).
    pub mode: SessionMode,
    /// When the session started.
    pub created_at: Timestamp,
    /// When the session was last updated.
    pub updated_at: Timestamp,
    /// Session progress tracking.
    pub progress: SessionProgress,
    /// Parent session id if this is a continuation.
    pub parent_session_id: Option<String>,
    /// Number of API requests in this session.
    pub request_count: u64,
    /// Cumulative token usage across all turns, from which the total is derived.
    pub cumulative_usage: TokenUsage,
    /// A total that older session files carry. It is read and never written back.
    pub legacy_total_tokens: Option<u64>,
    /// Per-turn metrics history (capped at [`MAX_TURN_METRICS`] entries).
    pub turn_metrics: Vec<TurnMetrics>,
    /// Count of all turns ever recorded, those no longer retained among them.
    pub total_turns: u64,
}

/// What a session says.
#[verifier::ext_equal]
pub struct SessionData {
    pub id: Seq<char>,
    pub mode: SessionMode,
    pub created_at: Timestamp,
    pub updated_at: Timestamp,
    pub progress: ProgressView,
    pub parent_session_id: Option<Seq<char>>,
    pub request_count: u64,
    pub cumulative_usage: TokenUsage,
    pub legacy_total_tokens: Option<u64>,
    pub turn_metrics: Seq<TurnMetrics>,
    pub total_turns: u64,
}

impl Session {
    /// What the session says.
    pub open spec fn data(&self) -> SessionData {
        SessionData {
            id: self.id@,
            mode: self.mode,
            created_at: self.created_at,
            updated_at: self.updated_at,
            progress: self.progress@,
            parent_session_id: text::opt_view(self.parent_session_id),
            request_count: self.request_count,
            cumulative_usage: self.cumulative_usage,
            legacy_total_tokens: self.legacy_total_tokens,
            turn_metrics: self.turn_metrics@,
            total_turns: self.total_turns,
        }
    }
}

/// A session as it starts.
pub open spec fn fresh_session(
    id: Seq<char>,
    parent: Option<Seq<char>>,
    now: Timestamp,
) -> SessionData {
    SessionData {
        id,
        mode: if parent is Some {
            SessionMode::Coding
        } else {
            SessionMode::Initializer
        },
        created_at: now,
        updated_at: now,
        progress: no_progress(),
        parent_session_id: parent,
        request_count: 0,
        cumulative_usage: no_usage(),
        legacy_total_tokens: None,
        turn_metrics: seq![],
        total_turns: 0,
    }
}

/// The turns once `turn` is recorded: with the oldest one gone where there was no room.
pub open spec fn with_turn(turns: Seq<TurnMetrics>, turn: TurnMetrics) -> Seq<TurnMetrics> {
    if turns.len() >= MAX_TURN_METRICS {
        turns.drop_first().push(turn)
    } else {
        turns.push(turn)
    }
}

/// A turn as it is recorded before the request.
pub open spec fn estimated_turn(
    turn_number: u64,
    estimated_input_tokens: usize,
    injected_context_tokens: usize,
    system_prompt_tokens: usize,
    tool_def_tokens: usize,
    timestamp: Timestamp,
) -> TurnMetrics {
    TurnMetrics {
        turn_number,
        estimated_input_tokens,
        actual_usage: None,
        injected_context_tokens,
        system_prompt_tokens,
        tool_def_tokens,
        timestamp,
        vdd_iterations: None,
        vdd_genuine_findings: None,
        vdd_false_positives: None,
        vdd_adversary_tokens: None,
        vdd_converged: None,
    }
}

/// The turns once the last of them, if there is one, has its actual usage.
pub open spec fn with_usage(turns: Seq<TurnMetrics>, usage: TokenUsage) -> Seq<TurnMetrics> {
    if turns.len() == 0 {
        turns
    } else {
        turns.update(
            turns.len() - 1,
            TurnMetrics { actual_usage: Some(usage), ..turns.last() },
        )
    }
}

/// Untyped tokens count as input.
pub open spec fn input_only(tokens: u64) -> TokenUsage {
    TokenUsage { input_tokens: tokens, ..no_usage() }
}

/// The list with the file, unless it is there already.
pub open spec fn with_file(files: Seq<Seq<char>>, path: Seq<char>) -> Seq<Seq<char>> {
    if files.contains(path) {
        files
    } else {
        files.push(path)
    }
}

/// A heading and its items, unless there are none.
pub open spec fn section(heading: Seq<char>, items: Seq<Seq<char>>, mark: Seq<char>) -> Seq<char> {
    if items.len() == 0 {
        seq![]
    } else {
        heading + text::bullets(items, mark) + "\n"@
    }
}

/// A line that holds a count.
pub open spec fn count_line(label: Seq<char>, n: nat, end: Seq<char>) -> Seq<char> {
    label + text::decimal(n) + end + "\n"@
}

/// The part of a handoff that tells the use of tokens.
pub open spec fn handoff_usage(d: SessionData) -> Seq<char> {
    if usage_total(d.cumulative_usage) > 0 {
        "\n### Token Usage\n"@ + count_line(
            "- Input: "@,
            d.cumulative_usage.input_tokens as nat,
            " tokens"@,
        ) + count_line("- Output: "@, d.cumulative_usage.output_tokens as nat, " tokens"@)
            + count_line(
            "- Cache read: "@,
            d.cumulative_usage.cache_read_tokens as nat,
            " tokens"@,
        ) + count_line("- Turns: "@, d.total_turns as nat, ""@)
    } else {
        seq![]
    }
}

/// The handoff summary of a session.
pub open spec fn handoff_text(d: SessionData) -> Seq<char> {
    "## Session Handoff\n\n"@ + "Previous Session: "@ + d.id + "\n"@ + "Mode: "@ + d.mode.text()
        + "\n"@ + "Duration: "@ + clock::minute_text(d.created_at) + " to "@ + clock::minute_text(
        d.updated_at,
    ) + "\n\n"@ + section("### Completed Tasks\n"@, d.progress.completed_tasks, "- [x] "@)
        + section("### In Progress\n"@, d.progress.in_progress_tasks, "- [ ] "@) + section(
        "### Pending Tasks\n"@,
        d.progress.pending_tasks,
        "- [ ] "@,
    ) + section("### Key Decisions\n"@, d.progress.decisions, "- "@) + section(
        "### Files Modified\n"@,
        d.progress.files_modified,
        "- "@,
    ) + notes_text(d.progress.handoff_notes) + handoff_usage(d)
}

/// The part of a handoff that holds the notes, unless there are none.
pub open spec fn notes_text(notes: Seq<char>) -> Seq<char> {
    if notes.len() == 0 {
        seq![]
    } else {
        "### Notes for Next Session\n"@ + notes + "\n"@
    }
}

/// The last turn in a summary of statistics.
pub open spec fn last_turn_text(turns: Seq<TurnMetrics>) -> Seq<char> {
    if turns.len() == 0 {
        seq![]
    } else {
        let last = turns.last();
        "\nLast turn #"@ + text::decimal(last.turn_number as nat) + ": estimated "@
            + text::decimal(last.estimated_input_tokens as nat) + " input tokens"@ + (
        match last.actual_usage {
            Some(actual) => ", actual "@ + text::decimal(actual.input_tokens as nat) + "in/"@
                + text::decimal(actual.output_tokens as nat) + "out"@,
            None => seq![],
        }) + "\n"@
    }
}

/// The statistics of a session.
pub open spec fn stats_text(d: SessionData) -> Seq<char> {
    let u = d.cumulative_usage;
    "Session: "@ + d.id + "\n"@ + "Mode: "@ + d.mode.text() + "\n"@ + count_line(
        "Turns: "@,
        d.total_turns as nat,
        ""@,
    ) + count_line("Requests: "@, d.request_count as nat, ""@) + count_line(
        "Input tokens:  "@,
        u.input_tokens as nat,
        " (cumulative)"@,
    ) + count_line("Output tokens: "@, u.output_tokens as nat, " (cumulative)"@) + count_line(
        "Cache read:    "@,
        u.cache_read_tokens as nat,
        ""@,
    ) + count_line("Cache write:   "@, u.cache_write_tokens as nat, ""@) + count_line(
        "Total tokens:  "@,
        usage_total(u) as nat,
        ""@,
    ) + last_turn_text(d.turn_metrics)
}

fn push_count_line(out: &mut String, label: &str, n: u64, end: &str)
    ensures
        final(out)@ == old(out)@ + count_line(label@, n as nat, end@),
{
    out.append(label);
    text::push_decimal(out, n);
    out.append(end);
    out.append("\n");
    assert(out@ =~= old(out)@ + count_line(label@, n as nat, end@));
}

fn push_section(out: &mut String, heading: &str, items: &Vec<String>, mark: &str)
    ensures
        final(out)@ == old(out)@ + section(heading@, text::views(items@), mark@),
{
    if items.len() > 0 {
        out.append(heading);
        text::push_bullets(out, items, mark);
        out.append("\n");
    }
    assert(out@ =~= old(out)@ + section(heading@, text::views(items@), mark@));
}

fn push_notes(out: &mut String, notes: &str)
    ensures
        final(out)@ == old(out)@ + notes_text(notes@),
{
    if notes.is_empty() {
        assert(out@ =~= out@ + seq![]);
    } else {
        let mut part = "### Notes for Next Session\n".to_owned();
        text::push_line(&mut part, notes);
        out.append(part.as_str());
    }
}

fn push_last_turn(out: &mut String, turns: &Vec<TurnMetrics>)
    ensures
        final(out)@ == old(out)@ + last_turn_text(turns@),
{
    let n: usize = turns.len();
    if n > 0 {
        let last = turns[n - 1];
        let mut part = "\nLast turn #".to_owned();
        text::push_decimal(&mut part, last.turn_number);
        part.append(": estimated ");
        text::push_decimal(&mut part, last.estimated_input_tokens as u64);
        part.append(" input tokens");
        if let Some(actual) = last.actual_usage {
            let mut used = ", actual ".to_owned();
            text::push_decimal(&mut used, actual.input_tokens);
            used.append("in/");
            text::push_decimal(&mut used, actual.output_tokens);
            used.append("out");
            part.append(used.as_str());
        } else {
            assert(part@ =~= part@ + seq![]);
        }
        part.append("\n");
        out.append(part.as_str());
    } else {
        assert(out@ =~= out@ + seq![]);
    }
}

impl Session {
    /// A session with given id and time of creation: a coding session if it has a parent,
    /// else an initializer session.
    pub fn start(id: String, parent_id: Option<String>, now: Timestamp) -> (s: Session)
        ensures
            s.data() == fresh_session(id@, text::opt_view(parent_id), now),
    {
        let mode = if parent_id.is_some() {
            SessionMode::Coding
        } else {
            SessionMode::Initializer
        };
        let s = Session {
            id,
            mode,
            created_at: now,
            updated_at: now,
            progress: SessionProgress::default(),
            parent_session_id: parent_id,
            request_count: 0,
            cumulative_usage: TokenUsage::default(),
            legacy_total_tokens: None,
            turn_metrics: Vec::new(),
            total_turns: 0,
        };
        assert(s.data().turn_metrics =~= seq![]);
        s
    }

    /// Create a new initializer session.
    pub fn new_initializer() -> (s: Session)
        ensures
            s.data() == fresh_session(s.id@, None, s.created_at),
            ids::uuid_shaped(s.id@),
    {
        Session::start(ids::fresh_uuid(), None, clock::now())
    }

    /// Create a new coding session continuing from a parent.
    pub fn new_coding(parent_id: &str) -> (s: Session)
        ensures
            s.data() == fresh_session(s.id@, Some(parent_id@), s.created_at),
            ids::uuid_shaped(s.id@),
    {
        Session::start(ids::fresh_uuid(), Some(parent_id.to_owned()), clock::now())
    }

    /// Borrow this session for reading.
    pub fn view(&self) -> (v: SessionView<'_>)
        ensures
            v.of() == *self,
    {
        SessionView::new(self)
    }

    /// Update the session timestamp.
    pub fn touch(&mut self)
        ensures
            final(self).data() == (SessionData { updated_at: final(self).updated_at, ..old(self).data() }),
    {
        self.touch_at(clock::now());
    }

    /// Set the session timestamp.
    pub fn touch_at(&mut self, now: Timestamp)
        ensures
            final(self).data() == (SessionData { updated_at: now, ..old(self).data() }),
    {
        self.updated_at = now;
    }

    /// Increment request count.
    pub fn increment_requests(&mut self)
        requires
            old(self).request_count < u64::MAX,
        ensures
            final(self).data() == (SessionData {
                request_count: (old(self).request_count + 1) as u64,
                updated_at: final(self).updated_at,
                ..old(self).data()
            }),
    {
        self.request_count = self.request_count + 1;
        self.touch();
    }

    /// Total tokens spent in this session: input and output, derived from the cumulative
    /// usage.
    pub fn total_tokens(&self) -> (n: u64)
        requires
            usage_total(self.cumulative_usage) <= u64::MAX,
        ensures
            n == usage_total(self.cumulative_usage),
    {
        self.cumulative_usage.total()
    }

    /// The total that an older session file carried, if this session came from one.
    pub fn legacy_persisted_total_tokens(&self) -> (n: Option<u64>)
        ensures
            n == self.legacy_total_tokens,
    {
        self.legacy_total_tokens
    }

    /// Add tokens to the cumulative usage as input.
    pub fn add_tokens(&mut self, tokens: u64)
        requires
            old(self).cumulative_usage.input_tokens + tokens <= u64::MAX,
        ensures
            final(self).data() == (SessionData {
                cumulative_usage: usage_sum(old(self).cumulative_usage, input_only(tokens)),
                updated_at: final(self).updated_at,
                ..old(self).data()
            }),
    {
        let usage = TokenUsage {
            input_tokens: tokens,
            output_tokens: 0,
            cache_read_tokens: 0,
            cache_write_tokens: 0,
        };
        self.cumulative_usage.accumulate(&usage);
        self.touch();
    }

    /// Record metrics for an API turn (pre-request estimation). Returns the number of
    /// the turn.
    ///
    /// No more than [`MAX_TURN_METRICS`] turns are retained; the oldest one makes room.
    pub fn record_turn_estimate(
        &mut self,
        estimated_input_tokens: usize,
        injected_context_tokens: usize,
        system_prompt_tokens: usize,
        tool_def_tokens: usize,
    ) -> (turn_number: u64)
        requires
            old(self).total_turns < u64::MAX,
        ensures
            turn_number == old(self).total_turns + 1,
            final(self).data().turn_metrics.len() > 0,
            final(self).data() == (SessionData {
                turn_metrics: with_turn(
                    old(self).data().turn_metrics,
                    estimated_turn(
                        turn_number,
                        estimated_input_tokens,
                        injected_context_tokens,
                        system_prompt_tokens,
                        tool_def_tokens,
                        final(self).data().turn_metrics.last().timestamp,
                    ),
                ),
                total_turns: turn_number,
                updated_at: final(self).updated_at,
                ..old(self).data()
            }),
    {
        let turn_number = self.record_turn_estimate_at(
            estimated_input_tokens,
            injected_context_tokens,
            system_prompt_tokens,
            tool_def_tokens,
            clock::now(),
        );
        self.touch();
        turn_number
    }

    /// Record metrics for an API turn that starts at a given time. Returns the number of
    /// the turn.
    pub fn record_turn_estimate_at(
        &mut self,
        estimated_input_tokens: usize,
        injected_context_tokens: usize,
        system_prompt_tokens: usize,
        tool_def_tokens: usize,
        timestamp: Timestamp,
    ) -> (turn_number: u64)
        requires
            old(self).total_turns < u64::MAX,
        ensures
            turn_number == old(self).total_turns + 1,
            final(self).data() == (SessionData {
                turn_metrics: with_turn(
                    old(self).data().turn_metrics,
                    estimated_turn(
                        turn_number,
                        estimated_input_tokens,
                        injected_context_tokens,
                        system_prompt_tokens,
                        tool_def_tokens,
                        timestamp,
                    ),
                ),
                total_turns: turn_number,
                ..old(self).data()
            }),
    {
        if self.turn_metrics.len() >= MAX_TURN_METRICS {
            self.turn_metrics.remove(0);
            assert(self.turn_metrics@ =~= old(self).turn_metrics@.drop_first());
        }
        self.total_turns = self.total_turns + 1;
        let turn_number: u64 = self.total_turns;
        self.turn_metrics.push(
            TurnMetrics {
                turn_number,
                estimated_input_tokens,
                actual_usage: None,
                injected_context_tokens,
                system_prompt_tokens,
                tool_def_tokens,
                timestamp,
                vdd_iterations: None,
                vdd_genuine_findings: None,
                vdd_false_positives: None,
                vdd_adversary_tokens: None,
                vdd_converged: None,
            },
        );
        turn_number
    }

    /// Record actual usage from provider response for the most recent turn.
    pub fn record_actual_usage(&mut self, usage: TokenUsage)
        requires
            usage_fits(old(self).cumulative_usage, usage),
        ensures
            final(self).data() == (SessionData {
                cumulative_usage: usage_sum(old(self).cumulative_usage, usage),
                turn_metrics: with_usage(old(self).data().turn_metrics, usage),
                updated_at: final(self).updated_at,
                ..old(self).data()
            }),
    {
        self.cumulative_usage.accumulate(&usage);
        let n: usize = self.turn_metrics.len();
        if n > 0 {
            let mut last = self.turn_metrics[n - 1];
            last.actual_usage = Some(usage);
            self.turn_metrics[n - 1] = last;
        }
        assert(self.turn_metrics@ =~= with_usage(old(self).data().turn_metrics, usage));
        self.touch();
    }

    /// Get session stats summary.
    pub fn stats_summary(&self) -> (out: String)
        requires
            usage_total(self.cumulative_usage) <= u64::MAX,
        ensures
            out@ == stats_text(self.data()),
    {
        let u = self.cumulative_usage;
        let mut out = "Session: ".to_owned();
        text::push_line(&mut out, self.id.as_str());
        out.append("Mode: ");
        text::push_line(&mut out, self.mode.as_str());
        push_count_line(&mut out, "Turns: ", self.total_turns, "");
        push_count_line(&mut out, "Requests: ", self.request_count, "");
        push_count_line(&mut out, "Input tokens:  ", u.input_tokens, " (cumulative)");
        push_count_line(&mut out, "Output tokens: ", u.output_tokens, " (cumulative)");
        push_count_line(&mut out, "Cache read:    ", u.cache_read_tokens, "");
        push_count_line(&mut out, "Cache write:   ", u.cache_write_tokens, "");
        push_count_line(&mut out, "Total tokens:  ", u.total(), "");
        push_last_turn(&mut out, &self.turn_metrics);
        out
    }

    /// Add a completed task.
    pub fn complete_task(&mut self, task: String)
        ensures
            final(self).data() == (SessionData {
                progress: ProgressView {
                    completed_tasks: old(self).data().progress.completed_tasks.push(task@),
                    ..old(self).data().progress
                },
                updated_at: final(self).updated_at,
                ..old(self).data()
            }),
    {
        self.progress.completed_tasks.push(task);
        assert(self.data().progress.completed_tasks =~= old(self).data().progress.completed_tasks.push(task@));
        self.touch();
    }

    /// Add a file to the modified list. A file that is there already changes nothing.
    pub fn add_modified_file(&mut self, path: String)
        ensures
            final(self).data() == (SessionData {
                progress: ProgressView {
                    files_modified: with_file(old(self).data().progress.files_modified, path@),
                    ..old(self).data().progress
                },
                updated_at: final(self).updated_at,
                ..old(self).data()
            }),
            old(self).data().progress.files_modified.contains(path@) ==> final(self).data() == old(self).data(),
    {
        if !text::contains(&self.progress.files_modified, path.as_str()) {
            self.progress.files_modified.push(path);
            assert(self.data().progress.files_modified =~= old(self).data().progress.files_modified.push(
                path@,
            ));
            self.touch();
        }
    }

    /// Set handoff notes for the next session.
    pub fn set_handoff_notes(&mut self, notes: String)
        ensures
            final(self).data() == (SessionData {
                progress: ProgressView { handoff_notes: notes@, ..old(self).data().progress },
                updated_at: final(self).updated_at,
                ..old(self).data()
            }),
    {
        self.progress.handoff_notes = notes;
        self.touch();
    }

    /// Generate a handoff summary for the next agent.
    pub fn generate_handoff(&self) -> (out: String)
        requires
            usage_total(self.cumulative_usage) <= u64::MAX,
        ensures
            out@ == handoff_text(self.data()),
    {
        let p = &self.progress;
        let from = clock::format_minute(&self.created_at);
        let to = clock::format_minute(&self.updated_at);
        let mut out = "## Session Handoff\n\n".to_owned();
        out.append("Previous Session: ");
        text::push_line(&mut out, self.id.as_str());
        out.append("Mode: ");
        text::push_line(&mut out, self.mode.as_str());
        out.append("Duration: ");
        out.append(from.as_str());
        out.append(" to ");
        out.append(to.as_str());
        out.append("\n\n");
        push_section(&mut out, "### Completed Tasks\n", &p.completed_tasks, "- [x] ");
        push_section(&mut out, "### In Progress\n", &p.in_progress_tasks, "- [ ] ");
        push_section(&mut out, "### Pending Tasks\n", &p.pending_tasks, "- [ ] ");
        push_section(&mut out, "### Key Decisions\n", &p.decisions, "- ");
        push_section(&mut out, "### Files Modified\n", &p.files_modified, "- ");
        push_notes(&mut out, p.handoff_notes.as_str());
        self.push_usage(&mut out);
        out
    }

    /// Appends the part of the handoff that tells the use of tokens.
    fn push_usage(&self, out: &mut String)
        requires
            usage_total(self.cumulative_usage) <= u64::MAX,
        ensures
            final(out)@ == old(out)@ + handoff_usage(self.data()),
    {
        let u = self.cumulative_usage;
        if u.total() > 0 {
            let mut part = "\n### Token Usage\n".to_owned();
            push_count_line(&mut part, "- Input: ", u.input_tokens, " tokens");
            push_count_line(&mut part, "- Output: ", u.output_tokens, " tokens");
            push_count_line(&mut part, "- Cache read: ", u.cache_read_tokens, " tokens");
            push_count_line(&mut part, "- Turns: ", self.total_turns, "");
            out.append(part.as_str());
        } else {
            assert(out@ =~= out@ + seq![]);
        }
    }
}

/// Read-only view over a [`Session`].
#[derive(Clone, Copy, Debug)]
pub struct SessionView<'a> {
    inner: &'a Session,
}

impl<'a> SessionView<'a> {
    /// The session that is viewed.
    pub closed spec fn of(self) -> Session {
        *self.inner
    }

    /// View an existing session.
    pub fn new(session: &'a Session) -> (v: SessionView<'a>)
        ensures
            v.of() == *session,
    {
        SessionView { inner: session }
    }

    /// Session id.
    pub fn id(&self) -> (r: &'a str)
        ensures
            r@ == self.of().id@,
    {
        self.inner.id.as_str()
    }

    /// Session mode.
    pub fn mode(&self) -> (r: SessionMode)
        ensures
            r == self.of().mode,
    {
        self.inner.mode
    }

    /// When the session was created.
    pub fn created_at(&self) -> (r: &'a Timestamp)
        ensures
            *r == self.of().created_at,
    {
        &self.inner.created_at
    }

    /// When the session was last updated.
    pub fn updated_at(&self) -> (r: &'a Timestamp)
        ensures
            *r == self.of().updated_at,
    {
        &self.inner.updated_at
    }

    /// Session progress.
    pub fn progress(&self) -> (r: &'a SessionProgress)
        ensures
            *r == self.of().progress,
    {
        &self.inner.progress
    }

    /// Parent session id, if any.
    pub fn parent_session_id(&self) -> (r: Option<&'a str>)
        ensures
            crate::json::str_view(r) == text::opt_view(self.of().parent_session_id),
    {
        match &self.inner.parent_session_id {
            Some(id) => Some(id.as_str()),
            None => None,
        }
    }

    /// Number of API requests in this session.
    pub fn request_count(&self) -> (r: u64)
        ensures
            r == self.of().request_count,
    {
        self.inner.request_count
    }

    /// Total tokens used in this session, derived from the cumulative usage.
    pub fn total_tokens(&self) -> (r: u64)
        requires
            usage_total(self.of().cumulative_usage) <= u64::MAX,
        ensures
            r == usage_total(self.of().cumulative_usage),
    {
        self.inner.total_tokens()
    }

    /// Cumulative token usage across all turns.
    pub fn cumulative_usage(&self) -> (r: &'a TokenUsage)
        ensures
            *r == self.of().cumulative_usage,
    {
        &self.inner.cumulative_usage
    }

    /// Per-turn metrics.
    pub fn turn_metrics(&self) -> (r: &'a [TurnMetrics])
        ensures
            r@ == self.of().turn_metrics@,
    {
        self.inner.turn_metrics.as_slice()
    }

    /// Count of all turns ever recorded.
    pub fn total_turns(&self) -> (r: u64)
        ensures
            r == self.of().total_turns,
    {
        self.inner.total_turns
    }

    /// The session itself.
    pub fn as_session(&self) -> (r: &'a Session)
        ensures
            *r == self.of(),
    {
        self.inner
    }
}

/// What recording turns keeps of a session: no more turns than the cap, numbered upward
/// one by one, the last of them with the number of turns ever recorded.
pub open spec fn turns_in_order(d: SessionData) -> bool {
    &&& d.turn_metrics.len() <= MAX_TURN_METRICS
    &&& d.turn_metrics.len() <= d.total_turns
    &&& forall|i: int|
        0 <= i < d.turn_metrics.len() ==> (#[trigger] d.turn_metrics[i]).turn_number
            == d.total_turns - d.turn_metrics.len() + 1 + i
}

/// A new session's turns are in order.
pub proof fn fresh_turns_are_in_order(id: Seq<char>, parent: Option<Seq<char>>, now: Timestamp)
    ensures
        turns_in_order(fresh_session(id, parent, now)),
{
}

/// Recording a turn keeps the turns in order and the cap, and leaves the usage alone.
pub proof fn recording_keeps_turns_in_order(
    before: SessionData,
    turn: TurnMetrics,
    after: SessionData,
)
    requires
        turns_in_order(before),
        turn.turn_number == before.total_turns + 1,
        after.turn_metrics == with_turn(before.turn_metrics, turn),
        after.total_turns == before.total_turns + 1,
    ensures
        turns_in_order(after),
        after.turn_metrics.last() == turn,
        after.total_turns > before.total_turns,
        after.turn_metrics.len() >= before.turn_metrics.len(),
{
    assert forall|i: int| 0 <= i < after.turn_metrics.len() implies (
    #[trigger] after.turn_metrics[i]).turn_number == after.total_turns - after.turn_metrics.len()
        + 1 + i by {
        if before.turn_metrics.len() >= MAX_TURN_METRICS {
            if i < after.turn_metrics.len() - 1 {
                assert(after.turn_metrics[i] == before.turn_metrics[i + 1]);
            }
        } else if i < before.turn_metrics.len() {
            assert(after.turn_metrics[i] == before.turn_metrics[i]);
        }
    }
}

/// Each of `turns` was recorded in turn: `history[i]` is the session before the turn at `i`,
/// and nothing but the turns, their count and the time of the last change is touched.
pub open spec fn records_turns(history: Seq<SessionData>, turns: Seq<TurnMetrics>) -> bool {
    &&& history.len() == turns.len() + 1
    &&& forall|i: int|
        0 <= i < turns.len() ==> turn_recorded(history[i], #[trigger] turns[i], history[i + 1])
}

/// A turn was recorded in a session.
pub open spec fn turn_recorded(
    before: SessionData,
    turn: TurnMetrics,
    after: SessionData,
) -> bool {
    &&& turn.turn_number == before.total_turns + 1
    &&& after == (SessionData {
        turn_metrics: with_turn(before.turn_metrics, turn),
        total_turns: turn.turn_number,
        updated_at: after.updated_at,
        ..before
    })
}

/// The last turns of a list, as many as a session retains.
pub open spec fn retained(turns: Seq<TurnMetrics>) -> Seq<TurnMetrics> {
    if turns.len() > MAX_TURN_METRICS {
        turns.skip(turns.len() - MAX_TURN_METRICS)
    } else {
        turns
    }
}

/// However many turns a session has recorded since it started, they are numbered from one
/// upward, the count is theirs, the last ones are retained and the oldest are gone. Usage
/// and requests are as they were.
pub proof fn every_turn_is_counted(history: Seq<SessionData>, turns: Seq<TurnMetrics>)
    requires
        records_turns(history, turns),
        history[0].turn_metrics.len() == 0,
        history[0].total_turns == 0,
    ensures
        history.last().total_turns == turns.len(),
        history.last().turn_metrics == retained(turns),
        forall|i: int| 0 <= i < turns.len() ==> (#[trigger] turns[i]).turn_number == i + 1,
        history.last().cumulative_usage == history[0].cumulative_usage,
        history.last().request_count == history[0].request_count,
    decreases turns.len(),
{
    if turns.len() > 0 {
        let n = turns.len() - 1;
        let earlier = history.drop_last();
        let first = turns.drop_last();
        assert forall|i: int| 0 <= i < first.len() implies turn_recorded(
            earlier[i],
            #[trigger] first[i],
            earlier[i + 1],
        ) by {
            assert(first[i] == turns[i]);
        }
        every_turn_is_counted(earlier, first);
        assert(earlier.last() == history[n]);
        assert(turn_recorded(history[n], turns[n], history[n + 1]));
        assert forall|i: int| 0 <= i < turns.len() implies (#[trigger] turns[i]).turn_number == i
            + 1 by {
            if i < n {
                assert(first[i] == turns[i]);
            }
        }
        assert(with_turn(retained(first), turns[n]) =~= retained(turns));
    }
}

/// Recording the usage of a turn keeps the turns in order.
pub proof fn usage_keeps_turns_in_order(
    before: SessionData,
    usage: TokenUsage,
    after: SessionData,
)
    requires
        turns_in_order(before),
        after.turn_metrics == with_usage(before.turn_metrics, usage),
        after.total_turns == before.total_turns,
    ensures
        turns_in_order(after),
        before.turn_metrics.len() > 0 ==> after.turn_metrics.last().actual_usage == Some(usage),
{
    assert forall|i: int| 0 <= i < after.turn_metrics.len() implies (
    #[trigger] after.turn_metrics[i]).turn_number == after.total_turns - after.turn_metrics.len()
        + 1 + i by {
        assert(after.turn_metrics[i].turn_number == before.turn_metrics[i].turn_number);
    }
}

/// Adding a modified file twice is adding it once.
pub proof fn adding_a_file_twice_is_adding_it_once(files: Seq<Seq<char>>, path: Seq<char>)
    ensures
        with_file(files, path).contains(path),
        with_file(with_file(files, path), path) == with_file(files, path),
{
    if !files.contains(path) {
        assert(files.push(path)[files.len() as int] == path);
    }
}

/// The id of a new session can name a file.
pub proof fn fresh_ids_can_name_files(id: Seq<char>)
    requires
        ids::uuid_shaped(id),
    ensures
        file_id_error(id) is None,
{
    assert forall|i: int| 0 <= i < id.len() implies is_file_id_char(#[trigger] id[i]) by {}
    assert(vstd::utf8::is_ascii_chars(id));
    vstd::utf8::is_ascii_chars_encode_utf8(id);
}

/// What the first agent of a task is told.
pub const INITIALIZER_CONTEXT: &'static str = "## Session Context: Initializer Agent\n\
\n\
You are the first agent working on the task. Your responsibilities:\n\
1. Understand the full scope of the work\n\
2. Create a clear plan with actionable steps\n\
3. Document key decisions and rationale\n\
4. Set up any necessary project structure\n\
5. Prepare detailed handoff notes for subsequent sessions\n\
\n\
Focus on establishing a solid foundation that future agents can build upon.";

/// What an agent that continues a task is told.
pub const CODING_CONTEXT: &'static str = "## Session Context: Coding Agent\n\
\n\
You are continuing work from a previous session. Your responsibilities:\n\
1. Review the handoff notes from the previous session\n\
2. Continue from where the last agent left off\n\
3. Track your progress and decisions\n\
4. Prepare handoff notes if you won't complete the task\n\
\n";

/// The context of a session, by its mode; a continuing one names its parent.
pub open spec fn context_text(mode: SessionMode, parent: Option<Seq<char>>) -> Seq<char> {
    match (mode, parent) {
        (SessionMode::Initializer, _) => INITIALIZER_CONTEXT@,
        (SessionMode::Coding, None) => CODING_CONTEXT@,
        (SessionMode::Coding, Some(id)) => CODING_CONTEXT@ + "Previous session ID: "@ + id
            + "\n"@,
    }
}

/// Context to inject at session start based on mode.
pub fn get_session_context(session: &Session) -> (out: String)
    ensures
        out@ == context_text(session.mode, text::opt_view(session.parent_session_id)),
{
    match session.mode {
        SessionMode::Initializer => INITIALIZER_CONTEXT.to_owned(),
        SessionMode::Coding => {
            let mut out = CODING_CONTEXT.to_owned();
            if let Some(id) = &session.parent_session_id {
                out.append("Previous session ID: ");
                text::push_line(&mut out, id.as_str());
            }
            out
        },
    }
}

/// The list is told in the text under its heading: the heading, and behind it each item on a
/// line of its own, in their order.
pub open spec fn tells_list(
    told: Seq<char>,
    heading: Seq<char>,
    items: Seq<Seq<char>>,
    mark: Seq<char>,
) -> bool {
    &&& items.len() > 0 ==> scan::occurs(told, heading + text::bullets(items, mark))
    &&& forall|i: int|
        0 <= i < items.len() ==> scan::occurs(told, mark + #[trigger] items[i] + "\n"@)
}

proof fn lemma_tells_section(
    pre: Seq<char>,
    heading: Seq<char>,
    items: Seq<Seq<char>>,
    mark: Seq<char>,
)
    ensures
        tells_list(pre + section(heading, items, mark), heading, items, mark),
{
    let told = pre + section(heading, items, mark);
    if items.len() > 0 {
        let lines = text::bullets(items, mark);
        let both = heading + lines;
        assert(told =~= pre + both + "\n"@);
        scan::lemma_part_occurs(pre, both, "\n"@);
        assert forall|i: int| 0 <= i < items.len() implies scan::occurs(
            told,
            mark + #[trigger] items[i] + "\n"@,
        ) by {
            let line = mark + items[i] + "\n"@;
            text::every_item_has_a_line(items, mark, i);
            let (a, b) = choose|a: Seq<char>, b: Seq<char>| lines == #[trigger] (a + line + b);
            scan::lemma_part_occurs(a, line, b);
            assert(told =~= (pre + heading) + lines + "\n"@);
            scan::lemma_occurs_within(pre + heading, lines, "\n"@, line);
        }
    }
}

proof fn lemma_still_tells(
    told: Seq<char>,
    post: Seq<char>,
    heading: Seq<char>,
    items: Seq<Seq<char>>,
    mark: Seq<char>,
)
    requires
        tells_list(told, heading, items, mark),
    ensures
        tells_list(told + post, heading, items, mark),
{
    scan::lemma_occurs_ahead(told, post, heading + text::bullets(items, mark));
    assert forall|i: int| 0 <= i < items.len() implies scan::occurs(
        told + post,
        mark + #[trigger] items[i] + "\n"@,
    ) by {
        scan::lemma_occurs_ahead(told, post, mark + items[i] + "\n"@);
    }
}

/// The handoff ahead of its lists.
spec fn handoff_head(d: SessionData) -> Seq<char> {
    "## Session Handoff\n\n"@ + "Previous Session: "@ + d.id + "\n"@ + "Mode: "@ + d.mode.text()
        + "\n"@ + "Duration: "@ + clock::minute_text(d.created_at) + " to "@ + clock::minute_text(
        d.updated_at,
    ) + "\n\n"@
}

/// A handoff tells the next agent all progress: every task that is completed, in progress or
/// pending, every decision and every file modified stands under its heading on a line of its
/// own, in its order, and the notes stand there too.
pub proof fn handoffs_tell_all_progress(d: SessionData)
    ensures
        tells_list(
            handoff_text(d),
            "### Completed Tasks\n"@,
            d.progress.completed_tasks,
            "- [x] "@,
        ),
        tells_list(
            handoff_text(d),
            "### In Progress\n"@,
            d.progress.in_progress_tasks,
            "- [ ] "@,
        ),
        tells_list(
            handoff_text(d),
            "### Pending Tasks\n"@,
            d.progress.pending_tasks,
            "- [ ] "@,
        ),
        tells_list(handoff_text(d), "### Key Decisions\n"@, d.progress.decisions, "- "@),
        tells_list(handoff_text(d), "### Files Modified\n"@, d.progress.files_modified, "- "@),
        d.progress.handoff_notes.len() > 0 ==> scan::occurs(
            handoff_text(d),
            "### Notes for Next Session\n"@ + d.progress.handoff_notes + "\n"@,
        ),
{
    let p = d.progress;
    let (h1, h2, h3) = ("### Completed Tasks\n"@, "### In Progress\n"@, "### Pending Tasks\n"@);
    let (h4, h5) = ("### Key Decisions\n"@, "### Files Modified\n"@);
    let s0 = handoff_head(d);
    let done = section(h1, p.completed_tasks, "- [x] "@);
    let doing = section(h2, p.in_progress_tasks, "- [ ] "@);
    let open = section(h3, p.pending_tasks, "- [ ] "@);
    let decided = section(h4, p.decisions, "- "@);
    let files = section(h5, p.files_modified, "- "@);
    let notes = notes_text(p.handoff_notes);
    let usage = handoff_usage(d);
    let s1 = s0 + done;
    let s2 = s1 + doing;
    let s3 = s2 + open;
    let s4 = s3 + decided;
    let s5 = s4 + files;
    let s6 = s5 + notes;
    assert(handoff_text(d) == s6 + usage);
    lemma_tells_section(s0, h1, p.completed_tasks, "- [x] "@);
    lemma_still_tells(s1, doing, h1, p.completed_tasks, "- [x] "@);
    lemma_still_tells(s2, open, h1, p.completed_tasks, "- [x] "@);
    lemma_still_tells(s3, decided, h1, p.completed_tasks, "- [x] "@);
    lemma_still_tells(s4, files, h1, p.completed_tasks, "- [x] "@);
    lemma_still_tells(s5, notes, h1, p.completed_tasks, "- [x] "@);
    lemma_still_tells(s6, usage, h1, p.completed_tasks, "- [x] "@);
    lemma_tells_section(s1, h2, p.in_progress_tasks, "- [ ] "@);
    lemma_still_tells(s2, open, h2, p.in_progress_tasks, "- [ ] "@);
    lemma_still_tells(s3, decided, h2, p.in_progress_tasks, "- [ ] "@);
    lemma_still_tells(s4, files, h2, p.in_progress_tasks, "- [ ] "@);
    lemma_still_tells(s5, notes, h2, p.in_progress_tasks, "- [ ] "@);
    lemma_still_tells(s6, usage, h2, p.in_progress_tasks, "- [ ] "@);
    lemma_tells_section(s2, h3, p.pending_tasks, "- [ ] "@);
    lemma_still_tells(s3, decided, h3, p.pending_tasks, "- [ ] "@);
    lemma_still_tells(s4, files, h3, p.pending_tasks, "- [ ] "@);
    lemma_still_tells(s5, notes, h3, p.pending_tasks, "- [ ] "@);
    lemma_still_tells(s6, usage, h3, p.pending_tasks, "- [ ] "@);
    lemma_tells_section(s3, h4, p.decisions, "- "@);
    lemma_still_tells(s4, files, h4, p.decisions, "- "@);
    lemma_still_tells(s5, notes, h4, p.decisions, "- "@);
    lemma_still_tells(s6, usage, h4, p.decisions, "- "@);
    lemma_tells_section(s4, h5, p.files_modified, "- "@);
    lemma_still_tells(s5, notes, h5, p.files_modified, "- "@);
    lemma_still_tells(s6, usage, h5, p.files_modified, "- "@);
    scan::lemma_occurs_ahead(s5, notes, notes);
    scan::lemma_occurs_ahead(s6, usage, notes);
}

/// A handoff tells whose it is: the id of the session, its mode, and when it ran.
pub proof fn handoffs_tell_the_session(d: SessionData)
    ensures
        scan::occurs(handoff_text(d), "Previous Session: "@ + d.id + "\n"@),
        d.mode is Initializer ==> scan::occurs(handoff_text(d), "Mode: Initializer\n"@),
        d.mode is Coding ==> scan::occurs(handoff_text(d), "Mode: Coding\n"@),
        scan::occurs(
            handoff_text(d),
            "Duration: "@ + clock::minute_text(d.created_at) + " to "@ + clock::minute_text(
                d.updated_at,
            ),
        ),
{
    let head = handoff_head(d);
    let none = Seq::<char>::empty();
    let id = "Previous Session: "@ + d.id + "\n"@;
    let first = "## Session Handoff\n\n"@;
    let mode = "Mode: "@ + d.mode.text() + "\n"@;
    let told = "Duration: "@ + clock::minute_text(d.created_at) + " to "@ + clock::minute_text(
        d.updated_at,
    );
    assert(head =~= first + id + (mode + told + "\n\n"@));
    scan::lemma_part_occurs(first, id, mode + told + "\n\n"@);
    assert(head =~= (first + id) + mode + (told + "\n\n"@));
    scan::lemma_part_occurs(first + id, mode, told + "\n\n"@);
    assert(head =~= (first + id + mode) + told + "\n\n"@);
    scan::lemma_part_occurs(first + id + mode, told, "\n\n"@);
    let rest = handoff_rest(d);
    lemma_handoff_in_two(d);
    scan::lemma_occurs_within(none, head, rest, id);
    scan::lemma_occurs_within(none, head, rest, mode);
    scan::lemma_occurs_within(none, head, rest, told);
    assert(none + head + rest =~= head + rest);
    lemma_mode_line(d.mode);
}

proof fn lemma_mode_line(mode: SessionMode)
    ensures
        mode is Initializer ==> "Mode: "@ + mode.text() + "\n"@ == "Mode: Initializer\n"@,
        mode is Coding ==> "Mode: "@ + mode.text() + "\n"@ == "Mode: Coding\n"@,
{
    reveal_strlit("Mode: ");
    reveal_strlit("\n");
    reveal_strlit("Initializer");
    reveal_strlit("Coding");
    reveal_strlit("Mode: Initializer\n");
    reveal_strlit("Mode: Coding\n");
    assert(mode is Initializer ==> "Mode: "@ + mode.text() + "\n"@ =~= "Mode: Initializer\n"@);
    assert(mode is Coding ==> "Mode: "@ + mode.text() + "\n"@ =~= "Mode: Coding\n"@);
}

/// The handoff behind its head.
spec fn handoff_rest(d: SessionData) -> Seq<char> {
    section("### Completed Tasks\n"@, d.progress.completed_tasks, "- [x] "@) + section(
        "### In Progress\n"@,
        d.progress.in_progress_tasks,
        "- [ ] "@,
    ) + section("### Pending Tasks\n"@, d.progress.pending_tasks, "- [ ] "@) + section(
        "### Key Decisions\n"@,
        d.progress.decisions,
        "- "@,
    ) + section("### Files Modified\n"@, d.progress.files_modified, "- "@) + notes_text(
        d.progress.handoff_notes,
    ) + handoff_usage(d)
}

proof fn lemma_handoff_in_two(d: SessionData)
    ensures
        handoff_text(d) == handoff_head(d) + handoff_rest(d),
{
    assert(handoff_text(d) =~= handoff_head(d) + handoff_rest(d));
}

/// A line with a count.
spec fn counted(label: Seq<char>, n: u64, end: Seq<char>) -> Seq<char> {
    label + text::decimal(n as nat) + end + "\n"@
}

/// A handoff of a session that used tokens tells how many of each kind, and in how many turns.
pub proof fn handoffs_tell_the_usage(d: SessionData)
    requires
        d.cumulative_usage.input_tokens > 0 || d.cumulative_usage.output_tokens > 0,
    ensures
        scan::occurs(
            handoff_text(d),
            "- Input: "@ + text::decimal(d.cumulative_usage.input_tokens as nat) + " tokens"@
                + "\n"@,
        ),
        scan::occurs(
            handoff_text(d),
            "- Output: "@ + text::decimal(d.cumulative_usage.output_tokens as nat) + " tokens"@
                + "\n"@,
        ),
        scan::occurs(
            handoff_text(d),
            "- Cache read: "@ + text::decimal(d.cumulative_usage.cache_read_tokens as nat)
                + " tokens"@ + "\n"@,
        ),
        scan::occurs(
            handoff_text(d),
            "- Turns: "@ + text::decimal(d.total_turns as nat) + ""@ + "\n"@,
        ),
{
    let all = handoff_text(d);
    let u = d.cumulative_usage;
    let usage = handoff_usage(d);
    let before = all.take(all.len() - usage.len());
    assert(all =~= before + usage + Seq::<char>::empty());
    let head = "\n### Token Usage\n"@;
    let a = counted("- Input: "@, u.input_tokens, " tokens"@);
    let b = counted("- Output: "@, u.output_tokens, " tokens"@);
    let c = counted("- Cache read: "@, u.cache_read_tokens, " tokens"@);
    let e = counted("- Turns: "@, d.total_turns, ""@);
    assert(usage =~= head + a + (b + c + e));
    scan::lemma_part_occurs(head, a, b + c + e);
    assert(usage =~= (head + a) + b + (c + e));
    scan::lemma_part_occurs(head + a, b, c + e);
    assert(usage =~= (head + a + b) + c + e);
    scan::lemma_part_occurs(head + a + b, c, e);
    assert(usage =~= (head + a + b + c) + e + Seq::<char>::empty());
    scan::lemma_part_occurs(head + a + b + c, e, Seq::empty());
    scan::lemma_occurs_within(before, usage, Seq::empty(), a);
    scan::lemma_occurs_within(before, usage, Seq::empty(), b);
    scan::lemma_occurs_within(before, usage, Seq::empty(), c);
    scan::lemma_occurs_within(before, usage, Seq::empty(), e);
}

/// A session that has done nothing hands over its head alone: no heading stands there without
/// something under it.
pub proof fn a_new_session_hands_over_nothing(d: SessionData)
    requires
        d.progress == no_progress(),
        d.cumulative_usage.input_tokens == 0,
        d.cumulative_usage.output_tokens == 0,
    ensures
        handoff_text(d) == "## Session Handoff\n\n"@ + "Previous Session: "@ + d.id + "\n"@
            + "Mode: "@ + d.mode.text() + "\n"@ + "Duration: "@ + clock::minute_text(d.created_at)
            + " to "@ + clock::minute_text(d.updated_at) + "\n\n"@,
{
    assert(handoff_text(d) =~= handoff_head(d));
}

proof fn lemma_same_section(
    heading: Seq<char>,
    a: Seq<Seq<char>>,
    b: Seq<Seq<char>>,
    mark: Seq<char>,
)
    requires
        text::one_line(mark),
        forall|i: int| 0 <= i < a.len() ==> text::one_line(#[trigger] a[i]),
        forall|i: int| 0 <= i < b.len() ==> text::one_line(#[trigger] b[i]),
        section(heading, a, mark) == section(heading, b, mark),
    ensures
        a == b,
{
    reveal_strlit("\n");
    let x = section(heading, a, mark);
    let y = section(heading, b, mark);
    if a.len() > 0 && b.len() > 0 {
        let p = text::bullets(a, mark);
        let q = text::bullets(b, mark);
        assert(x =~= heading + p + "\n"@);
        assert(y =~= heading + q + "\n"@);
        assert(p =~= x.subrange(heading.len() as int, x.len() - 1));
        assert(q =~= y.subrange(heading.len() as int, y.len() - 1));
        text::lists_are_told_from_their_lines(a, b, mark);
    } else {
        if a.len() > 0 {
            assert(x =~= heading + text::bullets(a, mark) + "\n"@);
            assert(x.len() > 0);
        }
        if b.len() > 0 {
            assert(y =~= heading + text::bullets(b, mark) + "\n"@);
            assert(y.len() > 0);
        }
        assert(a =~= b);
    }
}

/// Sessions that differ in the files they modified and in nothing else hand over different
/// texts, where no path has a line break in it.
pub proof fn different_files_are_handed_over_differently(d: SessionData, e: SessionData)
    requires
        forall|i: int|
            0 <= i < d.progress.files_modified.len() ==> text::one_line(
                #[trigger] d.progress.files_modified[i],
            ),
        forall|i: int|
            0 <= i < e.progress.files_modified.len() ==> text::one_line(
                #[trigger] e.progress.files_modified[i],
            ),
        e == (SessionData {
            progress: ProgressView {
                files_modified: e.progress.files_modified,
                ..d.progress
            },
            ..d
        }),
        handoff_text(d) == handoff_text(e),
    ensures
        d.progress.files_modified == e.progress.files_modified,
{
    let p = d.progress;
    let x = handoff_text(d);
    let y = handoff_text(e);
    let before = handoff_head(d) + section(
        "### Completed Tasks\n"@,
        p.completed_tasks,
        "- [x] "@,
    ) + section("### In Progress\n"@, p.in_progress_tasks, "- [ ] "@) + section(
        "### Pending Tasks\n"@,
        p.pending_tasks,
        "- [ ] "@,
    ) + section("### Key Decisions\n"@, p.decisions, "- "@);
    let after = notes_text(p.handoff_notes) + handoff_usage(d);
    let a = section("### Files Modified\n"@, p.files_modified, "- "@);
    let b = section("### Files Modified\n"@, e.progress.files_modified, "- "@);
    assert(x =~= before + a + after);
    assert(y =~= before + b + after);
    assert(a =~= x.subrange(before.len() as int, x.len() - after.len()));
    assert(b =~= y.subrange(before.len() as int, y.len() - after.len()));
    reveal_strlit("- ");
    lemma_same_section("### Files Modified\n"@, p.files_modified, e.progress.files_modified, "- "@);
}

/// The statistics of a session tell every count of it.
pub proof fn stats_tell_every_count(d: SessionData)
    ensures
        scan::occurs(stats_text(d), "Session: "@ + d.id + "\n"@),
        scan::occurs(stats_text(d), "Turns: "@ + text::decimal(d.total_turns as nat) + ""@ + "\n"@),
        scan::occurs(
            stats_text(d),
            "Requests: "@ + text::decimal(d.request_count as nat) + ""@ + "\n"@,
        ),
        scan::occurs(
            stats_text(d),
            "Input tokens:  "@ + text::decimal(d.cumulative_usage.input_tokens as nat)
                + " (cumulative)"@ + "\n"@,
        ),
        scan::occurs(
            stats_text(d),
            "Output tokens: "@ + text::decimal(d.cumulative_usage.output_tokens as nat)
                + " (cumulative)"@ + "\n"@,
        ),
        scan::occurs(
            stats_text(d),
            "Cache read:    "@ + text::decimal(d.cumulative_usage.cache_read_tokens as nat) + ""@
                + "\n"@,
        ),
        scan::occurs(
            stats_text(d),
            "Cache write:   "@ + text::decimal(d.cumulative_usage.cache_write_tokens as nat)
                + ""@ + "\n"@,
        ),
        scan::occurs(
            stats_text(d),
            "Total tokens:  "@ + text::decimal(
                (d.cumulative_usage.input_tokens + d.cumulative_usage.output_tokens) as nat,
            ) + ""@ + "\n"@,
        ),
{
    let u = d.cumulative_usage;
    let all = stats_text(d);
    let id = "Session: "@ + d.id + "\n"@;
    let mode = "Mode: "@ + d.mode.text() + "\n"@;
    let a = counted("Turns: "@, d.total_turns, ""@);
    let b = counted("Requests: "@, d.request_count, ""@);
    let c = counted("Input tokens:  "@, u.input_tokens, " (cumulative)"@);
    let e = counted("Output tokens: "@, u.output_tokens, " (cumulative)"@);
    let f = counted("Cache read:    "@, u.cache_read_tokens, ""@);
    let g = counted("Cache write:   "@, u.cache_write_tokens, ""@);
    let h = "Total tokens:  "@ + text::decimal((u.input_tokens + u.output_tokens) as nat) + ""@
        + "\n"@;
    let last = last_turn_text(d.turn_metrics);
    let s1 = stats_head(d);
    let s2 = s1 + a;
    let s3 = s2 + b;
    let s4 = s3 + c;
    let s5 = s4 + e;
    let s6 = s5 + f;
    let s7 = s6 + g;
    let s8 = s7 + h;
    assert(all == s8 + last);
    assert(s1 =~= id + mode);
    scan::lemma_part_occurs(Seq::empty(), id, mode);
    assert(Seq::<char>::empty() + id + mode =~= s1);
    scan::lemma_occurs_ahead(s1, a, id);
    scan::lemma_occurs_ahead(s2, b, id);
    scan::lemma_occurs_ahead(s3, c, id);
    scan::lemma_occurs_ahead(s4, e, id);
    scan::lemma_occurs_ahead(s5, f, id);
    scan::lemma_occurs_ahead(s6, g, id);
    scan::lemma_occurs_ahead(s7, h, id);
    scan::lemma_occurs_ahead(s8, last, id);
    scan::lemma_occurs_ahead(s1, a, a);
    scan::lemma_occurs_ahead(s2, b, a);
    scan::lemma_occurs_ahead(s3, c, a);
    scan::lemma_occurs_ahead(s4, e, a);
    scan::lemma_occurs_ahead(s5, f, a);
    scan::lemma_occurs_ahead(s6, g, a);
    scan::lemma_occurs_ahead(s7, h, a);
    scan::lemma_occurs_ahead(s8, last, a);
    scan::lemma_occurs_ahead(s2, b, b);
    scan::lemma_occurs_ahead(s3, c, b);
    scan::lemma_occurs_ahead(s4, e, b);
    scan::lemma_occurs_ahead(s5, f, b);
    scan::lemma_occurs_ahead(s6, g, b);
    scan::lemma_occurs_ahead(s7, h, b);
    scan::lemma_occurs_ahead(s8, last, b);
    scan::lemma_occurs_ahead(s3, c, c);
    scan::lemma_occurs_ahead(s4, e, c);
    scan::lemma_occurs_ahead(s5, f, c);
    scan::lemma_occurs_ahead(s6, g, c);
    scan::lemma_occurs_ahead(s7, h, c);
    scan::lemma_occurs_ahead(s8, last, c);
    scan::lemma_occurs_ahead(s4, e, e);
    scan::lemma_occurs_ahead(s5, f, e);
    scan::lemma_occurs_ahead(s6, g, e);
    scan::lemma_occurs_ahead(s7, h, e);
    scan::lemma_occurs_ahead(s8, last, e);
    scan::lemma_occurs_ahead(s5, f, f);
    scan::lemma_occurs_ahead(s6, g, f);
    scan::lemma_occurs_ahead(s7, h, f);
    scan::lemma_occurs_ahead(s8, last, f);
    scan::lemma_occurs_ahead(s6, g, g);
    scan::lemma_occurs_ahead(s7, h, g);
    scan::lemma_occurs_ahead(s8, last, g);
    scan::lemma_occurs_ahead(s7, h, h);
    scan::lemma_occurs_ahead(s8, last, h);
}

/// The statistics ahead of the counts.
spec fn stats_head(d: SessionData) -> Seq<char> {
    "Session: "@ + d.id + "\n"@ + "Mode: "@ + d.mode.text() + "\n"@
}

/// The statistics end in the last turn: its number, the estimate and, once it is known, the
/// actual usage.
pub proof fn stats_end_in_the_last_turn(d: SessionData)
    requires
        d.turn_metrics.len() > 0,
    ensures
        scan::occurs(
            stats_text(d),
            "Last turn #"@ + text::decimal(d.turn_metrics.last().turn_number as nat)
                + ": estimated "@ + text::decimal(
                d.turn_metrics.last().estimated_input_tokens as nat,
            ) + " input tokens"@,
        ),
        d.turn_metrics.last().actual_usage matches Some(u) ==> scan::occurs(
            stats_text(d),
            ", actual "@ + text::decimal(u.input_tokens as nat) + "in/"@ + text::decimal(
                u.output_tokens as nat,
            ) + "out"@,
        ),
{
    let all = stats_text(d);
    let turn = d.turn_metrics.last();
    let last = last_turn_text(d.turn_metrics);
    let before = all.take(all.len() - last.len());
    let none = Seq::<char>::empty();
    assert(all =~= before + last + none);
    reveal_strlit("\nLast turn #");
    reveal_strlit("Last turn #");
    reveal_strlit("\n");
    assert("\nLast turn #"@ =~= "\n"@ + "Last turn #"@);
    let told = "Last turn #"@ + text::decimal(turn.turn_number as nat) + ": estimated "@
        + text::decimal(turn.estimated_input_tokens as nat) + " input tokens"@;
    let rest = last.skip(1int + told.len());
    assert(last =~= "\n"@ + told + rest);
    scan::lemma_part_occurs("\n"@, told, rest);
    scan::lemma_occurs_within(before, last, none, told);
    if let Some(u) = turn.actual_usage {
        let actual = ", actual "@ + text::decimal(u.input_tokens as nat) + "in/"@
            + text::decimal(u.output_tokens as nat) + "out"@;
        assert(last =~= ("\n"@ + told) + actual + "\n"@);
        scan::lemma_part_occurs("\n"@ + told, actual, "\n"@);
        scan::lemma_occurs_within(before, last, none, actual);
    }
}

/// A continuing session is told of the one it continues; the first one has none to be told of.
pub proof fn context_names_the_parent(id: Seq<char>)
    ensures
        scan::occurs(
            context_text(SessionMode::Coding, Some(id)),
            "Previous session ID: "@ + id + "\n"@,
        ),
        context_text(SessionMode::Initializer, Some(id)) == context_text(
            SessionMode::Initializer,
            None,
        ),
        context_text(SessionMode::Coding, None).is_prefix_of(
            context_text(SessionMode::Coding, Some(id)),
        ),
        context_text(SessionMode::Coding, None) != context_text(SessionMode::Initializer, None),
{
    let line = "Previous session ID: "@ + id + "\n"@;
    let all = context_text(SessionMode::Coding, Some(id));
    assert(all =~= CODING_CONTEXT@ + line + Seq::<char>::empty());
    scan::lemma_part_occurs(CODING_CONTEXT@, line, Seq::empty());
    assert(all.subrange(0, CODING_CONTEXT@.len() as int) =~= CODING_CONTEXT@);
    reveal_strlit("## Session Context: Initializer Agent\n\
\n\
You are the first agent working on the task. Your responsibilities:\n\
1. Understand the full scope of the work\n\
2. Create a clear plan with actionable steps\n\
3. Document key decisions and rationale\n\
4. Set up any necessary project structure\n\
5. Prepare detailed handoff notes for subsequent sessions\n\
\n\
Focus on establishing a solid foundation that future agents can build upon.");
    reveal_strlit("## Session Context: Coding Agent\n\
\n\
You are continuing work from a previous session. Your responsibilities:\n\
1. Review the handoff notes from the previous session\n\
2. Continue from where the last agent left off\n\
3. Track your progress and decisions\n\
4. Prepare handoff notes if you won't complete the task\n\
\n");
    assert(CODING_CONTEXT@[20] != INITIALIZER_CONTEXT@[20]);
}

/// What is counted is counted on: usage that is recorded is added to what was there, and the
/// turn that it belongs to is the last one, which keeps all else.
pub proof fn usage_is_recorded_for_the_last_turn(turns: Seq<TurnMetrics>, usage: TokenUsage, i: int)
    requires
        0 <= i < turns.len(),
    ensures
        with_usage(turns, usage).len() == turns.len(),
        i < turns.len() - 1 ==> with_usage(turns, usage)[i] == turns[i],
        i == turns.len() - 1 ==> with_usage(turns, usage)[i].actual_usage == Some(usage)
            && with_usage(turns, usage)[i].turn_number == turns[i].turn_number
            && with_usage(turns, usage)[i].estimated_input_tokens
            == turns[i].estimated_input_tokens && with_usage(turns, usage)[i].timestamp
            == turns[i].timestamp,
{
}

/// A file is added at the end of the list, once; the files that were there stay.
pub proof fn files_are_listed_once(files: Seq<Seq<char>>, path: Seq<char>, i: int)
    ensures
        with_file(files, path).contains(path),
        0 <= i < files.len() ==> with_file(files, path)[i] == files[i],
        !files.contains(path) ==> with_file(files, path).len() == files.len() + 1 && with_file(
            files,
            path,
        ).last() == path,
        files.contains(path) ==> with_file(files, path) == files,
        files.no_duplicates() ==> with_file(files, path).no_duplicates(),
{
    if !files.contains(path) {
        assert(with_file(files, path)[files.len() as int] == path);
    }
    if files.no_duplicates() && !files.contains(path) {
        let all = files.push(path);
        assert forall|a: int, b: int| 0 <= a < b < all.len() implies all[a] != all[b] by {
            if b == files.len() {
                assert(files.contains(files[a]));
            }
        }
    }
}

/// A session that goes on from another is one for coding and names the other; one that starts
/// afresh initializes the project. Both start with nothing done, at the time they are made.
pub proof fn sessions_start_by_their_parent(id: Seq<char>, parent: Seq<char>, now: Timestamp)
    ensures
        fresh_session(id, Some(parent), now).mode == SessionMode::Coding,
        fresh_session(id, None, now).mode == SessionMode::Initializer,
        fresh_session(id, Some(parent), now).parent_session_id == Some(parent),
        fresh_session(id, None, now).parent_session_id is None,
        forall|from: Option<Seq<char>>|
            ({
                let d = #[trigger] fresh_session(id, from, now);
                &&& d.id == id
                &&& d.created_at == now
                &&& d.updated_at == now
                &&& d.request_count == 0
                &&& d.total_turns == 0
                &&& d.turn_metrics.len() == 0
                &&& d.progress.files_modified.len() == 0
                &&& d.cumulative_usage.input_tokens == 0
                &&& d.cumulative_usage.output_tokens == 0
            }),
{
}

} // verus!
