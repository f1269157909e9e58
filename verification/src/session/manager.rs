//! The session manager: which session is current, what is kept of it on disk, and under
//! which names.

use vstd::prelude::*;

use super::record::{
    file_id_error, fresh_session, handoff_text, validate_session_file_id, ProgressView, Session,
    SessionData, SessionView,
};
use super::state::usage_total;
use super::task::{ManagerView, TaskManager};
use crate::clock::{self, Timestamp};
use crate::ids;
use crate::json;
use crate::seqs;
use crate::text;

verus! {

/// Why a session could not be ended.
#[derive(Clone, Debug, PartialEq, Eq)]
pub enum EndSessionError {
    /// No current session was active.
    NotFound,
    /// The session could not be persisted. It has been taken from the manager already.
    PersistFailed {
        /// The reason, in words.
        source: String,
    },
}

/// The message for a session that could not be ended.
pub open spec fn end_error_text(e: EndSessionError) -> Seq<char> {
    match e {
        EndSessionError::NotFound => "no current session is active"@,
        EndSessionError::PersistFailed { source } => "failed to persist session to disk: "@
            + source@,
    }
}

impl EndSessionError {
    /// The message for the error.
    pub fn message(&self) -> (out: String)
        ensures
            out@ == end_error_text(*self),
    {
        match self {
            EndSessionError::NotFound => "no current session is active".to_owned(),
            EndSessionError::PersistFailed {
                source,
            } => "failed to persist session to disk: ".to_owned().concat(source.as_str()),
        }
    }
}

/// The files that persist a session, relative to the session directory. The first two
/// hold the session itself.
#[derive(Debug)]
pub struct PersistPlan {
    /// The session's own file.
    pub session_file: String,
    /// The file of the most recent session.
    pub latest_file: String,
    /// The file of the handoff.
    pub handoff_file: String,
    /// What the handoff says.
    pub handoff: String,
}

/// The file of the session `id`.
pub open spec fn session_file(id: Seq<char>) -> Seq<char> {
    id + ".json"@
}

/// The plan persists the session.
pub open spec fn persists(plan: PersistPlan, session: SessionData) -> bool {
    &&& plan.session_file@ == session_file(session.id)
    &&& plan.latest_file@ == "latest.json"@
    &&& plan.handoff_file@ == "handoff.md"@
    &&& plan.handoff@ == handoff_text(session)
}

/// What is said of a session whose id cannot name a file.
pub open spec fn bad_id_text(id: Seq<char>, reason: Seq<char>) -> Seq<char> {
    "invalid session id "@ + text::quoted(id) + ": "@ + reason
}

/// The file that holds the session `id`, where the id can name one.
pub fn session_file_name(id: &str) -> (r: Result<String, &'static str>)
    ensures
        match r {
            Ok(name) => file_id_error(id@) is None && name@ == session_file(id@),
            Err(reason) => file_id_error(id@) == Some(reason@),
        },
{
    match validate_session_file_id(id) {
        Ok(()) => Ok(id.to_owned().concat(".json")),
        Err(reason) => Err(reason),
    }
}

/// What has to be written to persist a session.
pub fn persist_session(session: &Session) -> (r: Result<PersistPlan, String>)
    requires
        usage_total(session.cumulative_usage) <= u64::MAX,
    ensures
        match r {
            Ok(plan) => file_id_error(session.id@) is None && persists(plan, session.data()),
            Err(message) => file_id_error(session.id@) is Some && message@ == bad_id_text(
                session.id@,
                file_id_error(session.id@)->0,
            ),
        },
{
    match session_file_name(session.id.as_str()) {
        Ok(name) => Ok(
            PersistPlan {
                session_file: name,
                latest_file: "latest.json".to_owned(),
                handoff_file: "handoff.md".to_owned(),
                handoff: session.generate_handoff(),
            },
        ),
        Err(reason) => {
            let id = text::debug_quoted(session.id.as_str());
            Err("invalid session id ".to_owned().concat(id.as_str()).concat(": ").concat(reason))
        },
    }
}

/// A session read from a file, unless its embedded id cannot name a file.
pub open spec fn accepted(session: Session) -> Option<Session> {
    if file_id_error(session.id@) is None {
        Some(session)
    } else {
        None
    }
}

/// A session read from a file, unless its embedded id cannot name a file.
pub fn accept_loaded(session: Session) -> (r: Option<Session>)
    ensures
        r == accepted(session),
{
    match validate_session_file_id(session.id.as_str()) {
        Ok(()) => Some(session),
        Err(_) => None,
    }
}

/// Whether a directory entry is a session's own file: a `.json` file other than the copy
/// of the latest session.
pub open spec fn is_session_entry(stem: Option<Seq<char>>, extension: Option<Seq<char>>) -> bool {
    extension == Some("json"@) && stem != Some("latest"@)
}

/// Whether a directory entry with the given stem and extension is a session's own file.
pub fn is_session_file(stem: Option<&str>, extension: Option<&str>) -> (b: bool)
    ensures
        b == is_session_entry(json::str_view(stem), json::str_view(extension)),
{
    let json_file = match extension {
        Some(e) => text::str_eq(e, "json"),
        None => false,
    };
    let latest = match stem {
        Some(s) => text::str_eq(s, "latest"),
        None => false,
    };
    json_file && !latest
}

/// What a list of sessions says.
pub open spec fn sessions_data(sessions: Seq<Session>) -> Seq<SessionData> {
    Seq::new(sessions.len(), |i: int| sessions[i].data())
}

/// `a` was created after `b`.
pub open spec fn newer() -> spec_fn(SessionData, SessionData) -> bool {
    |a: SessionData, b: SessionData| clock::before(b.created_at, a.created_at)
}

/// The sessions by time of creation, the newest first; those of one time in the order
/// they had.
pub open spec fn newest_first(sessions: Seq<SessionData>) -> Seq<SessionData> {
    seqs::sorted_by(sessions, newer())
}

/// Sessions created at the given time.
pub open spec fn created_at(t: Timestamp) -> spec_fn(SessionData) -> bool {
    |s: SessionData| s.created_at == t
}

proof fn lemma_filter_has_source(list: Seq<SessionData>, p: spec_fn(SessionData) -> bool)
    requires
        list.filter(p).len() > 0,
    ensures
        exists|i: int| 0 <= i < list.len() && p(list[i]),
    decreases list.len(),
{
    reveal(Seq::filter);
    if list.len() > 0 && !p(list.last()) {
        lemma_filter_has_source(list.drop_last(), p);
        let i = choose|i: int| 0 <= i < list.drop_last().len() && p(list.drop_last()[i]);
        assert(p(list[i]));
    }
}

/// Putting a session into its slot puts it last among those of its time.
proof fn lemma_insert_stable(rest: Seq<SessionData>, x: SessionData, t: Timestamp)
    requires
        seqs::in_order(rest, newer()),
    ensures
        rest.insert(seqs::slot(rest, newer(), x), x).filter(created_at(t)) == (rest
            + seq![x]).filter(created_at(t)),
{
    let at = seqs::slot(rest, newer(), x);
    let all = rest.insert(at, x);
    let p = created_at(t);
    let head = rest.take(at);
    let tail = rest.skip(at);
    seqs::lemma_slot(rest, newer(), x);
    assert(rest =~= head + tail);
    assert(all =~= head + seq![x] + tail);
    Seq::filter_distributes_over_add(head, tail, p);
    Seq::filter_distributes_over_add(head + seq![x], tail, p);
    Seq::filter_distributes_over_add(head, seq![x], p);
    Seq::filter_distributes_over_add(rest, seq![x], p);
    if p(x) {
        assert(tail.filter(p) =~= seq![]) by {
            if tail.filter(p).len() > 0 {
                lemma_filter_has_source(tail, p);
                let i = choose|i: int| 0 <= i < tail.len() && p(tail[i]);
                assert(tail[i] == rest[at + i]);
                assert(newer()(x, rest[at]));
                assert(!newer()(rest[at + i], rest[at]));
            }
        }
    } else {
        assert(seq![x].filter(p) =~= seq![]) by {
            if seq![x].filter(p).len() > 0 {
                lemma_filter_has_source(seq![x], p);
            }
        }
    }
    assert(head.filter(p) + seq![x].filter(p) + tail.filter(p) =~= head.filter(p) + tail.filter(p)
        + seq![x].filter(p));
}

/// Sorting puts the newest session first and keeps every session.
pub proof fn newest_first_sorts(sessions: Seq<SessionData>)
    ensures
        seqs::in_order(newest_first(sessions), newer()),
        newest_first(sessions).to_multiset() == sessions.to_multiset(),
        newest_first(sessions).len() == sessions.len(),
{
    seqs::lemma_sorted_by(sessions, newer());
}

/// Sorting leaves sessions of one time in the order they had.
pub proof fn newest_first_is_stable(sessions: Seq<SessionData>, t: Timestamp)
    ensures
        newest_first(sessions).filter(created_at(t)) == sessions.filter(created_at(t)),
    decreases sessions.len(),
{
    if sessions.len() > 0 {
        let x = sessions.last();
        let before = sessions.drop_last();
        newest_first_is_stable(before, t);
        newest_first_sorts(before);
        let rest = newest_first(before);
        lemma_insert_stable(rest, x, t);
        Seq::filter_distributes_over_add(rest, seq![x], created_at(t));
        Seq::filter_distributes_over_add(before, seq![x], created_at(t));
        assert(sessions =~= before + seq![x]);
    }
}

/// The sessions by time of creation, the newest first.
pub fn sort_sessions(sessions: Vec<Session>) -> (out: Vec<Session>)
    ensures
        sessions_data(out@) == newest_first(sessions_data(sessions@)),
{
    let mut left = sessions;
    let mut out: Vec<Session> = Vec::new();
    let ghost all = sessions_data(sessions@);
    let ghost mut k: int = 0;
    assert(all.take(0) =~= seq![]);
    assert(sessions_data(out@) =~= seq![]);
    while left.len() > 0
        invariant
            0 <= k <= all.len(),
            sessions_data(left@) =~= all.skip(k),
            sessions_data(out@) == newest_first(all.take(k)),
        decreases left@.len(),
    {
        let ghost sorted = sessions_data(out@);
        let ghost lefts = left@;
        let session = left.remove(0);
        proof {
            assert(sessions_data(lefts) == all.skip(k));
            assert(sessions_data(lefts).len() == all.len() - k);
            assert(sessions_data(lefts)[0] == lefts[0].data());
            assert(all.skip(k)[0] == all[k]);
        }
        assert(session.data() == all[k]);
        let ghost x = session.data();
        let ghost after = |y: SessionData| newer()(x, y);
        let mut at: usize = 0;
        while at < out.len() && !out[at].created_at.before(&session.created_at)
            invariant
                0 <= at <= out@.len(),
                sorted == sessions_data(out@),
                x == session.data(),
                after == (|y: SessionData| newer()(x, y)),
                forall|j: int| 0 <= j < at ==> !after(#[trigger] sorted[j]),
            decreases out@.len() - at,
        {
            assert(sorted[at as int] == out@[at as int].data());
            at += 1;
        }
        proof {
            if at < out@.len() {
                assert(sorted[at as int] == out@[at as int].data());
                assert(seqs::is_first_where(sorted, after, at as int));
                seqs::lemma_first_where(sorted, after, at as int);
            } else {
                seqs::lemma_none_where(sorted, after);
            }
            assert(seqs::slot(sorted, newer(), x) == at);
            assert(all.take(k + 1).drop_last() =~= all.take(k));
            assert(sessions_data(left@) =~= all.skip(k + 1)) by {
                assert(left@ =~= lefts.drop_first());
                assert(sessions_data(left@) =~= sessions_data(lefts).drop_first());
                assert(all.skip(k).drop_first() =~= all.skip(k + 1));
            }
        }
        out.insert(at, session);
        proof {
            assert(sessions_data(out@) =~= sorted.insert(at as int, all[k]));
            k = k + 1;
        }
    }
    assert(all.take(k) =~= all);
    out
}

/// The files of the sessions beyond the first `keep`, leaving out ids that cannot name
/// a file.
pub open spec fn stale_files(sessions: Seq<SessionData>, keep: int) -> Seq<Seq<char>>
    decreases sessions.len(),
{
    if sessions.len() <= keep || sessions.len() == 0 {
        seq![]
    } else if file_id_error(sessions.last().id) is None {
        stale_files(sessions.drop_last(), keep).push(session_file(sessions.last().id))
    } else {
        stale_files(sessions.drop_last(), keep)
    }
}

/// The files to remove so that only the first `keep_count` of the listed sessions stay.
pub fn cleanup_old_sessions(sessions: &Vec<Session>, keep_count: usize) -> (files: Vec<String>)
    ensures
        text::views(files@) == stale_files(sessions_data(sessions@), keep_count as int),
{
    let mut files: Vec<String> = Vec::new();
    let ghost all = sessions_data(sessions@);
    let mut i: usize = keep_count;
    assert(text::views(files@) =~= seq![]);
    if sessions.len() <= keep_count {
        return files;
    }
    while i < sessions.len()
        invariant
            keep_count <= i <= sessions@.len(),
            all == sessions_data(sessions@),
            text::views(files@) == stale_files(all.take(i as int), keep_count as int),
        decreases sessions@.len() - i,
    {
        let ghost before = text::views(files@);
        proof {
            assert(all.take(i + 1).drop_last() =~= all.take(i as int));
            assert(all.take(i + 1).last() == sessions@[i as int].data());
        }
        if let Ok(name) = session_file_name(sessions[i].id.as_str()) {
            files.push(name);
            assert(text::views(files@) =~= before.push(name@));
        }
        i += 1;
    }
    assert(all.take(i as int) =~= all);
    files
}

/// The name under which a file is written before it takes its place.
pub open spec fn staging_text(name: Option<Seq<char>>, pid: u32, token: Seq<char>) -> Seq<char> {
    (match name {
        Some(name) => name,
        None => "session"@,
    }) + "."@ + text::decimal(pid as nat) + "."@ + token + ".tmp"@
}

/// The name under which a file is written before it takes its place.
pub fn staging_name(name: Option<&str>, pid: u32, token: &str) -> (out: String)
    ensures
        out@ == staging_text(json::str_view(name), pid, token@),
{
    let mut out = match name {
        Some(name) => name.to_owned(),
        None => "session".to_owned(),
    };
    out.append(".");
    text::push_decimal(&mut out, pid as u64);
    out.append(".");
    out.append(token);
    out.append(".tmp");
    out
}

/// A name under which a file can be written before it takes its place, which no other
/// writer uses: `<file>.<pid>.<uuid>.tmp`.
pub fn unique_staging_name(name: Option<&str>, pid: u32) -> (out: String)
    ensures
        exists|token: Seq<char>|
            token.len() == 32 && out@ == #[trigger] staging_text(json::str_view(name), pid, token),
{
    let token = ids::fresh_uuid_simple();
    staging_name(name, pid, token.as_str())
}

/// Manages the life of sessions.
#[derive(Clone, Debug)]
pub struct SessionManager {
    /// Directory for session persistence.
    persist_dir: String,
    /// Current active session.
    current_session: Option<Session>,
    /// Advisory context to inject into the next turn.
    vdd_pending_context: Option<String>,
    /// Structured task manager for the task tools.
    pub task_manager: TaskManager,
}

/// What a manager holds.
pub struct SessionsView {
    pub persist_dir: Seq<char>,
    pub current: Option<SessionData>,
    pub pending_context: Option<Seq<char>>,
    pub tasks: ManagerView,
}

/// What a session that may be missing says.
pub open spec fn opt_data(session: Option<Session>) -> Option<SessionData> {
    match session {
        Some(session) => Some(session.data()),
        None => None,
    }
}

impl View for SessionManager {
    type V = SessionsView;

    closed spec fn view(&self) -> SessionsView {
        SessionsView {
            persist_dir: self.persist_dir@,
            current: opt_data(self.current_session),
            pending_context: text::opt_view(self.vdd_pending_context),
            tasks: self.task_manager@,
        }
    }
}

/// What ending a session answers, where `before` was current.
pub open spec fn end_answer(
    before: Option<SessionData>,
    notes: Option<Seq<char>>,
    r: Result<(Session, PersistPlan), EndSessionError>,
) -> bool {
    match before {
        None => r matches Err(e) && e is NotFound,
        Some(current) => if let Some(reason) = file_id_error(current.id) {
            r matches Err(EndSessionError::PersistFailed { source }) && source@ == bad_id_text(
                current.id,
                reason,
            )
        } else {
            r matches Ok((session, plan)) && persists(plan, session.data()) && session.data() == (
            match notes {
                Some(notes) => SessionData {
                    progress: ProgressView { handoff_notes: notes, ..current.progress },
                    updated_at: session.updated_at,
                    ..current
                },
                None => current,
            })
        },
    }
}

/// A manager with a pending context.
pub open spec fn stored(m: SessionsView, context: Seq<char>) -> SessionsView {
    SessionsView { pending_context: Some(context), ..m }
}

/// A manager without a pending context.
pub open spec fn taken(m: SessionsView) -> SessionsView {
    SessionsView { pending_context: None, ..m }
}

impl SessionManager {
    /// Create a new session manager.
    pub fn new(persist_dir: String) -> (m: SessionManager)
        ensures
            m@ == (SessionsView {
                persist_dir: persist_dir@,
                current: None,
                pending_context: None,
                tasks: ManagerView { tasks: seq![], next_id: 1 },
            }),
    {
        SessionManager {
            persist_dir,
            current_session: None,
            vdd_pending_context: None,
            task_manager: TaskManager::new(),
        }
    }

    /// Directory for session persistence.
    pub fn persist_dir(&self) -> (dir: &str)
        ensures
            dir@ == self@.persist_dir,
    {
        self.persist_dir.as_str()
    }

    /// Get the current session, creating one if none exists. `latest_id` is the id of the
    /// session that the latest file holds, if it holds one: a new session continues it.
    pub fn get_or_create_session(&mut self, latest_id: Option<&str>) -> (session: &Session)
        ensures
            final(self)@ == (SessionsView { current: Some(session.data()), ..old(self)@ }),
            old(self)@.current matches Some(current) ==> session.data() == current,
            old(self)@.current is None ==> session.data() == fresh_session(
                session.id@,
                json::str_view(latest_id),
                session.created_at,
            ) && ids::uuid_shaped(session.id@),
    {
        if self.current_session.is_none() {
            let session = match latest_id {
                Some(id) => Session::new_coding(id),
                None => Session::new_initializer(),
            };
            self.current_session = Some(session);
        }
        match &self.current_session {
            Some(session) => session,
            None => vstd::pervasive::unreached(),
        }
    }

    /// Get the current session mutably.
    pub fn get_session_mut(&mut self) -> (r: Option<&mut Session>)
        ensures
            match r {
                Some(session) => old(self)@.current == Some(session.data()) && final(self)@ == (
                SessionsView { current: Some(final(session).data()), ..old(self)@ }),
                None => old(self)@.current is None && final(self)@ == old(self)@,
            },
    {
        self.current_session.as_mut()
    }

    /// Get the current session.
    pub fn get_session(&self) -> (r: Option<&Session>)
        ensures
            match r {
                Some(session) => self@.current == Some(session.data()),
                None => self@.current is None,
            },
    {
        self.current_session.as_ref()
    }

    /// Get a read-only view of the current session.
    pub fn current_view(&self) -> (r: Option<SessionView<'_>>)
        ensures
            match r {
                Some(view) => self@.current == Some(view.of().data()),
                None => self@.current is None,
            },
    {
        match &self.current_session {
            Some(session) => Some(session.view()),
            None => None,
        }
    }

    /// Store advisory context to inject into the next turn.
    pub fn store_vdd_context(&mut self, context: String)
        ensures
            final(self)@ == stored(old(self)@, context@),
    {
        self.vdd_pending_context = Some(context);
    }

    /// Take (consume) the pending context for injection.
    pub fn take_vdd_context(&mut self) -> (context: Option<String>)
        ensures
            text::opt_view(context) == old(self)@.pending_context,
            final(self)@ == taken(old(self)@),
    {
        self.vdd_pending_context.take()
    }

    /// Start a fresh initializer session.
    pub fn start_initializer(&mut self) -> (session: &Session)
        ensures
            session.data() == fresh_session(session.id@, None, session.created_at),
            ids::uuid_shaped(session.id@),
            final(self)@ == (SessionsView { current: Some(session.data()), ..old(self)@ }),
    {
        self.current_session = None;
        self.get_or_create_session(None)
    }

    /// Start a coding session from a parent.
    pub fn start_coding(&mut self, parent_id: &str) -> (session: &Session)
        ensures
            session.data() == fresh_session(session.id@, Some(parent_id@), session.created_at),
            ids::uuid_shaped(session.id@),
            final(self)@ == (SessionsView { current: Some(session.data()), ..old(self)@ }),
    {
        self.current_session = None;
        self.get_or_create_session(Some(parent_id))
    }

    /// End the current session: take it from the manager and say what has to be written
    /// to persist it.
    pub fn end_session(&mut self, handoff_notes: Option<&str>) -> (r: Result<
        (Session, PersistPlan),
        EndSessionError,
    >)
        requires
            old(self)@.current matches Some(current) ==> usage_total(current.cumulative_usage)
                <= u64::MAX,
        ensures
            final(self)@ == (SessionsView { current: None, ..old(self)@ }),
            end_answer(old(self)@.current, json::str_view(handoff_notes), r),
    {
        let mut session = match self.current_session.take() {
            Some(session) => session,
            None => {
                return Err(EndSessionError::NotFound);
            },
        };
        if let Some(notes) = handoff_notes {
            session.set_handoff_notes(notes.to_owned());
        }
        match persist_session(&session) {
            Ok(plan) => Ok((session, plan)),
            Err(source) => Err(EndSessionError::PersistFailed { source }),
        }
    }
}

/// A session that was persisted is found again: its plan names the file that its id leads
/// to, and what is read from there is accepted.
pub proof fn persisted_sessions_are_found_again(
    current: SessionData,
    notes: Option<Seq<char>>,
    r: Result<(Session, PersistPlan), EndSessionError>,
)
    requires
        end_answer(Some(current), notes, r),
        r is Ok,
    ensures
        r->Ok_0.1.session_file@ == session_file(current.id),
        accepted(r->Ok_0.0) == Some(r->Ok_0.0),
{
}

/// A stored context is handed out once: the next take gives it, the one after gives
/// nothing, and nothing else has changed.
pub proof fn stored_context_is_taken_once(m: SessionsView, context: Seq<char>)
    ensures
        stored(m, context).pending_context == Some(context),
        taken(stored(m, context)).pending_context is None,
        taken(stored(m, context)) == taken(m),
{
}

/// What is persisted of a session is told of it: the handoff file holds its handoff, and its
/// own file is called after it, so that sessions with different ids have different files.
pub proof fn sessions_are_persisted_under_their_id(
    plan: PersistPlan,
    session: SessionData,
    a: Seq<char>,
    b: Seq<char>,
)
    requires
        persists(plan, session),
    ensures
        plan.handoff@ == handoff_text(session),
        plan.session_file@ == session.id + ".json"@,
        plan.latest_file@ == "latest.json"@,
        plan.handoff_file@ == "handoff.md"@,
        session_file(a) == session_file(b) ==> a == b,
{
    let end = ".json"@;
    let x = session_file(a);
    let y = session_file(b);
    assert(a =~= x.take(x.len() - end.len()));
    assert(b =~= y.take(y.len() - end.len()));
}

/// The first sessions of the list are kept, as many as are to be; the file of every other one
/// is stale, if its id can name a file, and no other file is.
pub proof fn later_sessions_are_stale(sessions: Seq<SessionData>, keep: int, file: Seq<char>)
    requires
        keep >= 0,
    ensures
        stale_files(sessions, keep).contains(file) <==> exists|i: int|
            keep <= i < sessions.len() && file_id_error((#[trigger] sessions[i]).id) is None && file
                == sessions[i].id + ".json"@,
        sessions.len() <= keep ==> stale_files(sessions, keep).len() == 0,
    decreases sessions.len(),
{
    if sessions.len() > keep {
        let rest = sessions.drop_last();
        later_sessions_are_stale(rest, keep, file);
        let before = stale_files(rest, keep);
        let now = stale_files(sessions, keep);
        let last = sessions.last();
        if before.contains(file) {
            let i = choose|i: int|
                keep <= i < rest.len() && file_id_error((#[trigger] rest[i]).id) is None && file
                    == rest[i].id + ".json"@;
            assert(sessions[i] == rest[i]);
            let k = choose|k: int| 0 <= k < before.len() && before[k] == file;
            assert(now[k] == file);
        }
        if now.contains(file) && !before.contains(file) {
            let k = choose|k: int| 0 <= k < now.len() && now[k] == file;
            assert(k >= before.len() || before[k] == file);
            assert(sessions[sessions.len() - 1].id + ".json"@ == file);
        }
        if exists|i: int|
            keep <= i < sessions.len() && file_id_error((#[trigger] sessions[i]).id) is None && file
                == sessions[i].id + ".json"@ {
            let i = choose|i: int|
                keep <= i < sessions.len() && file_id_error((#[trigger] sessions[i]).id) is None
                    && file == sessions[i].id + ".json"@;
            if i < rest.len() {
                assert(rest[i] == sessions[i]);
            } else {
                assert(now.last() == file);
            }
        }
    }
}

/// Of two sessions the one that was created later is listed first.
pub proof fn newest_sessions_come_first(sessions: Seq<SessionData>, i: int, j: int)
    requires
        0 <= i < j < sessions.len(),
    ensures
        !clock::before(
            newest_first(sessions)[i].created_at,
            newest_first(sessions)[j].created_at,
        ),
{
    newest_first_sorts(sessions);
    let list = newest_first(sessions);
    assert(!newer()(list[j], list[i]));
}

/// A file is that of a session if its extension says so, but for that of the latest one.
pub proof fn session_files_are_told_by_name(stem: Seq<char>)
    ensures
        stem != "latest"@ ==> is_session_entry(Some(stem), Some("json"@)),
        !is_session_entry(Some("latest"@), Some("json"@)),
        is_session_entry(Some(stem), Some(stem)) ==> stem == "json"@,
        !is_session_entry(Some(stem), None),
{
}

/// A session that ends with notes hands them over; without notes it ends as it was.
pub proof fn notes_are_handed_over(
    current: SessionData,
    notes: Seq<char>,
    r: Result<(Session, PersistPlan), EndSessionError>,
)
    requires
        file_id_error(current.id) is None,
    ensures
        end_answer(Some(current), Some(notes), r) ==> (r matches Ok((session, plan))
            && session.data().progress.handoff_notes == notes && session.data().id == current.id
            && session.data().cumulative_usage == current.cumulative_usage
            && session.data().progress.files_modified == current.progress.files_modified
            && plan.handoff@ == handoff_text(session.data())),
        end_answer(Some(current), None, r) ==> (r matches Ok((session, plan)) && session.data()
            == current && plan.handoff@ == handoff_text(current)),
        end_answer(None, None, r) ==> r is Err,
{
}

} // verus!
