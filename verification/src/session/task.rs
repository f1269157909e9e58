//! Structured task management with dependency tracking.

use vstd::prelude::*;

use crate::clock::{self, Timestamp};
use crate::graph;
use crate::scan;
use crate::seqs;
use crate::text;

verus! {

/// Status of a managed task.
#[derive(Clone, Copy, Debug, PartialEq, Eq, Structural)]
pub enum TaskStatus {
    Pending,
    InProgress,
    Completed,
}

impl TaskStatus {
    /// The word for the status.
    pub open spec fn text(self) -> Seq<char> {
        match self {
            TaskStatus::Pending => "pending"@,
            TaskStatus::InProgress => "in_progress"@,
            TaskStatus::Completed => "completed"@,
        }
    }

    /// The word for the status.
    pub fn as_str(&self) -> (s: &'static str)
        ensures
            s@ == self.text(),
    {
        match self {
            TaskStatus::Pending => "pending",
            TaskStatus::InProgress => "in_progress",
            TaskStatus::Completed => "completed",
        }
    }

    /// The word for the status, owned.
    pub fn to_string(&self) -> (s: String)
        ensures
            s@ == self.text(),
    {
        self.as_str().to_owned()
    }
}

/// A structured task with dependency tracking.
#[derive(Clone, Debug)]
pub struct Task {
    /// Unique task identifier (auto-incrementing, e.g. "task-1").
    pub id: String,
    /// Brief title in imperative form (e.g. "Add permission system").
    pub subject: String,
    /// Detailed description of the task.
    pub description: String,
    /// Present continuous form for spinner display (e.g. "Adding permission system").
    pub active_form: Option<String>,
    /// Current task status.
    pub status: TaskStatus,
    /// Ids of the tasks that the task blocks (downstream dependencies).
    pub blocks: Vec<String>,
    /// Ids of the tasks that block the task (upstream dependencies).
    pub blocked_by: Vec<String>,
    /// When the task was created.
    pub created_at: Timestamp,
}

/// What a task says.
#[verifier::ext_equal]
pub struct TaskView {
    pub id: Seq<char>,
    pub subject: Seq<char>,
    pub description: Seq<char>,
    pub active_form: Option<Seq<char>>,
    pub status: TaskStatus,
    pub blocks: Seq<Seq<char>>,
    pub blocked_by: Seq<Seq<char>>,
    pub created_at: Timestamp,
}

impl View for Task {
    type V = TaskView;

    open spec fn view(&self) -> TaskView {
        TaskView {
            id: self.id@,
            subject: self.subject@,
            description: self.description@,
            active_form: text::opt_view(self.active_form),
            status: self.status,
            blocks: text::views(self.blocks@),
            blocked_by: text::views(self.blocked_by@),
            created_at: self.created_at,
        }
    }
}

/// What a list of tasks says.
pub open spec fn task_views(tasks: Seq<Task>) -> Seq<TaskView> {
    Seq::new(tasks.len(), |i: int| tasks[i]@)
}

/// Status values accepted by task updates (includes Deleted which removes the task).
#[derive(Clone, Copy, Debug, PartialEq, Eq, Structural)]
pub enum TaskUpdateStatus {
    Pending,
    InProgress,
    Completed,
    Deleted,
}

impl TaskUpdateStatus {
    /// The word that asks for the status.
    pub open spec fn text(self) -> Seq<char> {
        match self {
            TaskUpdateStatus::Pending => "pending"@,
            TaskUpdateStatus::InProgress => "in_progress"@,
            TaskUpdateStatus::Completed => "completed"@,
            TaskUpdateStatus::Deleted => "deleted"@,
        }
    }

    /// Parse from string. Returns None for unrecognized values.
    pub fn parse(s: &str) -> (status: Option<TaskUpdateStatus>)
        ensures
            match status {
                Some(status) => s@ == status.text(),
                None => forall|status: TaskUpdateStatus| s@ != #[trigger] status.text(),
            },
    {
        if text::str_eq(s, "pending") {
            Some(TaskUpdateStatus::Pending)
        } else if text::str_eq(s, "in_progress") {
            Some(TaskUpdateStatus::InProgress)
        } else if text::str_eq(s, "completed") {
            Some(TaskUpdateStatus::Completed)
        } else if text::str_eq(s, "deleted") {
            Some(TaskUpdateStatus::Deleted)
        } else {
            None
        }
    }
}

/// No two statuses are asked for by the same word.
pub proof fn update_status_words_differ(a: TaskUpdateStatus, b: TaskUpdateStatus)
    requires
        a.text() == b.text(),
    ensures
        a == b,
{
    reveal_strlit("pending");
    reveal_strlit("in_progress");
    reveal_strlit("completed");
    reveal_strlit("deleted");
    assert("pending"@[0] == 'p');
    assert("in_progress"@[0] == 'i');
    assert("completed"@[0] == 'c');
    assert("deleted"@[0] == 'd');
}

/// Parameters for updating an existing task.
pub struct TaskUpdateParams {
    pub status: Option<TaskUpdateStatus>,
    pub subject: Option<String>,
    pub description: Option<String>,
    pub active_form: Option<String>,
    pub add_blocks: Option<Vec<String>>,
    pub add_blocked_by: Option<Vec<String>>,
}

impl Default for TaskUpdateParams {
    fn default() -> (params: TaskUpdateParams)
        ensures
            params.status is None,
            params.subject is None,
            params.description is None,
            params.active_form is None,
            params.add_blocks is None,
            params.add_blocked_by is None,
    {
        TaskUpdateParams {
            status: None,
            subject: None,
            description: None,
            active_form: None,
            add_blocks: None,
            add_blocked_by: None,
        }
    }
}

/// What an update asks for. A list that is not given adds nothing.
pub struct UpdateView {
    pub status: Option<TaskUpdateStatus>,
    pub subject: Option<Seq<char>>,
    pub description: Option<Seq<char>>,
    pub active_form: Option<Seq<char>>,
    pub add_blocks: Seq<Seq<char>>,
    pub add_blocked_by: Seq<Seq<char>>,
}

/// The ids of a list that need not be given.
pub open spec fn opt_list(list: Option<Vec<String>>) -> Seq<Seq<char>> {
    match list {
        Some(items) => text::views(items@),
        None => seq![],
    }
}

impl View for TaskUpdateParams {
    type V = UpdateView;

    open spec fn view(&self) -> UpdateView {
        UpdateView {
            status: self.status,
            subject: text::opt_view(self.subject),
            description: text::opt_view(self.description),
            active_form: text::opt_view(self.active_form),
            add_blocks: opt_list(self.add_blocks),
            add_blocked_by: opt_list(self.add_blocked_by),
        }
    }
}

/// `tasks[i]` is the first task called `id`.
pub open spec fn is_first(tasks: Seq<TaskView>, id: Seq<char>, i: int) -> bool {
    &&& 0 <= i < tasks.len()
    &&& tasks[i].id == id
    &&& forall|j: int| 0 <= j < i ==> (#[trigger] tasks[j]).id != id
}

/// Some task is called `id`.
pub open spec fn known(tasks: Seq<TaskView>, id: Seq<char>) -> bool {
    exists|i: int| is_first(tasks, id, i)
}

/// Where the first task called `id` stands.
pub open spec fn first_of(tasks: Seq<TaskView>, id: Seq<char>) -> int {
    choose|i: int| is_first(tasks, id, i)
}

/// The first task called `id`.
pub open spec fn find(tasks: Seq<TaskView>, id: Seq<char>) -> Option<TaskView> {
    if known(tasks, id) {
        Some(tasks[first_of(tasks, id)])
    } else {
        None
    }
}

pub proof fn lemma_first(tasks: Seq<TaskView>, id: Seq<char>, i: int)
    requires
        is_first(tasks, id, i),
    ensures
        known(tasks, id),
        first_of(tasks, id) == i,
        find(tasks, id) == Some(tasks[i]),
{
    let c = first_of(tasks, id);
    assert(is_first(tasks, id, c));
    if c < i {
        assert(tasks[c].id != id);
    }
    if i < c {
        assert(tasks[i].id != id);
    }
}

/// A task stands somewhere if and only if some place holds its id.
pub proof fn lemma_known(tasks: Seq<TaskView>, id: Seq<char>, i: int)
    requires
        0 <= i < tasks.len(),
        tasks[i].id == id,
    ensures
        known(tasks, id),
    decreases i,
{
    if exists|j: int| 0 <= j < i && tasks[j].id == id {
        let j = choose|j: int| 0 <= j < i && tasks[j].id == id;
        lemma_known(tasks, id, j);
    } else {
        assert(is_first(tasks, id, i));
    }
}

/// Manages structured tasks with dependency tracking.
///
/// Enforces the invariant that only one task can be `InProgress` at a time.
#[derive(Clone, Debug)]
pub struct TaskManager {
    tasks: Vec<Task>,
    next_id: u64,
}

/// The tasks of a manager, in order of creation, and the number of the next one.
#[verifier::ext_equal]
pub struct ManagerView {
    pub tasks: Seq<TaskView>,
    pub next_id: nat,
}

impl View for TaskManager {
    type V = ManagerView;

    closed spec fn view(&self) -> ManagerView {
        ManagerView { tasks: task_views(self.tasks@), next_id: self.next_id as nat }
    }
}

/// The id of the task with number `n`.
pub open spec fn task_id(n: nat) -> Seq<char> {
    "task-"@ + text::decimal(n)
}

/// A task as it is created.
pub open spec fn fresh_task(
    n: nat,
    subject: Seq<char>,
    description: Seq<char>,
    active_form: Option<Seq<char>>,
    created_at: Timestamp,
) -> TaskView {
    TaskView {
        id: task_id(n),
        subject,
        description,
        active_form,
        status: TaskStatus::Pending,
        blocks: seq![],
        blocked_by: seq![],
        created_at,
    }
}

/// The task called `b` exists and is completed.
pub open spec fn blocker_ready(tasks: Seq<TaskView>, b: Seq<char>) -> bool {
    match find(tasks, b) {
        Some(task) => task.status == TaskStatus::Completed,
        None => false,
    }
}

/// The blockers that keep a task from starting.
pub open spec fn unready(tasks: Seq<TaskView>) -> spec_fn(Seq<char>) -> bool {
    |b: Seq<char>| !blocker_ready(tasks, b)
}

/// Why the blocker `b` keeps the task `id` from starting.
pub open spec fn blocker_text(tasks: Seq<TaskView>, id: Seq<char>, b: Seq<char>) -> Seq<char> {
    match find(tasks, b) {
        Some(task) => "Task '"@ + id + "' cannot transition to in_progress: blocker '"@ + b
            + "' is "@ + task.status.text(),
        None => "Task '"@ + id + "' references nonexistent blocker '"@ + b + "'"@,
    }
}

/// Why the task `id` cannot take the status: only the start of a task can be refused,
/// for the first blocker that is not completed.
pub open spec fn status_error(
    tasks: Seq<TaskView>,
    id: Seq<char>,
    status: Option<TaskUpdateStatus>,
) -> Option<Seq<char>> {
    match (status, find(tasks, id)) {
        (Some(TaskUpdateStatus::InProgress), Some(task)) => match seqs::first_where(
            task.blocked_by,
            unready(tasks),
        ) {
            Some(k) => Some(blocker_text(tasks, id, task.blocked_by[k])),
            None => None,
        },
        _ => None,
    }
}

/// The task moved back to `Pending` if it is in progress and not called `id`.
pub open spec fn demoted(task: TaskView, id: Seq<char>) -> TaskView {
    if task.status == TaskStatus::InProgress && task.id != id {
        TaskView { status: TaskStatus::Pending, ..task }
    } else {
        task
    }
}

/// Every task but `id` moved out of progress.
pub open spec fn all_demoted(tasks: Seq<TaskView>, id: Seq<char>) -> Seq<TaskView> {
    Seq::new(tasks.len(), |i: int| demoted(tasks[i], id))
}

/// The tasks as a change of status leaves the others: the start of a task moves
/// every other task out of progress.
pub open spec fn after_status(
    tasks: Seq<TaskView>,
    id: Seq<char>,
    status: Option<TaskUpdateStatus>,
) -> Seq<TaskView> {
    if status == Some(TaskUpdateStatus::InProgress) {
        all_demoted(tasks, id)
    } else {
        tasks
    }
}

/// Tasks not called `id`.
pub open spec fn not_called(id: Seq<char>) -> spec_fn(TaskView) -> bool {
    |task: TaskView| task.id != id
}

/// The status that an update sets, if it sets one.
pub open spec fn status_set(status: Option<TaskUpdateStatus>) -> Option<TaskStatus> {
    match status {
        Some(TaskUpdateStatus::Pending) => Some(TaskStatus::Pending),
        Some(TaskUpdateStatus::InProgress) => Some(TaskStatus::InProgress),
        Some(TaskUpdateStatus::Completed) => Some(TaskStatus::Completed),
        _ => None,
    }
}

/// What became of the status part of an update.
enum StatusOutcome {
    /// No status was asked for.
    Unchanged,
    /// The task has been removed.
    Deleted,
    /// The status to set.
    Transitioned(TaskStatus),
}

/// The task `a` is recorded as blocking `b`.
pub open spec fn edge(tasks: Seq<TaskView>, a: Seq<char>, b: Seq<char>) -> bool {
    match find(tasks, a) {
        Some(task) => task.blocks.contains(b),
        None => false,
    }
}

/// The recorded dependencies.
pub open spec fn dependencies(tasks: Seq<TaskView>) -> spec_fn(Seq<char>, Seq<char>) -> bool {
    |a: Seq<char>, b: Seq<char>| edge(tasks, a, b)
}

/// An update of `id` asks that `a` block `b`.
pub open spec fn asked(
    id: Seq<char>,
    add_blocks: Seq<Seq<char>>,
    add_blocked_by: Seq<Seq<char>>,
    a: Seq<char>,
    b: Seq<char>,
) -> bool {
    (a == id && add_blocks.contains(b)) || (b == id && add_blocked_by.contains(a))
}

/// The dependencies that an update of `id` asks for.
pub open spec fn asked_edges(
    id: Seq<char>,
    add_blocks: Seq<Seq<char>>,
    add_blocked_by: Seq<Seq<char>>,
) -> spec_fn(Seq<char>, Seq<char>) -> bool {
    |a: Seq<char>, b: Seq<char>| asked(id, add_blocks, add_blocked_by, a, b)
}

/// The recorded dependencies with those that an update of `id` asks for.
pub open spec fn with_asked(
    tasks: Seq<TaskView>,
    id: Seq<char>,
    add_blocks: Seq<Seq<char>>,
    add_blocked_by: Seq<Seq<char>>,
) -> spec_fn(Seq<char>, Seq<char>) -> bool {
    |a: Seq<char>, b: Seq<char>|
        edge(tasks, a, b) || asked(id, add_blocks, add_blocked_by, a, b)
}

/// Names that cannot stand at the other end of a dependency of `id`.
pub open spec fn bad_end(tasks: Seq<TaskView>, id: Seq<char>) -> spec_fn(Seq<char>) -> bool {
    |b: Seq<char>| b == id || !known(tasks, b)
}

/// Why the first bad name of a list is refused.
pub open spec fn list_error(
    tasks: Seq<TaskView>,
    id: Seq<char>,
    list: Seq<Seq<char>>,
    to_itself: Seq<char>,
) -> Option<Seq<char>> {
    match seqs::first_where(list, bad_end(tasks, id)) {
        Some(k) => Some(
            if list[k] == id {
                to_itself
            } else {
                "Referenced task '"@ + list[k] + "' not found"@
            },
        ),
        None => None,
    }
}

/// Why the names of an update are refused.
pub open spec fn names_error(
    tasks: Seq<TaskView>,
    id: Seq<char>,
    add_blocks: Seq<Seq<char>>,
    add_blocked_by: Seq<Seq<char>>,
) -> Option<Seq<char>> {
    match list_error(tasks, id, add_blocks, "A task cannot block itself"@) {
        Some(message) => Some(message),
        None => list_error(tasks, id, add_blocked_by, "A task cannot be blocked by itself"@),
    }
}

/// What is said of a dependency that closes a cycle.
pub open spec fn cycle_text(a: Seq<char>, b: Seq<char>) -> Seq<char> {
    "Adding '"@ + a + "' blocks '"@ + b + "' would create a circular dependency"@
}

/// The dependency `a` blocks `b` is asked for and closes a cycle.
pub open spec fn closes_cycle(
    tasks: Seq<TaskView>,
    id: Seq<char>,
    add_blocks: Seq<Seq<char>>,
    add_blocked_by: Seq<Seq<char>>,
    a: Seq<char>,
    b: Seq<char>,
) -> bool {
    asked(id, add_blocks, add_blocked_by, a, b) && graph::reaches(
        with_asked(tasks, id, add_blocks, add_blocked_by),
        b,
        a,
    )
}

/// Some dependency that is asked for closes a cycle.
pub open spec fn any_cycle(
    tasks: Seq<TaskView>,
    id: Seq<char>,
    add_blocks: Seq<Seq<char>>,
    add_blocked_by: Seq<Seq<char>>,
) -> bool {
    exists|a: Seq<char>, b: Seq<char>|
        closes_cycle(tasks, id, add_blocks, add_blocked_by, a, b)
}

/// The pair stands in a list of dependencies.
spec fn listed(pairs: Seq<(String, String)>, a: Seq<char>, b: Seq<char>) -> bool {
    exists|k: int| 0 <= k < pairs.len() && (#[trigger] pairs[k]).0@ == a && pairs[k].1@ == b
}

/// The recorded dependencies with those of a list.
spec fn with_listed(
    tasks: Seq<TaskView>,
    pairs: Seq<(String, String)>,
) -> spec_fn(Seq<char>, Seq<char>) -> bool {
    |a: Seq<char>, b: Seq<char>| edge(tasks, a, b) || listed(pairs, a, b)
}

/// What the list says that `a` blocks.
spec fn listed_ends(pairs: Seq<(String, String)>, a: Seq<char>) -> Seq<Seq<char>>
    decreases pairs.len(),
{
    if pairs.len() == 0 {
        seq![]
    } else if pairs.last().0@ == a {
        listed_ends(pairs.drop_last(), a).push(pairs.last().1@)
    } else {
        listed_ends(pairs.drop_last(), a)
    }
}

proof fn lemma_listed_ends(pairs: Seq<(String, String)>, a: Seq<char>, b: Seq<char>)
    ensures
        listed_ends(pairs, a).contains(b) <==> listed(pairs, a, b),
    decreases pairs.len(),
{
    if pairs.len() > 0 {
        let rest = pairs.drop_last();
        lemma_listed_ends(rest, a, b);
        let ends = listed_ends(rest, a);
        if listed(rest, a, b) {
            let k = choose|k: int|
                0 <= k < rest.len() && (#[trigger] rest[k]).0@ == a && rest[k].1@ == b;
            assert(pairs[k] == rest[k]);
        }
        if listed(pairs, a, b) {
            let k = choose|k: int|
                0 <= k < pairs.len() && (#[trigger] pairs[k]).0@ == a && pairs[k].1@ == b;
            if k < rest.len() {
                assert(rest[k] == pairs[k]);
            }
        }
        if pairs.last().0@ == a {
            let e = pairs.last().1@;
            assert(ends.push(e)[ends.len() as int] == e);
            if ends.contains(b) {
                let i = choose|i: int| 0 <= i < ends.len() && ends[i] == b;
                assert(ends.push(e)[i] == b);
            }
            if ends.push(e).contains(b) && b != e {
                let i = choose|i: int| 0 <= i < ends.push(e).len() && ends.push(e)[i] == b;
                assert(ends[i] == b);
            }
            assert(pairs[pairs.len() - 1].0@ == a);
        }
    }
}

/// Every name that some task blocks.
spec fn all_ends(tasks: Seq<TaskView>) -> Seq<Seq<char>>
    decreases tasks.len(),
{
    if tasks.len() == 0 {
        seq![]
    } else {
        all_ends(tasks.drop_last()) + tasks.last().blocks
    }
}

proof fn lemma_all_ends(tasks: Seq<TaskView>, i: int, b: Seq<char>)
    requires
        0 <= i < tasks.len(),
        tasks[i].blocks.contains(b),
    ensures
        all_ends(tasks).contains(b),
    decreases tasks.len(),
{
    let head = all_ends(tasks.drop_last());
    let tail = tasks.last().blocks;
    if i == tasks.len() - 1 {
        let k = choose|k: int| 0 <= k < tail.len() && tail[k] == b;
        assert((head + tail)[head.len() + k] == b);
    } else {
        lemma_all_ends(tasks.drop_last(), i, b);
        let k = choose|k: int| 0 <= k < head.len() && head[k] == b;
        assert((head + tail)[k] == b);
    }
}

/// Every name that a search for cycles can come to.
spec fn search_space(
    tasks: Seq<TaskView>,
    pairs: Seq<(String, String)>,
    start: Seq<char>,
) -> Seq<Seq<char>> {
    seq![start] + all_ends(tasks) + Seq::new(pairs.len(), |k: int| pairs[k].1@)
}

proof fn lemma_search_space(
    tasks: Seq<TaskView>,
    pairs: Seq<(String, String)>,
    start: Seq<char>,
)
    ensures
        search_space(tasks, pairs, start).contains(start),
        forall|a: Seq<char>, b: Seq<char>| #[trigger]
            with_listed(tasks, pairs)(a, b) ==> search_space(tasks, pairs, start).contains(b),
{
    let space = search_space(tasks, pairs, start);
    let ends = all_ends(tasks);
    assert(space[0] == start);
    assert forall|a: Seq<char>, b: Seq<char>| #[trigger]
        with_listed(tasks, pairs)(a, b) implies space.contains(b) by {
        if edge(tasks, a, b) {
            let i = first_of(tasks, a);
            assert(is_first(tasks, a, i));
            lemma_all_ends(tasks, i, b);
            let k = choose|k: int| 0 <= k < ends.len() && ends[k] == b;
            assert(space[1 + k] == b);
        } else {
            let k = choose|k: int|
                0 <= k < pairs.len() && (#[trigger] pairs[k]).0@ == a && pairs[k].1@ == b;
            assert(space[1 + ends.len() + k] == b);
        }
    }
}

/// A list without repetitions is no longer than a list that holds all of it.
proof fn lemma_no_longer(part: Seq<Seq<char>>, whole: Seq<Seq<char>>)
    requires
        part.no_duplicates(),
        forall|i: int| 0 <= i < part.len() ==> whole.contains(#[trigger] part[i]),
    ensures
        part.len() <= whole.len(),
{
    part.unique_seq_to_set();
    whole.lemma_cardinality_of_set();
    assert(part.to_set().subset_of(whole.to_set())) by {
        assert forall|x: Seq<char>| part.to_set().contains(x) implies whole.to_set().contains(
            x,
        ) by {
            let i = choose|i: int| 0 <= i < part.len() && part[i] == x;
            assert(whole.contains(part[i]));
        }
    }
    vstd::set_lib::lemma_len_subset(part.to_set(), whole.to_set());
}

/// Appends copies of `items`.
fn push_all(stack: &mut Vec<String>, items: &Vec<String>)
    ensures
        text::views(final(stack)@) == text::views(old(stack)@) + text::views(items@),
{
    let mut i: usize = 0;
    let ghost before = text::views(stack@);
    while i < items.len()
        invariant
            0 <= i <= items@.len(),
            text::views(stack@) =~= before + text::views(items@).take(i as int),
        decreases items@.len() - i,
    {
        let ghost now = text::views(stack@);
        stack.push(items[i].clone());
        assert(text::views(stack@) =~= now.push(items@[i as int]@));
        i += 1;
    }
}

/// Appends what the list says that `a` blocks.
fn push_listed(stack: &mut Vec<String>, pairs: &Vec<(String, String)>, a: &str)
    ensures
        text::views(final(stack)@) == text::views(old(stack)@) + listed_ends(pairs@, a@),
{
    let mut i: usize = 0;
    let ghost before = text::views(stack@);
    while i < pairs.len()
        invariant
            0 <= i <= pairs@.len(),
            text::views(stack@) =~= before + listed_ends(pairs@.take(i as int), a@),
        decreases pairs@.len() - i,
    {
        let ghost now = text::views(stack@);
        assert(pairs@.take(i + 1).drop_last() =~= pairs@.take(i as int));
        if text::str_eq(pairs[i].0.as_str(), a) {
            stack.push(pairs[i].1.clone());
            assert(text::views(stack@) =~= now.push(pairs@[i as int].1@));
        }
        i += 1;
    }
    assert(pairs@.take(i as int) =~= pairs@);
}

/// `list` with the names of `extra` that it lacks, in order.
pub open spec fn extended(list: Seq<Seq<char>>, extra: Seq<Seq<char>>) -> Seq<Seq<char>>
    decreases extra.len(),
{
    if extra.len() == 0 {
        list
    } else {
        with_name(extended(list, extra.drop_last()), extra.last())
    }
}

/// `list` with `name` at the end, unless it holds it already.
pub open spec fn with_name(list: Seq<Seq<char>>, name: Seq<char>) -> Seq<Seq<char>> {
    if list.contains(name) {
        list
    } else {
        list.push(name)
    }
}

/// The new value where there is one, else the old.
pub open spec fn or_old<A>(new: Option<A>, old_value: A) -> A {
    match new {
        Some(value) => value,
        None => old_value,
    }
}

/// The task with the fields of an update.
pub open spec fn fields_applied(task: TaskView, update: UpdateView) -> TaskView {
    TaskView {
        status: or_old(status_set(update.status), task.status),
        subject: or_old(update.subject, task.subject),
        description: or_old(update.description, task.description),
        active_form: if update.active_form is Some {
            update.active_form
        } else {
            task.active_form
        },
        blocks: extended(task.blocks, update.add_blocks),
        blocked_by: extended(task.blocked_by, update.add_blocked_by),
        ..task
    }
}

/// The tasks named in `blocks` record that `id` blocks them.
pub open spec fn linked_down(
    tasks: Seq<TaskView>,
    id: Seq<char>,
    blocks: Seq<Seq<char>>,
) -> Seq<TaskView> {
    Seq::new(
        tasks.len(),
        |i: int|
            if is_first(tasks, tasks[i].id, i) && blocks.contains(tasks[i].id) {
                TaskView { blocked_by: with_name(tasks[i].blocked_by, id), ..tasks[i] }
            } else {
                tasks[i]
            },
    )
}

/// The tasks named in `blocked_by` record that they block `id`.
pub open spec fn linked_up(
    tasks: Seq<TaskView>,
    id: Seq<char>,
    blocked_by: Seq<Seq<char>>,
) -> Seq<TaskView> {
    Seq::new(
        tasks.len(),
        |i: int|
            if is_first(tasks, tasks[i].id, i) && blocked_by.contains(tasks[i].id) {
                TaskView { blocks: with_name(tasks[i].blocks, id), ..tasks[i] }
            } else {
                tasks[i]
            },
    )
}

/// The tasks once the dependencies of the task `id` are recorded at both ends.
pub open spec fn linked(tasks: Seq<TaskView>, id: Seq<char>) -> Seq<TaskView> {
    match find(tasks, id) {
        Some(task) => linked_up(linked_down(tasks, id, task.blocks), id, task.blocked_by),
        None => tasks,
    }
}

/// The tasks after an update of the task `id` that is not refused.
pub open spec fn updated_tasks(
    tasks: Seq<TaskView>,
    id: Seq<char>,
    update: UpdateView,
) -> Seq<TaskView> {
    let ready = after_status(tasks, id, update.status);
    let at = first_of(tasks, id);
    linked(ready.update(at, fields_applied(ready[at], update)), id)
}

/// What an update of the task `id` does to a manager and what it answers.
///
/// It is refused for an unknown task, then for the status, then for a bad name, then
/// for a cycle. A refusal for a name or a cycle comes after the start of the task has
/// moved the others out of progress.
pub open spec fn update_result(
    before: ManagerView,
    id: Seq<char>,
    update: UpdateView,
    after: ManagerView,
    answer: Result<Option<TaskView>, Seq<char>>,
) -> bool {
    let ready = after_status(before.tasks, id, update.status);
    if !known(before.tasks, id) {
        &&& answer == Err::<Option<TaskView>, Seq<char>>("Task '"@ + id + "' not found"@)
        &&& after == before
    } else if update.status == Some(TaskUpdateStatus::Deleted) {
        &&& answer == Ok::<Option<TaskView>, Seq<char>>(None)
        &&& after == (ManagerView { tasks: before.tasks.filter(not_called(id)), ..before })
    } else if let Some(message) = status_error(before.tasks, id, update.status) {
        &&& answer == Err::<Option<TaskView>, Seq<char>>(message)
        &&& after == before
    } else if let Some(message) = names_error(
        ready,
        id,
        update.add_blocks,
        update.add_blocked_by,
    ) {
        &&& answer == Err::<Option<TaskView>, Seq<char>>(message)
        &&& after == (ManagerView { tasks: ready, ..before })
    } else if any_cycle(ready, id, update.add_blocks, update.add_blocked_by) {
        &&& exists|a: Seq<char>, b: Seq<char>|
            #![trigger closes_cycle(ready, id, update.add_blocks, update.add_blocked_by, a, b)]
            closes_cycle(ready, id, update.add_blocks, update.add_blocked_by, a, b) && answer
                == Err::<Option<TaskView>, Seq<char>>(cycle_text(a, b))
        &&& after == (ManagerView { tasks: ready, ..before })
    } else {
        &&& after == (ManagerView { tasks: updated_tasks(before.tasks, id, update), ..before })
        &&& answer == Ok::<Option<TaskView>, Seq<char>>(find(after.tasks, id))
    }
}

/// What a result of an update says.
pub open spec fn answer_view(r: Result<Option<&Task>, String>) -> Result<
    Option<TaskView>,
    Seq<char>,
> {
    match r {
        Ok(Some(task)) => Ok(Some(task@)),
        Ok(None) => Ok(None),
        Err(message) => Err(message@),
    }
}

pub proof fn lemma_same_ids(a: Seq<TaskView>, b: Seq<TaskView>, id: Seq<char>)
    requires
        a.len() == b.len(),
        forall|i: int| 0 <= i < a.len() ==> (#[trigger] a[i]).id == b[i].id,
    ensures
        known(a, id) == known(b, id),
        known(a, id) ==> first_of(a, id) == first_of(b, id),
        forall|i: int| is_first(a, id, i) <==> is_first(b, id, i),
{
    assert forall|i: int| is_first(a, id, i) <==> is_first(b, id, i) by {
        if is_first(a, id, i) {
            assert forall|j: int| 0 <= j < i implies (#[trigger] b[j]).id != id by {
                assert(a[j].id == b[j].id);
            }
        }
        if is_first(b, id, i) {
            assert(a[i].id == b[i].id);
            assert forall|j: int| 0 <= j < i implies (#[trigger] a[j]).id != id by {
                assert(a[j].id == b[j].id);
            }
        }
    }
    if known(a, id) {
        let i = choose|i: int| is_first(a, id, i);
        lemma_first(a, id, i);
        lemma_first(b, id, i);
    }
}

proof fn lemma_take_contains(list: Seq<Seq<char>>, k: int, name: Seq<char>)
    requires
        0 <= k < list.len(),
    ensures
        list.take(k + 1).contains(name) <==> list.take(k).contains(name) || name == list[k],
{
    let a = list.take(k);
    let b = list.take(k + 1);
    if a.contains(name) {
        let i = choose|i: int| 0 <= i < a.len() && a[i] == name;
        assert(b[i] == name);
    }
    if b.contains(name) && name != list[k] {
        let i = choose|i: int| 0 <= i < b.len() && b[i] == name;
        assert(a[i] == name);
    }
    assert(b[k] == list[k]);
}

pub proof fn lemma_with_name(list: Seq<Seq<char>>, name: Seq<char>)
    ensures
        with_name(list, name).contains(name),
        with_name(with_name(list, name), name) == with_name(list, name),
        forall|x: Seq<char>| #[trigger]
            with_name(list, name).contains(x) <==> list.contains(x) || x == name,
{
    let more = with_name(list, name);
    if !list.contains(name) {
        assert(more[list.len() as int] == name);
    }
    assert forall|x: Seq<char>| #[trigger] more.contains(x) <==> list.contains(x) || x
        == name by {
        if list.contains(x) {
            let i = choose|i: int| 0 <= i < list.len() && list[i] == x;
            assert(more[i] == x);
        }
        if more.contains(x) && x != name {
            let i = choose|i: int| 0 <= i < more.len() && more[i] == x;
            assert(list[i] == x);
        }
    }
}

/// Adds the names of `extra` that `list` lacks.
fn extend_names(list: &mut Vec<String>, extra: &Vec<String>)
    ensures
        text::views(final(list)@) == extended(text::views(old(list)@), text::views(extra@)),
{
    let ghost before = text::views(list@);
    let ghost names = text::views(extra@);
    let mut i: usize = 0;
    assert(names.take(0) =~= seq![]);
    while i < extra.len()
        invariant
            0 <= i <= extra@.len(),
            names == text::views(extra@),
            text::views(list@) == extended(before, names.take(i as int)),
        decreases extra@.len() - i,
    {
        let ghost now = text::views(list@);
        assert(names.take(i + 1).drop_last() =~= names.take(i as int));
        if !text::contains(list, extra[i].as_str()) {
            list.push(extra[i].clone());
            assert(text::views(list@) =~= now.push(names[i as int]));
        }
        i += 1;
    }
    assert(names.take(i as int) =~= names);
}

proof fn lemma_link_step(
    tasks: Seq<TaskView>,
    id: Seq<char>,
    list: Seq<Seq<char>>,
    k: int,
)
    requires
        0 <= k < list.len(),
    ensures
        !known(tasks, list[k]) ==> linked_down(tasks, id, list.take(k + 1)) == linked_down(
            tasks,
            id,
            list.take(k),
        ) && linked_up(tasks, id, list.take(k + 1)) == linked_up(tasks, id, list.take(k)),
        known(tasks, list[k]) ==> ({
            let at = first_of(tasks, list[k]);
            let down = linked_down(tasks, id, list.take(k));
            let up = linked_up(tasks, id, list.take(k));
            &&& linked_down(tasks, id, list.take(k + 1)) == down.update(
                at,
                TaskView { blocked_by: with_name(down[at].blocked_by, id), ..down[at] },
            )
            &&& linked_up(tasks, id, list.take(k + 1)) == up.update(
                at,
                TaskView { blocks: with_name(up[at].blocks, id), ..up[at] },
            )
        }),
{
    let down = linked_down(tasks, id, list.take(k));
    let up = linked_up(tasks, id, list.take(k));
    let down2 = linked_down(tasks, id, list.take(k + 1));
    let up2 = linked_up(tasks, id, list.take(k + 1));
    assert forall|i: int| 0 <= i < tasks.len() implies list.take(k + 1).contains(
        (#[trigger] tasks[i]).id,
    ) == (list.take(k).contains(tasks[i].id) || tasks[i].id == list[k]) by {
        lemma_take_contains(list, k, tasks[i].id);
    }
    if !known(tasks, list[k]) {
        assert forall|i: int| 0 <= i < tasks.len() implies (#[trigger] tasks[i]).id != list[k] by {
            if tasks[i].id == list[k] {
                lemma_known(tasks, list[k], i);
            }
        }
        assert(down2 =~= down);
        assert(up2 =~= up);
    } else {
        let at = first_of(tasks, list[k]);
        assert(is_first(tasks, list[k], at));
        lemma_with_name(tasks[at].blocked_by, id);
        lemma_with_name(tasks[at].blocks, id);
        assert forall|i: int| 0 <= i < tasks.len() && i != at implies !(is_first(
            tasks,
            (#[trigger] tasks[i]).id,
            i,
        ) && tasks[i].id == list[k]) by {
            if is_first(tasks, tasks[i].id, i) && tasks[i].id == list[k] {
                lemma_first(tasks, list[k], i);
            }
        }
        assert(is_first(tasks, tasks[at].id, at));
        assert(down2 =~= down.update(
            at,
            TaskView { blocked_by: with_name(down[at].blocked_by, id), ..down[at] },
        ));
        assert(up2 =~= up.update(
            at,
            TaskView { blocks: with_name(up[at].blocks, id), ..up[at] },
        ));
    }
}

/// Adds `name` to `list` unless it holds it already.
fn add_name(list: &mut Vec<String>, name: &str)
    ensures
        text::views(final(list)@) == with_name(text::views(old(list)@), name@),
{
    let ghost before = text::views(list@);
    if !text::contains(list, name) {
        list.push(name.to_owned());
        assert(text::views(list@) =~= before.push(name@));
    }
}

proof fn lemma_linked_ids(tasks: Seq<TaskView>, id: Seq<char>)
    ensures
        linked(tasks, id).len() == tasks.len(),
        forall|i: int| 0 <= i < tasks.len() ==> (#[trigger] linked(tasks, id)[i]).id == tasks[i].id,
        forall|i: int| 0 <= i < tasks.len() ==> linked(tasks, id)[i].id == (#[trigger] tasks[i]).id,
{
}

/// The mark of a status in a summary.
pub open spec fn status_icon(status: TaskStatus) -> Seq<char> {
    match status {
        TaskStatus::Pending => "[ ]"@,
        TaskStatus::InProgress => "[>]"@,
        TaskStatus::Completed => "[x]"@,
    }
}

/// `label` and the names, unless there are none; then `end`.
pub open spec fn names_line(
    label: Seq<char>,
    names: Seq<Seq<char>>,
    end: Seq<char>,
) -> Seq<char> {
    if names.len() == 0 {
        seq![]
    } else {
        label + text::joined(names, ", "@) + end
    }
}

/// A task on one line, and the names of its neighbours below it.
pub open spec fn summary_text(task: TaskView) -> Seq<char> {
    status_icon(task.status) + " "@ + task.id + " "@ + task.subject + " ("@ + task.status.text()
        + ")"@ + (match task.active_form {
        Some(form) => " -- "@ + form,
        None => seq![],
    }) + names_line("\n    blocks: "@, task.blocks, seq![]) + names_line(
        "\n    blocked_by: "@,
        task.blocked_by,
        seq![],
    )
}

/// Everything a task says, a field to a line.
pub open spec fn detail_text(task: TaskView) -> Seq<char> {
    "ID: "@ + task.id + "\n"@ + "Subject: "@ + task.subject + "\n"@ + "Status: "@
        + task.status.text() + "\n"@ + "Description: "@ + task.description + "\n"@ + (
    match task.active_form {
        Some(form) => "Active form: "@ + form + "\n"@,
        None => seq![],
    }) + "Created: "@ + clock::report_text(task.created_at) + "\n"@ + names_line(
        "Blocks: "@,
        task.blocks,
        "\n"@,
    ) + names_line("Blocked by: "@, task.blocked_by, "\n"@)
}

/// Appends `label`, the names and `end`, unless there are no names.
fn append_names(out: &mut String, label: &str, names: &Vec<String>, end: &str)
    ensures
        final(out)@ == old(out)@ + names_line(label@, text::views(names@), end@),
{
    if names.len() > 0 {
        out.append(label);
        let list = text::join(names, ", ");
        out.append(list.as_str());
        out.append(end);
    }
    assert(out@ =~= old(out)@ + names_line(label@, text::views(names@), end@));
}

/// Appends `label`, `value` and the end of the line.
fn append_field(out: &mut String, label: &str, value: &str)
    ensures
        final(out)@ == old(out)@ + label@ + value@ + "\n"@,
{
    out.append(label);
    out.append(value);
    out.append("\n");
}

impl Default for TaskManager {
    fn default() -> (m: TaskManager)
        ensures
            m@ == (ManagerView { tasks: seq![], next_id: 1 }),
    {
        TaskManager::new()
    }
}

impl TaskManager {
    /// Create a new empty `TaskManager`.
    pub fn new() -> (m: TaskManager)
        ensures
            m@ == (ManagerView { tasks: seq![], next_id: 1 }),
    {
        let m = TaskManager { tasks: Vec::new(), next_id: 1 };
        assert(m@.tasks =~= seq![]);
        m
    }

    /// Create a new task, stamped with the current time. Returns the created task.
    pub fn create_task(
        &mut self,
        subject: String,
        description: String,
        active_form: Option<String>,
    ) -> (task: &Task)
        requires
            old(self)@.next_id < u64::MAX,
        ensures
            task@ == fresh_task(
                old(self)@.next_id,
                subject@,
                description@,
                text::opt_view(active_form),
                task.created_at,
            ),
            final(self)@ == (ManagerView {
                tasks: old(self)@.tasks.push(task@),
                next_id: old(self)@.next_id + 1,
            }),
    {
        self.create_task_at(subject, description, active_form, clock::now())
    }

    /// Create a new task with a given time of creation. Returns the created task.
    pub fn create_task_at(
        &mut self,
        subject: String,
        description: String,
        active_form: Option<String>,
        created_at: Timestamp,
    ) -> (task: &Task)
        requires
            old(self)@.next_id < u64::MAX,
        ensures
            task@ == fresh_task(
                old(self)@.next_id,
                subject@,
                description@,
                text::opt_view(active_form),
                created_at,
            ),
            final(self)@ == (ManagerView {
                tasks: old(self)@.tasks.push(task@),
                next_id: old(self)@.next_id + 1,
            }),
    {
        let mut id = "task-".to_owned();
        text::push_decimal(&mut id, self.next_id);
        self.next_id += 1;
        let task = Task {
            id,
            subject,
            description,
            active_form,
            status: TaskStatus::Pending,
            blocks: Vec::new(),
            blocked_by: Vec::new(),
            created_at,
        };
        assert(task@.blocks =~= seq![]);
        assert(task@.blocked_by =~= seq![]);
        self.tasks.push(task);
        assert(self@.tasks =~= old(self)@.tasks.push(task@));
        let last: usize = self.tasks.len() - 1;
        &self.tasks[last]
    }

    /// Where the first task called `task_id` stands, if any.
    fn index_of(&self, task_id: &str) -> (at: Option<usize>)
        ensures
            match at {
                Some(i) => is_first(self@.tasks, task_id@, i as int) && i < self.tasks@.len()
                    && known(self@.tasks, task_id@) && first_of(self@.tasks, task_id@) == i
                    && find(self@.tasks, task_id@) == Some(self.tasks@[i as int]@),
                None => !known(self@.tasks, task_id@) && find(self@.tasks, task_id@) is None,
            },
    {
        let mut i: usize = 0;
        while i < self.tasks.len()
            invariant
                0 <= i <= self.tasks@.len(),
                forall|j: int| 0 <= j < i ==> self.tasks@[j].id@ != task_id@,
            decreases self.tasks@.len() - i,
        {
            if text::str_eq(self.tasks[i].id.as_str(), task_id) {
                proof {
                    assert(is_first(self@.tasks, task_id@, i as int));
                    lemma_first(self@.tasks, task_id@, i as int);
                }
                return Some(i);
            }
            i += 1;
        }
        None
    }

    /// Get a task by id.
    pub fn get_task(&self, task_id: &str) -> (task: Option<&Task>)
        ensures
            match task {
                Some(task) => find(self@.tasks, task_id@) == Some(task@),
                None => !known(self@.tasks, task_id@),
            },
    {
        match self.index_of(task_id) {
            Some(i) => Some(&self.tasks[i]),
            None => None,
        }
    }

    /// Checks that every blocker of the task is completed.
    fn check_blockers(&self, task_id: &str) -> (r: Result<(), String>)
        ensures
            match r {
                Ok(()) => status_error(
                    self@.tasks,
                    task_id@,
                    Some(TaskUpdateStatus::InProgress),
                ) is None,
                Err(message) => status_error(
                    self@.tasks,
                    task_id@,
                    Some(TaskUpdateStatus::InProgress),
                ) == Some(message@),
            },
    {
        let at = match self.index_of(task_id) {
            Some(at) => at,
            None => {
                return Ok(());
            },
        };
        let ghost tasks = self@.tasks;
        let ghost blockers = self.tasks@[at as int]@.blocked_by;
        let mut k: usize = 0;
        while k < self.tasks[at].blocked_by.len()
            invariant
                tasks == self@.tasks,
                at < self.tasks@.len(),
                blockers == self.tasks@[at as int]@.blocked_by,
                0 <= k <= blockers.len(),
                find(tasks, task_id@) == Some(self.tasks@[at as int]@),
                forall|j: int| 0 <= j < k ==> blocker_ready(tasks, #[trigger] blockers[j]),
            decreases blockers.len() - k,
        {
            let blocker: &str = self.tasks[at].blocked_by[k].as_str();
            assert(blocker@ == blockers[k as int]);
            proof {
                if !blocker_ready(tasks, blocker@) {
                    assert(seqs::is_first_where(blockers, unready(tasks), k as int));
                    seqs::lemma_first_where(blockers, unready(tasks), k as int);
                }
            }
            match self.index_of(blocker) {
                Some(i) => {
                    let status = self.tasks[i].status;
                    if status != TaskStatus::Completed {
                        let mut message = "Task '".to_owned();
                        message.append(task_id);
                        message.append("' cannot transition to in_progress: blocker '");
                        message.append(blocker);
                        message.append("' is ");
                        message.append(status.as_str());
                        return Err(message);
                    }
                },
                None => {
                    let mut message = "Task '".to_owned();
                    message.append(task_id);
                    message.append("' references nonexistent blocker '");
                    message.append(blocker);
                    message.append("'");
                    return Err(message);
                },
            }
            k += 1;
        }
        proof {
            seqs::lemma_none_where(blockers, unready(tasks));
        }
        Ok(())
    }

    /// Moves every task but `task_id` out of progress.
    fn demote_others(&mut self, task_id: &str)
        ensures
            final(self)@ == (ManagerView {
                tasks: all_demoted(old(self)@.tasks, task_id@),
                ..old(self)@
            }),
    {
        let ghost before = self@.tasks;
        let mut i: usize = 0;
        while i < self.tasks.len()
            invariant
                0 <= i <= self.tasks@.len(),
                self.next_id == old(self).next_id,
                before == old(self)@.tasks,
                self@.tasks.len() == before.len(),
                forall|j: int|
                    0 <= j < i ==> #[trigger] self@.tasks[j] == demoted(before[j], task_id@),
                forall|j: int| i <= j < before.len() ==> #[trigger] self@.tasks[j] == before[j],
            decreases self.tasks@.len() - i,
        {
            let ghost now = self@.tasks;
            assert(now[i as int] == before[i as int]);
            if self.tasks[i].status == TaskStatus::InProgress && !text::str_eq(
                self.tasks[i].id.as_str(),
                task_id,
            ) {
                self.tasks[i].status = TaskStatus::Pending;
            }
            assert(self@.tasks =~= now.update(i as int, demoted(before[i as int], task_id@)));
            i += 1;
        }
        assert(self@.tasks =~= all_demoted(before, task_id@));
    }

    /// Removes every task called `task_id`.
    fn remove_task(&mut self, task_id: &str)
        ensures
            final(self)@ == (ManagerView {
                tasks: old(self)@.tasks.filter(not_called(task_id@)),
                ..old(self)@
            }),
    {
        let ghost before = self@.tasks;
        let ghost keep = not_called(task_id@);
        let ghost mut k: int = 0;
        let mut i: usize = 0;
        assert(before.take(0).filter(keep) =~= seq![]) by {
            reveal(Seq::filter);
        }
        assert(before.skip(0) =~= before);
        while i < self.tasks.len()
            invariant
                0 <= i <= self.tasks@.len(),
                0 <= k <= before.len(),
                self.next_id == old(self).next_id,
                before == old(self)@.tasks,
                keep == not_called(task_id@),
                i == before.take(k).filter(keep).len(),
                self@.tasks =~= before.take(k).filter(keep) + before.skip(k),
            decreases self.tasks@.len() - i,
        {
            proof {
                seqs::lemma_filter_step(before, keep, k);
                assert(self@.tasks[i as int] == before[k]);
                assert(before.skip(k).drop_first() =~= before.skip(k + 1));
            }
            let ghost now = self@.tasks;
            if text::str_eq(self.tasks[i].id.as_str(), task_id) {
                self.tasks.remove(i);
                assert(self@.tasks =~= now.remove(i as int));
            } else {
                i += 1;
            }
            proof {
                k = k + 1;
            }
        }
        assert(before.take(k) =~= before);
    }

    /// Apply (or short-circuit) a status transition. Returns the status to set, or that
    /// none was asked for, or that the task is gone.
    fn apply_status_transition(
        &mut self,
        task_id: &str,
        status: Option<TaskUpdateStatus>,
    ) -> (r: Result<StatusOutcome, String>)
        ensures
            match r {
                Err(message) => status_error(old(self)@.tasks, task_id@, status) == Some(
                    message@,
                ) && final(self)@ == old(self)@,
                Ok(outcome) => status_error(old(self)@.tasks, task_id@, status) is None && (
                match outcome {
                    StatusOutcome::Unchanged => status is None && final(self)@ == old(self)@,
                    StatusOutcome::Deleted => status == Some(TaskUpdateStatus::Deleted)
                        && final(self)@ == (ManagerView {
                        tasks: old(self)@.tasks.filter(not_called(task_id@)),
                        ..old(self)@
                    }),
                    StatusOutcome::Transitioned(s) => status_set(status) == Some(s)
                        && final(self)@ == (ManagerView {
                        tasks: after_status(old(self)@.tasks, task_id@, status),
                        ..old(self)@
                    }),
                }),
            },
    {
        let new_status = match status {
            None => {
                return Ok(StatusOutcome::Unchanged);
            },
            Some(TaskUpdateStatus::Deleted) => {
                self.remove_task(task_id);
                return Ok(StatusOutcome::Deleted);
            },
            Some(TaskUpdateStatus::Pending) => TaskStatus::Pending,
            Some(TaskUpdateStatus::InProgress) => TaskStatus::InProgress,
            Some(TaskUpdateStatus::Completed) => TaskStatus::Completed,
        };
        if new_status == TaskStatus::InProgress {
            match self.check_blockers(task_id) {
                Ok(()) => {},
                Err(message) => {
                    return Err(message);
                },
            }
            self.demote_others(task_id);
        }
        Ok(StatusOutcome::Transitioned(new_status))
    }

    /// Whether `from_id` can be reached from `to_id` over the recorded dependencies and
    /// those of `pending`: whether `from_id` blocking `to_id` lies on a cycle.
    fn would_create_cycle_with_pending(
        &self,
        from_id: &str,
        to_id: &str,
        pending: &Vec<(String, String)>,
    ) -> (found: bool)
        ensures
            found == graph::reaches(with_listed(self@.tasks, pending@), to_id@, from_id@),
    {
        let ghost tasks = self@.tasks;
        let ghost g = with_listed(tasks, pending@);
        let ghost space = search_space(tasks, pending@, to_id@);
        let mut visited: Vec<String> = Vec::new();
        let mut stack: Vec<String> = Vec::new();
        stack.push(to_id.to_owned());
        proof {
            lemma_search_space(tasks, pending@, to_id@);
            graph::lemma_reaches_self(g, to_id@);
            assert(text::views(stack@)[0] == to_id@);
            assert(space.contains(to_id@));
        }
        while stack.len() > 0
            invariant
                tasks == self@.tasks,
                g == with_listed(tasks, pending@),
                space == search_space(tasks, pending@, to_id@),
                forall|a: Seq<char>, b: Seq<char>| #[trigger] g(a, b) ==> space.contains(b),
                forall|k: int|
                    0 <= k < stack@.len() ==> graph::reaches(
                        g,
                        to_id@,
                        #[trigger] text::views(stack@)[k],
                    ) && space.contains(text::views(stack@)[k]),
                forall|k: int|
                    0 <= k < visited@.len() ==> space.contains(
                        #[trigger] text::views(visited@)[k],
                    ) && text::views(visited@)[k] != from_id@,
                text::views(visited@).no_duplicates(),
                text::views(visited@).contains(to_id@) || text::views(stack@).contains(to_id@),
                forall|a: Seq<char>, b: Seq<char>|
                    text::views(visited@).contains(a) && #[trigger] g(a, b) ==> text::views(
                        visited@,
                    ).contains(b) || text::views(stack@).contains(b),
            decreases space.len() - visited@.len(), stack@.len(),
        {
            let ghost stacked = text::views(stack@);
            let ghost seen = text::views(visited@);
            let current = stack.pop().unwrap();
            let ghost rest = text::views(stack@);
            proof {
                assert(rest =~= stacked.drop_last());
                assert(current@ == stacked.last());
                assert(stacked =~= rest.push(current@));
                assert forall|b: Seq<char>| stacked.contains(b) implies b == current@
                    || rest.contains(b) by {
                    let k = choose|k: int| 0 <= k < stacked.len() && stacked[k] == b;
                    if k < rest.len() {
                        assert(rest[k] == b);
                    }
                }
                assert forall|k: int| 0 <= k < rest.len() implies graph::reaches(
                    g,
                    to_id@,
                    #[trigger] rest[k],
                ) && space.contains(rest[k]) by {
                    assert(stacked[k] == rest[k]);
                }
            }
            if text::str_eq(current.as_str(), from_id) {
                return true;
            }
            if !text::contains(&visited, current.as_str()) {
                let ghost mut out: Seq<Seq<char>> = seq![];
                if let Some(at) = self.index_of(current.as_str()) {
                    push_all(&mut stack, &self.tasks[at].blocks);
                    proof {
                        out = text::views(self.tasks@[at as int].blocks@);
                    }
                }
                let ghost ends = listed_ends(pending@, current@);
                push_listed(&mut stack, pending, current.as_str());
                proof {
                    assert(text::views(stack@) =~= rest + out + ends);
                    assert forall|b: Seq<char>| #[trigger] g(current@, b) <==> (out.contains(b)
                        || ends.contains(b)) by {
                        lemma_listed_ends(pending@, current@, b);
                    }
                    let stacked2 = text::views(stack@);
                    assert forall|k: int| 0 <= k < stacked2.len() implies graph::reaches(
                        g,
                        to_id@,
                        #[trigger] stacked2[k],
                    ) && space.contains(stacked2[k]) by {
                        if k < rest.len() {
                            assert(stacked2[k] == rest[k]);
                        } else {
                            let b = stacked2[k];
                            if k < rest.len() + out.len() {
                                assert(out[k - rest.len()] == b);
                                assert(out.contains(b));
                            } else {
                                assert(ends[k - rest.len() - out.len()] == b);
                                assert(ends.contains(b));
                            }
                            assert(g(current@, b));
                            graph::lemma_reaches_edge(g, current@, b);
                            graph::lemma_reaches_transitive(g, to_id@, current@, b);
                        }
                    }
                    assert forall|b: Seq<char>| g(current@, b) implies stacked2.contains(b) by {
                        if out.contains(b) {
                            let k = choose|k: int| 0 <= k < out.len() && out[k] == b;
                            assert(stacked2[rest.len() + k] == b);
                        } else {
                            let k = choose|k: int| 0 <= k < ends.len() && ends[k] == b;
                            assert(stacked2[rest.len() + out.len() + k] == b);
                        }
                    }
                    assert forall|b: Seq<char>| rest.contains(b) implies stacked2.contains(b) by {
                        let k = choose|k: int| 0 <= k < rest.len() && rest[k] == b;
                        assert(stacked2[k] == b);
                    }
                }
                visited.push(current);
                proof {
                    let seen2 = text::views(visited@);
                    assert(seen2 =~= seen.push(current@));
                    assert forall|b: Seq<char>| seen2.contains(b) <==> (seen.contains(b) || b
                        == current@) by {
                        if seen.contains(b) {
                            let k = choose|k: int| 0 <= k < seen.len() && seen[k] == b;
                            assert(seen2[k] == b);
                        }
                        if b == current@ {
                            assert(seen2[seen.len() as int] == b);
                        }
                        if seen2.contains(b) && b != current@ {
                            let k = choose|k: int| 0 <= k < seen2.len() && seen2[k] == b;
                            assert(seen[k] == b);
                        }
                    }
                    assert(seen2.no_duplicates());
                    assert forall|k: int| 0 <= k < seen2.len() implies space.contains(
                        #[trigger] seen2[k],
                    ) && seen2[k] != from_id@ by {
                        if k < seen.len() {
                            assert(seen2[k] == seen[k]);
                        }
                    }
                    lemma_no_longer(seen2, space);
                }
            }
        }
        proof {
            let seen = text::views(visited@);
            assert(text::views(stack@) =~= seq![]);
            if graph::reaches(g, to_id@, from_id@) {
                graph::lemma_closed_contains_reached(
                    g,
                    |x: Seq<char>| seen.contains(x),
                    to_id@,
                    from_id@,
                );
                let k = choose|k: int| 0 <= k < seen.len() && seen[k] == from_id@;
                assert(seen[k] != from_id@);
            }
        }
        false
    }

    /// Checks that every name of a list is that of another task.
    fn check_names(&self, task_id: &str, list: &Vec<String>, to_itself: &str) -> (r: Result<
        (),
        String,
    >)
        ensures
            match r {
                Ok(()) => list_error(
                    self@.tasks,
                    task_id@,
                    text::views(list@),
                    to_itself@,
                ) is None,
                Err(message) => list_error(
                    self@.tasks,
                    task_id@,
                    text::views(list@),
                    to_itself@,
                ) == Some(message@),
            },
    {
        let ghost names = text::views(list@);
        let ghost bad = bad_end(self@.tasks, task_id@);
        let mut k: usize = 0;
        while k < list.len()
            invariant
                0 <= k <= list@.len(),
                names == text::views(list@),
                bad == bad_end(self@.tasks, task_id@),
                forall|j: int| 0 <= j < k ==> !bad(#[trigger] names[j]),
            decreases list@.len() - k,
        {
            let name: &str = list[k].as_str();
            assert(name@ == names[k as int]);
            proof {
                if bad(name@) {
                    assert(seqs::is_first_where(names, bad, k as int));
                    seqs::lemma_first_where(names, bad, k as int);
                }
            }
            if text::str_eq(name, task_id) {
                return Err(to_itself.to_owned());
            }
            if self.index_of(name).is_none() {
                let mut message = "Referenced task '".to_owned();
                message.append(name);
                message.append("' not found");
                return Err(message);
            }
            k += 1;
        }
        proof {
            seqs::lemma_none_where(names, bad);
        }
        Ok(())
    }

    /// Validate every dependency that an update asks for: each name must be that of
    /// another task, and the recorded dependencies with all of those asked for must hold
    /// no cycle through one of them.
    fn validate_dependency_edges(
        &self,
        task_id: &str,
        add_blocks: &Vec<String>,
        add_blocked_by: &Vec<String>,
    ) -> (r: Result<(), String>)
        ensures
            match names_error(
                self@.tasks,
                task_id@,
                text::views(add_blocks@),
                text::views(add_blocked_by@),
            ) {
                Some(error) => r matches Err(message) && message@ == error,
                None => match r {
                    Ok(()) => !any_cycle(
                        self@.tasks,
                        task_id@,
                        text::views(add_blocks@),
                        text::views(add_blocked_by@),
                    ),
                    Err(message) => exists|a: Seq<char>, b: Seq<char>|
                        #![trigger closes_cycle(self@.tasks, task_id@, text::views(add_blocks@), text::views(add_blocked_by@), a, b)]
                        closes_cycle(
                            self@.tasks,
                            task_id@,
                            text::views(add_blocks@),
                            text::views(add_blocked_by@),
                            a,
                            b,
                        ) && message@ == cycle_text(a, b),
                },
            },
    {
        match self.check_names(task_id, add_blocks, "A task cannot block itself") {
            Ok(()) => {},
            Err(message) => {
                return Err(message);
            },
        }
        match self.check_names(task_id, add_blocked_by, "A task cannot be blocked by itself") {
            Ok(()) => {},
            Err(message) => {
                return Err(message);
            },
        }
        let ghost down = text::views(add_blocks@);
        let ghost up = text::views(add_blocked_by@);
        let ghost id = task_id@;
        let mut pending: Vec<(String, String)> = Vec::new();
        let mut i: usize = 0;
        while i < add_blocks.len()
            invariant
                0 <= i <= add_blocks@.len(),
                down == text::views(add_blocks@),
                id == task_id@,
                pending@.len() == i,
                forall|k: int|
                    0 <= k < i ==> (#[trigger] pending@[k]).0@ == id && pending@[k].1@ == down[k],
            decreases add_blocks@.len() - i,
        {
            pending.push((task_id.to_owned(), add_blocks[i].clone()));
            i += 1;
        }
        let mut j: usize = 0;
        while j < add_blocked_by.len()
            invariant
                i == add_blocks@.len(),
                0 <= j <= add_blocked_by@.len(),
                down == text::views(add_blocks@),
                up == text::views(add_blocked_by@),
                id == task_id@,
                pending@.len() == i + j,
                forall|k: int|
                    0 <= k < i ==> (#[trigger] pending@[k]).0@ == id && pending@[k].1@ == down[k],
                forall|k: int|
                    i <= k < i + j ==> (#[trigger] pending@[k]).0@ == up[k - i] && pending@[k].1@
                        == id,
            decreases add_blocked_by@.len() - j,
        {
            pending.push((add_blocked_by[j].clone(), task_id.to_owned()));
            j += 1;
        }
        let ghost g = with_asked(self@.tasks, id, down, up);
        proof {
            assert forall|a: Seq<char>, b: Seq<char>|
                listed(pending@, a, b) <==> asked(id, down, up, a, b) by {
                if a == id && down.contains(b) {
                    let k = choose|k: int| 0 <= k < down.len() && down[k] == b;
                    assert(pending@[k].0@ == a && pending@[k].1@ == b);
                }
                if b == id && up.contains(a) {
                    let k = choose|k: int| 0 <= k < up.len() && up[k] == a;
                    assert(pending@[i + k].0@ == a && pending@[i + k].1@ == b);
                }
                if listed(pending@, a, b) {
                    let k = choose|k: int|
                        0 <= k < pending@.len() && (#[trigger] pending@[k]).0@ == a
                            && pending@[k].1@ == b;
                    if k < i {
                        assert(down[k] == b);
                    } else {
                        assert(up[k - i] == a);
                    }
                }
            }
            assert(with_listed(self@.tasks, pending@) =~= g);
        }
        let mut k: usize = 0;
        while k < pending.len()
            invariant
                0 <= k <= pending@.len(),
                id == task_id@,
                down == text::views(add_blocks@),
                up == text::views(add_blocked_by@),
                g == with_asked(self@.tasks, id, down, up),
                g == with_listed(self@.tasks, pending@),
                names_error(self@.tasks, id, down, up) is None,
                forall|a: Seq<char>, b: Seq<char>| #[trigger]
                    listed(pending@, a, b) <==> asked(id, down, up, a, b),
                forall|n: int|
                    0 <= n < k ==> !graph::reaches(
                        g,
                        (#[trigger] pending@[n]).1@,
                        pending@[n].0@,
                    ),
            decreases pending@.len() - k,
        {
            let from: &str = pending[k].0.as_str();
            let to: &str = pending[k].1.as_str();
            if self.would_create_cycle_with_pending(from, to, &pending) {
                let mut message = "Adding '".to_owned();
                message.append(from);
                message.append("' blocks '");
                message.append(to);
                message.append("' would create a circular dependency");
                proof {
                    assert(pending@[k as int].0@ == from@ && pending@[k as int].1@ == to@);
                    assert(listed(pending@, from@, to@));
                    assert(closes_cycle(self@.tasks, id, down, up, from@, to@));
                    assert(message@ == cycle_text(from@, to@));
                }
                return Err(message);
            }
            k += 1;
        }
        proof {
            if any_cycle(self@.tasks, id, down, up) {
                let (a, b) = choose|a: Seq<char>, b: Seq<char>|
                    closes_cycle(self@.tasks, id, down, up, a, b);
                assert(listed(pending@, a, b));
                let n = choose|n: int|
                    0 <= n < pending@.len() && (#[trigger] pending@[n]).0@ == a && pending@[n].1@
                        == b;
                assert(!graph::reaches(g, pending@[n].1@, pending@[n].0@));
            }
        }
        Ok(())
    }

    /// Apply the validated field and dependency updates to a single task.
    fn apply_task_fields(
        task: &mut Task,
        new_status: Option<TaskStatus>,
        subject: Option<String>,
        description: Option<String>,
        active_form: Option<String>,
        add_blocks: &Vec<String>,
        add_blocked_by: &Vec<String>,
    )
        ensures
            final(task)@ == (TaskView {
                status: or_old(new_status, old(task)@.status),
                subject: or_old(text::opt_view(subject), old(task)@.subject),
                description: or_old(text::opt_view(description), old(task)@.description),
                active_form: if active_form is Some {
                    text::opt_view(active_form)
                } else {
                    old(task)@.active_form
                },
                blocks: extended(old(task)@.blocks, text::views(add_blocks@)),
                blocked_by: extended(old(task)@.blocked_by, text::views(add_blocked_by@)),
                ..old(task)@
            }),
    {
        if let Some(status) = new_status {
            task.status = status;
        }
        if let Some(subject) = subject {
            task.subject = subject;
        }
        if let Some(description) = description {
            task.description = description;
        }
        if active_form.is_some() {
            task.active_form = active_form;
        }
        extend_names(&mut task.blocks, add_blocks);
        extend_names(&mut task.blocked_by, add_blocked_by);
    }

    /// Records, at the tasks named in `blocks`, that `task_id` blocks them.
    fn link_down(&mut self, task_id: &str, blocks: &Vec<String>)
        ensures
            final(self)@ == (ManagerView {
                tasks: linked_down(old(self)@.tasks, task_id@, text::views(blocks@)),
                ..old(self)@
            }),
    {
        let ghost before = self@.tasks;
        let ghost list = text::views(blocks@);
        let ghost id = task_id@;
        let mut k: usize = 0;
        assert(linked_down(before, id, list.take(0)) =~= before);
        while k < blocks.len()
            invariant
                0 <= k <= blocks@.len(),
                before == old(self)@.tasks,
                list == text::views(blocks@),
                id == task_id@,
                self.next_id == old(self).next_id,
                self@.tasks == linked_down(before, id, list.take(k as int)),
            decreases blocks@.len() - k,
        {
            let ghost now = self@.tasks;
            proof {
                lemma_link_step(before, id, list, k as int);
                lemma_same_ids(now, before, list[k as int]);
            }
            if let Some(at) = self.index_of(blocks[k].as_str()) {
                add_name(&mut self.tasks[at].blocked_by, task_id);
                assert(self@.tasks =~= now.update(
                    at as int,
                    TaskView {
                        blocked_by: with_name(now[at as int].blocked_by, id),
                        ..now[at as int]
                    },
                ));
            }
            k += 1;
        }
        assert(list.take(k as int) =~= list);
    }

    /// Records, at the tasks named in `blocked_by`, that they block `task_id`.
    fn link_up(&mut self, task_id: &str, blocked_by: &Vec<String>)
        ensures
            final(self)@ == (ManagerView {
                tasks: linked_up(old(self)@.tasks, task_id@, text::views(blocked_by@)),
                ..old(self)@
            }),
    {
        let ghost before = self@.tasks;
        let ghost list = text::views(blocked_by@);
        let ghost id = task_id@;
        let mut k: usize = 0;
        assert(linked_up(before, id, list.take(0)) =~= before);
        while k < blocked_by.len()
            invariant
                0 <= k <= blocked_by@.len(),
                before == old(self)@.tasks,
                list == text::views(blocked_by@),
                id == task_id@,
                self.next_id == old(self).next_id,
                self@.tasks == linked_up(before, id, list.take(k as int)),
            decreases blocked_by@.len() - k,
        {
            let ghost now = self@.tasks;
            proof {
                lemma_link_step(before, id, list, k as int);
                lemma_same_ids(now, before, list[k as int]);
            }
            if let Some(at) = self.index_of(blocked_by[k].as_str()) {
                add_name(&mut self.tasks[at].blocks, task_id);
                assert(self@.tasks =~= now.update(
                    at as int,
                    TaskView { blocks: with_name(now[at as int].blocks, id), ..now[at as int] },
                ));
            }
            k += 1;
        }
        assert(list.take(k as int) =~= list);
    }

    /// Restore symmetry: for every `A blocks B`, `B.blocked_by` must contain `A`, and
    /// the other way round. New dependencies are propagated to their other end.
    fn sync_reverse_edges(&mut self, task_id: &str)
        ensures
            final(self)@ == (ManagerView {
                tasks: linked(old(self)@.tasks, task_id@),
                ..old(self)@
            }),
    {
        if let Some(at) = self.index_of(task_id) {
            let blocks = text::copy_strings(&self.tasks[at].blocks);
            let blocked_by = text::copy_strings(&self.tasks[at].blocked_by);
            self.link_down(task_id, &blocks);
            self.link_up(task_id, &blocked_by);
        }
    }

    /// Update a task's fields. Returns the task, or `None` once it has been deleted, or
    /// a message that says why the update is refused.
    ///
    /// Enforces that only one task can be `InProgress` at a time. When a task
    /// is set to `InProgress`, any currently in-progress task is moved back to
    /// `Pending`.
    pub fn update_task(&mut self, task_id: &str, params: TaskUpdateParams) -> (r: Result<
        Option<&Task>,
        String,
    >)
        ensures
            update_result(old(self)@, task_id@, params@, final(self)@, answer_view(r)),
    {
        let ghost before = self@;
        let ghost update = params@;
        let at = match self.index_of(task_id) {
            Some(at) => at,
            None => {
                let mut message = "Task '".to_owned();
                message.append(task_id);
                message.append("' not found");
                return Err(message);
            },
        };
        let new_status = match self.apply_status_transition(task_id, params.status) {
            Err(message) => {
                return Err(message);
            },
            Ok(StatusOutcome::Deleted) => {
                return Ok(None);
            },
            Ok(StatusOutcome::Unchanged) => None,
            Ok(StatusOutcome::Transitioned(status)) => Some(status),
        };
        let ghost ready = self@.tasks;
        assert(ready == after_status(before.tasks, task_id@, update.status));
        let add_blocks = match params.add_blocks {
            Some(list) => list,
            None => Vec::new(),
        };
        let add_blocked_by = match params.add_blocked_by {
            Some(list) => list,
            None => Vec::new(),
        };
        assert(text::views(add_blocks@) =~= update.add_blocks);
        assert(text::views(add_blocked_by@) =~= update.add_blocked_by);
        match self.validate_dependency_edges(task_id, &add_blocks, &add_blocked_by) {
            Ok(()) => {},
            Err(message) => {
                return Err(message);
            },
        }
        Self::apply_task_fields(
            &mut self.tasks[at],
            new_status,
            params.subject,
            params.description,
            params.active_form,
            &add_blocks,
            &add_blocked_by,
        );
        assert(self@.tasks =~= ready.update(
            at as int,
            fields_applied(ready[at as int], update),
        ));
        self.sync_reverse_edges(task_id);
        proof {
            let applied = ready.update(at as int, fields_applied(ready[at as int], update));
            lemma_same_ids(before.tasks, ready, task_id@);
            lemma_same_ids(ready, applied, task_id@);
            lemma_linked_ids(applied, task_id@);
            lemma_same_ids(applied, self@.tasks, task_id@);
            lemma_first(self@.tasks, task_id@, at as int);
        }
        Ok(Some(&self.tasks[at]))
    }

    /// List all tasks.
    pub fn list_tasks(&self) -> (tasks: &[Task])
        ensures
            task_views(tasks@) == self@.tasks,
    {
        self.tasks.as_slice()
    }

    /// Get the first task that is in progress, if any.
    pub fn current_task(&self) -> (task: Option<&Task>)
        ensures
            match task {
                Some(task) => exists|i: int|
                    0 <= i < self@.tasks.len() && #[trigger] self@.tasks[i] == task@
                        && task.status == TaskStatus::InProgress && forall|j: int|
                        0 <= j < i ==> (#[trigger] self@.tasks[j]).status
                            != TaskStatus::InProgress,
                None => forall|j: int|
                    0 <= j < self@.tasks.len() ==> (#[trigger] self@.tasks[j]).status
                        != TaskStatus::InProgress,
            },
    {
        let mut i: usize = 0;
        while i < self.tasks.len()
            invariant
                0 <= i <= self.tasks@.len(),
                forall|j: int|
                    0 <= j < i ==> (#[trigger] self@.tasks[j]).status != TaskStatus::InProgress,
            decreases self.tasks@.len() - i,
        {
            assert(self@.tasks[i as int] == self.tasks@[i as int]@);
            if self.tasks[i].status == TaskStatus::InProgress {
                return Some(&self.tasks[i]);
            }
            i += 1;
        }
        None
    }

    /// Format a task summary for display.
    pub fn format_task_summary(task: &Task) -> (out: String)
        ensures
            out@ == summary_text(task@),
    {
        let icon: &str = match task.status {
            TaskStatus::Pending => "[ ]",
            TaskStatus::InProgress => "[>]",
            TaskStatus::Completed => "[x]",
        };
        let mut out = icon.to_owned();
        out.append(" ");
        out.append(task.id.as_str());
        out.append(" ");
        out.append(task.subject.as_str());
        out.append(" (");
        out.append(task.status.as_str());
        out.append(")");
        if let Some(form) = &task.active_form {
            out.append(" -- ");
            out.append(form.as_str());
        }
        append_names(&mut out, "\n    blocks: ", &task.blocks, "");
        append_names(&mut out, "\n    blocked_by: ", &task.blocked_by, "");
        proof {
            reveal_strlit("");
            assert(""@ =~= seq![]);
        }
        assert(out@ =~= summary_text(task@));
        out
    }

    /// Format full task details for display.
    pub fn format_task_detail(task: &Task) -> (out: String)
        ensures
            out@ == detail_text(task@),
    {
        let mut out = String::new();
        append_field(&mut out, "ID: ", task.id.as_str());
        append_field(&mut out, "Subject: ", task.subject.as_str());
        append_field(&mut out, "Status: ", task.status.as_str());
        append_field(&mut out, "Description: ", task.description.as_str());
        if let Some(form) = &task.active_form {
            append_field(&mut out, "Active form: ", form.as_str());
        }
        let created = clock::format_report(&task.created_at);
        append_field(&mut out, "Created: ", created.as_str());
        append_names(&mut out, "Blocks: ", &task.blocks, "\n");
        append_names(&mut out, "Blocked by: ", &task.blocked_by, "\n");
        assert(out@ =~= detail_text(task@));
        out
    }
}

/// The word that asks for a status is the word for that status.
pub proof fn status_words_are_the_same(status: TaskUpdateStatus)
    ensures
        status != TaskUpdateStatus::Deleted ==> (status_set(Some(status)) matches Some(s)
            && s.text() == status.text()),
        status_set(Some(TaskUpdateStatus::Deleted)) is None,
{
}

proof fn lemma_goes_on(before: Seq<char>, more: Seq<char>)
    ensures
        scan::occurs(before + more, more),
        forall|piece: Seq<char>| #[trigger]
            scan::occurs(before, piece) ==> scan::occurs(before + more, piece),
{
    assert forall|piece: Seq<char>| #[trigger]
        scan::occurs(before, piece) implies scan::occurs(before + more, piece) by {
        scan::lemma_occurs_ahead(before, more, piece);
    }
    scan::lemma_occurs_ahead(before, more, more);
}

/// A summary tells the task by its icon, id, subject and status, and then the active form and
/// the dependencies that it has.
pub proof fn summaries_tell_the_task(task: TaskView)
    ensures
        task.status == TaskStatus::Pending ==> "[ ]"@.is_prefix_of(summary_text(task)),
        task.status == TaskStatus::InProgress ==> "[>]"@.is_prefix_of(summary_text(task)),
        task.status == TaskStatus::Completed ==> "[x]"@.is_prefix_of(summary_text(task)),
        scan::occurs(
            summary_text(task),
            " "@ + task.id + " "@ + task.subject + " ("@ + task.status.text() + ")"@,
        ),
        task.active_form matches Some(form) ==> scan::occurs(summary_text(task), " -- "@ + form),
        task.blocks.len() > 0 ==> scan::occurs(
            summary_text(task),
            "\n    blocks: "@ + text::joined(task.blocks, ", "@),
        ),
        task.blocked_by.len() > 0 ==> scan::occurs(
            summary_text(task),
            "\n    blocked_by: "@ + text::joined(task.blocked_by, ", "@),
        ),
{
    let icon = status_icon(task.status);
    let name = " "@ + task.id + " "@ + task.subject + " ("@ + task.status.text() + ")"@;
    let form = match task.active_form {
        Some(form) => " -- "@ + form,
        None => seq![],
    };
    let none = Seq::<char>::empty();
    let blocks = names_line("\n    blocks: "@, task.blocks, none);
    let blocked_by = names_line("\n    blocked_by: "@, task.blocked_by, none);
    let all = summary_text(task);
    let start = icon + " "@ + task.id + " "@ + task.subject + " ("@ + task.status.text() + ")"@;
    assert(start =~= icon + name);
    lemma_goes_on(icon, name);
    lemma_goes_on(start, form);
    lemma_goes_on(start + form, blocks);
    lemma_goes_on(start + form + blocks, blocked_by);
    assert(all == start + form + blocks + blocked_by);
    assert(scan::occurs(start, name));
    assert(scan::occurs(start + form, form));
    assert(scan::occurs(start + form + blocks, blocks));
    let b = "\n    blocks: "@ + text::joined(task.blocks, ", "@);
    assert(b + none =~= b);
    let c = "\n    blocked_by: "@ + text::joined(task.blocked_by, ", "@);
    assert(c + none =~= c);
    assert(all.subrange(0, icon.len() as int) =~= icon);
}

/// The details of a task are told line by line.
pub proof fn details_tell_the_task(task: TaskView)
    ensures
        scan::occurs(detail_text(task), "ID: "@ + task.id + "\n"@),
        scan::occurs(detail_text(task), "Subject: "@ + task.subject + "\n"@),
        scan::occurs(detail_text(task), "Status: "@ + task.status.text() + "\n"@),
        scan::occurs(detail_text(task), "Description: "@ + task.description + "\n"@),
        task.active_form matches Some(form) ==> scan::occurs(
            detail_text(task),
            "Active form: "@ + form + "\n"@,
        ),
        scan::occurs(
            detail_text(task),
            "Created: "@ + clock::report_text(task.created_at) + "\n"@,
        ),
        task.blocks.len() > 0 ==> scan::occurs(
            detail_text(task),
            "Blocks: "@ + text::joined(task.blocks, ", "@) + "\n"@,
        ),
        task.blocked_by.len() > 0 ==> scan::occurs(
            detail_text(task),
            "Blocked by: "@ + text::joined(task.blocked_by, ", "@) + "\n"@,
        ),
{
    let form = match task.active_form {
        Some(form) => "Active form: "@ + form + "\n"@,
        None => seq![],
    };
    let none = Seq::<char>::empty();
    let a = "ID: "@ + task.id + "\n"@;
    let b = a + "Subject: "@ + task.subject + "\n"@;
    let c = b + "Status: "@ + task.status.text() + "\n"@;
    let d = c + "Description: "@ + task.description + "\n"@;
    let e = d + form;
    let f = e + "Created: "@ + clock::report_text(task.created_at) + "\n"@;
    let g = f + names_line("Blocks: "@, task.blocks, "\n"@);
    let h = g + names_line("Blocked by: "@, task.blocked_by, "\n"@);
    assert(detail_text(task) == h);
    assert(none + a =~= a);
    lemma_goes_on(none, a);
    lemma_line_goes_on(a, "Subject: "@, task.subject);
    lemma_line_goes_on(b, "Status: "@, task.status.text());
    lemma_line_goes_on(c, "Description: "@, task.description);
    lemma_goes_on(d, form);
    lemma_line_goes_on(e, "Created: "@, clock::report_text(task.created_at));
    lemma_goes_on(f, names_line("Blocks: "@, task.blocks, "\n"@));
    lemma_goes_on(g, names_line("Blocked by: "@, task.blocked_by, "\n"@));
    assert(scan::occurs(a, a));
}

proof fn lemma_line_goes_on(before: Seq<char>, label: Seq<char>, value: Seq<char>)
    ensures
        scan::occurs(before + label + value + "\n"@, label + value + "\n"@),
        forall|piece: Seq<char>| #[trigger]
            scan::occurs(before, piece) ==> scan::occurs(before + label + value + "\n"@, piece),
{
    assert(before + label + value + "\n"@ =~= before + (label + value + "\n"@));
    lemma_goes_on(before, label + value + "\n"@);
}

/// A refusal to start a task names the task and what blocks it.
pub proof fn blockers_are_named(tasks: Seq<TaskView>, id: Seq<char>, b: Seq<char>)
    ensures
        scan::occurs(blocker_text(tasks, id, b), "Task '"@ + id + "'"@),
        scan::occurs(blocker_text(tasks, id, b), "blocker '"@ + b + "'"@),
        find(tasks, b) matches Some(task) ==> task.status.text().is_suffix_of(
            blocker_text(tasks, id, b),
        ),
{
    let none = Seq::<char>::empty();
    let text = blocker_text(tasks, id, b);
    let who = "Task '"@ + id + "'"@;
    let what = "blocker '"@ + b + "'"@;
    reveal_strlit("Task '");
    reveal_strlit("'");
    reveal_strlit("blocker '");
    reveal_strlit("' cannot transition to in_progress: blocker '");
    reveal_strlit("' is ");
    reveal_strlit("' references nonexistent blocker '");
    match find(tasks, b) {
        Some(task) => {
            reveal_strlit(" cannot transition to in_progress: ");
            reveal_strlit(" is ");
            let mid = " cannot transition to in_progress: "@;
            let tail = " is "@ + task.status.text();
            assert("' cannot transition to in_progress: blocker '"@ =~= "'"@ + mid + "blocker '"@);
            assert("' is "@ =~= "'"@ + " is "@);
            assert(text =~= none + who + (mid + what + tail));
            assert(text =~= (who + mid) + what + tail);
            scan::lemma_part_occurs(none, who, mid + what + tail);
            scan::lemma_part_occurs(who + mid, what, tail);
            let last = task.status.text();
            assert(text.subrange(text.len() - last.len(), text.len() as int) =~= last);
        },
        None => {
            reveal_strlit(" references nonexistent ");
            let mid = " references nonexistent "@;
            assert("' references nonexistent blocker '"@ =~= "'"@ + mid + "blocker '"@);
            assert(text =~= none + who + (mid + what));
            assert(text =~= (who + mid) + what + none);
            scan::lemma_part_occurs(none, who, mid + what);
            scan::lemma_part_occurs(who + mid, what, none);
        },
    }
}

/// Of the names in a list of dependencies the first that cannot stand there is told: the task
/// itself, or a task that is not known. Where every name can stand, nothing is refused.
pub proof fn bad_names_are_told(
    tasks: Seq<TaskView>,
    id: Seq<char>,
    list: Seq<Seq<char>>,
    to_itself: Seq<char>,
    k: int,
)
    requires
        0 <= k <= list.len(),
        forall|j: int| 0 <= j < k ==> #[trigger] list[j] != id && known(tasks, list[j]),
    ensures
        k == list.len() ==> list_error(tasks, id, list, to_itself) is None,
        k < list.len() && list[k] == id ==> list_error(tasks, id, list, to_itself) == Some(
            to_itself,
        ),
        k < list.len() && list[k] != id && !known(tasks, list[k]) ==> list_error(
            tasks,
            id,
            list,
            to_itself,
        ) == Some("Referenced task '"@ + list[k] + "' not found"@),
{
    let bad = bad_end(tasks, id);
    assert forall|j: int| 0 <= j < k implies !bad(#[trigger] list[j]) by {}
    if k == list.len() {
        if let Some(i) = seqs::first_where(list, bad) {
            assert(seqs::is_first_where(list, bad, i));
        }
    } else if bad(list[k]) {
        assert(seqs::is_first_where(list, bad, k));
        seqs::lemma_first_where(list, bad, k);
    }
}

} // verus!
