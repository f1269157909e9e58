//! Periodic work on the memory database: which jobs are due, and what a job decides to
//! delete and to save.

use vstd::prelude::*;

use crate::scan;
use crate::string_map::StringSet;
use crate::text;

verus! {

/// The tag of a row that sums a task up.
pub const SUMMARY_TAG: &'static str = "agent-summary";

/// What the tag of a task's row begins with. The task's name follows.
pub const TASK_TAG_PREFIX: &'static str = "subagent-task:";

/// The longest summary, in bytes, before it is cut.
pub const MAX_SUMMARY_BYTES: usize = 4096;

/// What a job accomplished during a single run.
#[derive(Debug, Clone, PartialEq, Eq)]
pub struct JobOutcome {
    /// The name of the job that ran.
    pub job_name: &'static str,
    /// Number of records that were removed.
    pub records_pruned: usize,
    /// Number of records that were merged into another.
    pub records_deduped: usize,
}

/// A row of the archival memory.
#[derive(Clone, Debug)]
pub struct MemoryRow {
    pub id: i64,
    pub content: String,
    pub tags: Vec<String>,
    pub updated_at: String,
}

/// What a memory row says.
#[verifier::ext_equal]
pub struct RowView {
    pub id: i64,
    pub content: Seq<char>,
    pub tags: Seq<Seq<char>>,
    pub updated_at: Seq<char>,
}

impl View for MemoryRow {
    type V = RowView;

    open spec fn view(&self) -> RowView {
        RowView {
            id: self.id,
            content: self.content@,
            tags: text::views(self.tags@),
            updated_at: self.updated_at@,
        }
    }
}

/// What a list of memory rows says.
pub open spec fn row_views(rows: Seq<MemoryRow>) -> Seq<RowView> {
    Seq::new(rows.len(), |i: int| rows[i]@)
}

/// A row to be saved.
#[derive(Clone, Debug)]
pub struct NewMemory {
    pub content: String,
    pub tags: Vec<String>,
}

/// What a row to be saved says.
#[verifier::ext_equal]
pub struct NewMemoryView {
    pub content: Seq<char>,
    pub tags: Seq<Seq<char>>,
}

impl View for NewMemory {
    type V = NewMemoryView;

    open spec fn view(&self) -> NewMemoryView {
        NewMemoryView { content: self.content@, tags: text::views(self.tags@) }
    }
}

/// What a list of rows to be saved says.
pub open spec fn new_views(items: Seq<NewMemory>) -> Seq<NewMemoryView> {
    Seq::new(items.len(), |i: int| items[i]@)
}

/// What a job wants done with the database.
#[derive(Debug)]
pub struct JobPlan {
    /// The rows to be deleted.
    pub delete: Vec<i64>,
    /// The rows to be saved.
    pub save: Vec<NewMemory>,
}

/// What was done of a plan.
#[derive(Debug, Clone, Copy)]
pub struct JobTally {
    pub sessions_pruned: usize,
    pub activities_pruned: usize,
    pub deleted: usize,
    pub saved: usize,
}

/// A periodic task on the memory database.
pub trait BackgroundJob: Send + Sync {
    /// Name used in log output and in [`JobOutcome::job_name`].
    fn name(&self) -> &'static str;

    /// Whether expired short-term entries are to be pruned, ahead of anything else.
    fn prunes_expired(&self) -> bool;

    /// What one pass over the archival rows asks for.
    fn run(&self, rows: &Vec<MemoryRow>) -> JobPlan;

    /// What the pass accomplished.
    fn outcome(&self, tally: JobTally) -> JobOutcome
        requires
            tally.sessions_pruned + tally.activities_pruned <= usize::MAX,
    ;
}

/// Prunes expired short-term memory and deduplicates identical archival entries.
pub struct MemoryConsolidationJob;

/// Folds the rows of each subagent task into one summary row.
pub struct AgentSummaryJob;

// ---------------------------------------------------------------------------
// Deduplication

/// Row `k` is kept of the rows with its content: none is newer, and the ones ahead of it
/// are older.
pub open spec fn is_keeper(rows: Seq<RowView>, k: int) -> bool {
    &&& 0 <= k < rows.len()
    &&& forall|j: int|
        0 <= j < rows.len() && (#[trigger] rows[j]).content == rows[k].content ==> {
            &&& !text::lex_less(rows[k].updated_at, rows[j].updated_at)
            &&& j < k ==> text::lex_less(rows[j].updated_at, rows[k].updated_at)
        }
}

/// `k` is the row that is kept of those with the content of row `i`.
pub open spec fn keeps(rows: Seq<RowView>, i: int, k: int) -> bool {
    is_keeper(rows, k) && rows[k].content == rows[i].content
}

/// The row that is kept of those with the content of row `i`.
pub open spec fn keeper(rows: Seq<RowView>, i: int) -> int {
    choose|k: int| keeps(rows, i, k)
}

/// Row `i` is deleted: another row is kept in its place. A row that is listed twice is
/// deleted once.
pub open spec fn is_duplicate(rows: Seq<RowView>, i: int) -> bool {
    &&& rows[i].id != rows[keeper(rows, i)].id
    &&& forall|j: int|
        0 <= j < i ==> !((#[trigger] rows[j]).content == rows[i].content && rows[j].id
            == rows[i].id)
}

/// The duplicates among the first `n` rows.
pub open spec fn duplicates(rows: Seq<RowView>, n: int) -> Seq<i64>
    decreases n,
{
    if n <= 0 {
        seq![]
    } else if is_duplicate(rows, n - 1) {
        duplicates(rows, n - 1).push(rows[n - 1].id)
    } else {
        duplicates(rows, n - 1)
    }
}

/// Of the rows with one content a single one is kept.
pub proof fn one_row_is_kept(rows: Seq<RowView>, i: int, k: int, other: int)
    requires
        keeps(rows, i, k),
        keeps(rows, i, other),
    ensures
        k == other,
{
    assert(rows[k].content == rows[other].content);
}

/// The best of the first `n` rows with the content of row `i`.
spec fn best_so_far(rows: Seq<RowView>, i: int, n: int, k: int) -> bool {
    &&& 0 <= k < n
    &&& rows[k].content == rows[i].content
    &&& forall|j: int|
        0 <= j < n && (#[trigger] rows[j]).content == rows[i].content ==> {
            &&& !text::lex_less(rows[k].updated_at, rows[j].updated_at)
            &&& j < k ==> text::lex_less(rows[j].updated_at, rows[k].updated_at)
        }
}

proof fn lemma_promote(rows: Seq<RowView>, i: int, n: int, k: int)
    requires
        0 <= n < rows.len(),
        rows[n].content == rows[i].content,
        best_so_far(rows, i, n, k),
        text::lex_less(rows[k].updated_at, rows[n].updated_at),
    ensures
        best_so_far(rows, i, n + 1, n),
{
    text::lemma_lex_order();
    let less = text::lex_order();
    let top = rows[n].updated_at;
    assert(!less(top, top));
    assert(less(rows[k].updated_at, top));
    assert forall|j: int| 0 <= j < n && (#[trigger] rows[j]).content == rows[i].content implies {
        &&& !text::lex_less(top, rows[j].updated_at)
        &&& text::lex_less(rows[j].updated_at, top)
    } by {
        let u = rows[j].updated_at;
        text::lemma_lex_total(u, rows[k].updated_at);
        if less(u, rows[k].updated_at) {
            assert(less(u, top));
        }
        if less(top, u) {
            assert(less(u, u));
        }
    }
}

/// The row that is kept of those with the content of row `i`.
fn keeper_of(rows: &Vec<MemoryRow>, i: usize) -> (k: usize)
    requires
        i < rows@.len(),
    ensures
        k < rows@.len(),
        k == keeper(row_views(rows@), i as int),
        keeps(row_views(rows@), i as int, k as int),
{
    let ghost v = row_views(rows@);
    let mut best: Option<usize> = None;
    let mut j: usize = 0;
    while j < rows.len()
        invariant
            0 <= j <= rows@.len(),
            i < rows@.len(),
            v == row_views(rows@),
            match best {
                Some(k) => best_so_far(v, i as int, j as int, k as int),
                None => forall|m: int|
                    0 <= m < j ==> (#[trigger] v[m]).content != v[i as int].content,
            },
        decreases rows@.len() - j,
    {
        assert(v[j as int] == rows@[j as int]@);
        if text::str_eq(rows[j].content.as_str(), rows[i].content.as_str()) {
            match best {
                Some(k) => {
                    assert(v[k as int] == rows@[k as int]@);
                    if text::less(rows[k].updated_at.as_str(), rows[j].updated_at.as_str()) {
                        proof {
                            lemma_promote(v, i as int, j as int, k as int);
                        }
                        best = Some(j);
                    }
                },
                None => {
                    proof {
                        text::lemma_lex_order();
                        assert(!text::lex_order()(v[j as int].updated_at, v[j as int].updated_at));
                    }
                    best = Some(j);
                },
            }
        }
        j += 1;
    }
    match best {
        Some(k) => {
            proof {
                assert(keeps(v, i as int, k as int));
                one_row_is_kept(v, i as int, k as int, keeper(v, i as int));
            }
            k
        },
        None => {
            assert(v[i as int] == rows@[i as int]@);
            i
        },
    }
}

/// The ids of the rows that say what another row says that is kept in their place.
pub fn dedup_archival(rows: &Vec<MemoryRow>) -> (ids: Vec<i64>)
    ensures
        ids@ == duplicates(row_views(rows@), rows@.len() as int),
{
    let ghost v = row_views(rows@);
    let mut ids: Vec<i64> = Vec::new();
    let mut i: usize = 0;
    while i < rows.len()
        invariant
            0 <= i <= rows@.len(),
            v == row_views(rows@),
            ids@ == duplicates(v, i as int),
        decreases rows@.len() - i,
    {
        assert(v[i as int] == rows@[i as int]@);
        let k: usize = keeper_of(rows, i);
        assert(v[k as int] == rows@[k as int]@);
        let mut fresh = true;
        let mut j: usize = 0;
        while j < i
            invariant
                0 <= j <= i < rows@.len(),
                v == row_views(rows@),
                fresh == forall|m: int|
                    0 <= m < j ==> !((#[trigger] v[m]).content == v[i as int].content && v[m].id
                        == v[i as int].id),
            decreases i - j,
        {
            assert(v[j as int] == rows@[j as int]@);
            if rows[j].id == rows[i].id && text::str_eq(
                rows[j].content.as_str(),
                rows[i].content.as_str(),
            ) {
                fresh = false;
            }
            j += 1;
        }
        if rows[i].id != rows[k].id && fresh {
            ids.push(rows[i].id);
        }
        i += 1;
    }
    ids
}

/// Every content keeps a row, and none with that content is newer.
pub proof fn newest_copy_is_kept(rows: Seq<RowView>, i: int)
    requires
        0 <= i < rows.len(),
    ensures
        0 <= keeper(rows, i) < rows.len(),
        rows[keeper(rows, i)].content == rows[i].content,
        !text::lex_less(rows[keeper(rows, i)].updated_at, rows[i].updated_at),
        !is_duplicate(rows, keeper(rows, i)),
{
    lemma_some_best(rows, i, rows.len() as int);
    let b = choose|b: int| best_so_far(rows, i, rows.len() as int, b);
    assert(keeps(rows, i, b));
    let k = keeper(rows, i);
    assert(keeps(rows, i, k));
    assert(keeps(rows, k, k));
    one_row_is_kept(rows, k, k, keeper(rows, k));
}

proof fn lemma_some_best(rows: Seq<RowView>, i: int, n: int)
    requires
        0 <= i < n <= rows.len(),
    ensures
        exists|b: int| best_so_far(rows, i, n, b),
    decreases n,
{
    text::lemma_lex_order();
    let less = text::lex_order();
    assert(!less(rows[n - 1].updated_at, rows[n - 1].updated_at));
    let m = n - 1;
    if m > i {
        lemma_some_best(rows, i, m);
        let b = choose|b: int| best_so_far(rows, i, m, b);
        if rows[n - 1].content == rows[i].content && less(
            rows[b].updated_at,
            rows[n - 1].updated_at,
        ) {
            lemma_promote(rows, i, n - 1, b);
        } else {
            assert(best_so_far(rows, i, n, b));
        }
    } else if exists|j: int| 0 <= j < i && (#[trigger] rows[j]).content == rows[i].content {
        let j = choose|j: int| 0 <= j < i && (#[trigger] rows[j]).content == rows[i].content;
        lemma_some_best(rows, j, m);
        let b = choose|b: int| best_so_far(rows, j, m, b);
        assert(best_so_far(rows, i, m, b));
        if less(rows[b].updated_at, rows[i].updated_at) {
            lemma_promote(rows, i, n - 1, b);
        } else {
            assert(best_so_far(rows, i, n, b));
        }
    } else {
        assert(best_so_far(rows, i, n, i));
    }
}

/// A row without a copy is left alone.
pub proof fn unique_rows_stay(rows: Seq<RowView>, i: int)
    requires
        0 <= i < rows.len(),
        forall|j: int|
            0 <= j < rows.len() && (#[trigger] rows[j]).content == rows[i].content ==> j == i,
    ensures
        !is_duplicate(rows, i),
{
    newest_copy_is_kept(rows, i);
    assert(keeper(rows, i) == i);
}

// ---------------------------------------------------------------------------
// Summaries

/// The task that a tag names.
pub open spec fn task_of(tag: Seq<char>) -> Option<Seq<char>> {
    text::behind(tag, TASK_TAG_PREFIX@)
}

/// The row sums a task up.
pub open spec fn is_summary(row: RowView) -> bool {
    row.tags.contains(SUMMARY_TAG@)
}

/// What a row says of a task.
#[verifier::ext_equal]
pub struct NoteView {
    pub task: Seq<char>,
    pub content: Seq<char>,
}

/// The notes that the first `n` tags of a row make of its content.
pub open spec fn row_notes(row: RowView, n: int) -> Seq<NoteView>
    decreases n,
{
    if n <= 0 {
        seq![]
    } else {
        match task_of(row.tags[n - 1]) {
            Some(task) => row_notes(row, n - 1).push(NoteView { task, content: row.content }),
            None => row_notes(row, n - 1),
        }
    }
}

/// The notes on tasks in the first `n` rows. A summary is no note.
pub open spec fn task_notes(rows: Seq<RowView>, n: int) -> Seq<NoteView>
    decreases n,
{
    if n <= 0 {
        seq![]
    } else if is_summary(rows[n - 1]) {
        task_notes(rows, n - 1)
    } else {
        task_notes(rows, n - 1) + row_notes(rows[n - 1], rows[n - 1].tags.len() as int)
    }
}

/// A tag of the row names the task.
pub open spec fn names_task(row: RowView, task: Seq<char>) -> bool {
    exists|k: int| 0 <= k < row.tags.len() && task_of(#[trigger] row.tags[k]) == Some(task)
}

/// The tasks that have a summary.
pub open spec fn summed_up(rows: Seq<RowView>) -> Set<Seq<char>> {
    Set::new(
        |task: Seq<char>|
            exists|i: int|
                0 <= i < rows.len() && is_summary(#[trigger] rows[i]) && names_task(rows[i], task),
    )
}

/// What the first `n` notes say of a task.
pub open spec fn said_of(notes: Seq<NoteView>, task: Seq<char>, n: int) -> Seq<Seq<char>>
    decreases n,
{
    if n <= 0 {
        seq![]
    } else if notes[n - 1].task == task {
        said_of(notes, task, n - 1).push(notes[n - 1].content)
    } else {
        said_of(notes, task, n - 1)
    }
}

/// A summary's text, cut where it is too long.
pub open spec fn cut(body: Seq<char>) -> Seq<char> {
    if text::utf8_len(body) > MAX_SUMMARY_BYTES {
        text::clipped(body, MAX_SUMMARY_BYTES as nat).push('…')
    } else {
        body
    }
}

/// The summary of a task: what its notes say, as paragraphs.
pub open spec fn summary(notes: Seq<NoteView>, task: Seq<char>) -> NewMemoryView {
    NewMemoryView {
        content: cut(text::joined(said_of(notes, task, notes.len() as int), "\n\n"@)),
        tags: seq![SUMMARY_TAG@, TASK_TAG_PREFIX@ + task],
    }
}

/// No note ahead of the `i`-th is on its task.
pub open spec fn opens_task(notes: Seq<NoteView>, i: int) -> bool {
    forall|j: int| 0 <= j < i ==> (#[trigger] notes[j]).task != notes[i].task
}

/// The summaries that the first `n` notes call for: one for each task without one, in the
/// order in which the tasks come up.
pub open spec fn summaries(notes: Seq<NoteView>, done: Set<Seq<char>>, n: int) -> Seq<
    NewMemoryView,
>
    decreases n,
{
    if n <= 0 {
        seq![]
    } else if opens_task(notes, n - 1) && !done.contains(notes[n - 1].task) {
        summaries(notes, done, n - 1).push(summary(notes, notes[n - 1].task))
    } else {
        summaries(notes, done, n - 1)
    }
}

/// The summaries that the rows call for.
pub open spec fn wanted_summaries(rows: Seq<RowView>) -> Seq<NewMemoryView> {
    let notes = task_notes(rows, rows.len() as int);
    summaries(notes, summed_up(rows), notes.len() as int)
}

/// What a row says of a task.
struct Note {
    task: String,
    content: String,
}

spec fn note_views(notes: Seq<Note>) -> Seq<NoteView> {
    Seq::new(
        notes.len(),
        |i: int| NoteView { task: notes[i].task@, content: notes[i].content@ },
    )
}

/// Appends the notes of a row.
fn push_notes(notes: &mut Vec<Note>, row: &MemoryRow)
    ensures
        note_views(final(notes)@) == note_views(old(notes)@) + row_notes(
            row@,
            row@.tags.len() as int,
        ),
{
    let ghost before = note_views(notes@);
    let mut k: usize = 0;
    while k < row.tags.len()
        invariant
            0 <= k <= row.tags@.len(),
            note_views(notes@) =~= before + row_notes(row@, k as int),
        decreases row.tags@.len() - k,
    {
        let ghost so_far = notes@;
        assert(row@.tags[k as int] == row.tags@[k as int]@);
        if let Some(task) = text::strip_prefix(row.tags[k].as_str(), TASK_TAG_PREFIX) {
            notes.push(Note { task, content: row.content.clone() });
            assert(note_views(notes@) =~= note_views(so_far).push(
                NoteView { task: task@, content: row.content@ },
            ));
        }
        k += 1;
    }
}

/// Adds the tasks that a row names.
fn add_tasks(tasks: &mut StringSet, row: &MemoryRow)
    ensures
        final(tasks)@ == old(tasks)@.union(Set::new(|task: Seq<char>| names_task(row@, task))),
{
    let mut k: usize = 0;
    while k < row.tags.len()
        invariant
            0 <= k <= row.tags@.len(),
            forall|task: Seq<char>| #[trigger]
                tasks@.contains(task) <==> old(tasks)@.contains(task) || exists|m: int|
                    0 <= m < k && task_of(#[trigger] row@.tags[m]) == Some(task),
        decreases row.tags@.len() - k,
    {
        assert(row@.tags[k as int] == row.tags@[k as int]@);
        let ghost so_far = tasks@;
        if let Some(task) = text::strip_prefix(row.tags[k].as_str(), TASK_TAG_PREFIX) {
            tasks.insert(task);
        }
        proof {
            assert forall|task: Seq<char>| #[trigger]
                tasks@.contains(task) <==> old(tasks)@.contains(task) || exists|m: int|
                    0 <= m < k + 1 && task_of(#[trigger] row@.tags[m]) == Some(task) by {
                assert(so_far.contains(task) <==> old(tasks)@.contains(task) || exists|m: int|
                    0 <= m < k && task_of(#[trigger] row@.tags[m]) == Some(task));
                if task_of(row@.tags[k as int]) == Some(task) {
                    assert(tasks@.contains(task));
                }
            }
        }
        k += 1;
    }
    assert(tasks@ =~= old(tasks)@.union(Set::new(|task: Seq<char>| names_task(row@, task))));
}

/// What the notes say of a task.
fn contents_on(notes: &Vec<Note>, task: &str) -> (contents: Vec<String>)
    ensures
        text::views(contents@) == said_of(note_views(notes@), task@, notes@.len() as int),
{
    let ghost v = note_views(notes@);
    let mut contents: Vec<String> = Vec::new();
    let mut i: usize = 0;
    while i < notes.len()
        invariant
            0 <= i <= notes@.len(),
            v == note_views(notes@),
            text::views(contents@) =~= said_of(v, task@, i as int),
        decreases notes@.len() - i,
    {
        if text::str_eq(notes[i].task.as_str(), task) {
            contents.push(notes[i].content.clone());
        }
        i += 1;
    }
    contents
}

/// A summary's text, cut where it is too long.
fn cut_body(body: String) -> (out: String)
    ensures
        out@ == cut(body@),
{
    if text::byte_len(body.as_str()) > MAX_SUMMARY_BYTES {
        let mut out = text::clip(body.as_str(), MAX_SUMMARY_BYTES);
        out.push('…');
        out
    } else {
        body
    }
}

/// The summary of a task.
fn summary_of(notes: &Vec<Note>, task: &str) -> (row: NewMemory)
    ensures
        row@ == summary(note_views(notes@), task@),
{
    let contents = contents_on(notes, task);
    let content = cut_body(text::join(&contents, "\n\n"));
    let mut tags: Vec<String> = Vec::new();
    tags.push(SUMMARY_TAG.to_owned());
    let mut tag = TASK_TAG_PREFIX.to_owned();
    tag.append(task);
    tags.push(tag);
    let row = NewMemory { content, tags };
    assert(text::views(row.tags@) =~= seq![SUMMARY_TAG@, TASK_TAG_PREFIX@ + task@]);
    row
}

/// Whether no note ahead of the `i`-th is on its task.
fn first_on_task(notes: &Vec<Note>, i: usize) -> (first: bool)
    requires
        i < notes@.len(),
    ensures
        first == opens_task(note_views(notes@), i as int),
{
    let ghost v = note_views(notes@);
    let mut j: usize = 0;
    while j < i
        invariant
            0 <= j <= i < notes@.len(),
            v == note_views(notes@),
            forall|m: int| 0 <= m < j ==> (#[trigger] v[m]).task != v[i as int].task,
        decreases i - j,
    {
        if text::str_eq(notes[j].task.as_str(), notes[i].task.as_str()) {
            assert(v[j as int].task == v[i as int].task);
            return false;
        }
        j += 1;
    }
    true
}

/// The rows that sum up the tasks which have notes and no summary yet.
pub fn summarise_tasks(rows: &Vec<MemoryRow>) -> (save: Vec<NewMemory>)
    ensures
        new_views(save@) == wanted_summaries(row_views(rows@)),
{
    let ghost v = row_views(rows@);
    let mut notes: Vec<Note> = Vec::new();
    let mut done = StringSet::new();
    let mut i: usize = 0;
    while i < rows.len()
        invariant
            0 <= i <= rows@.len(),
            v == row_views(rows@),
            note_views(notes@) =~= task_notes(v, i as int),
            done@ =~= summed_up(v.take(i as int)),
        decreases rows@.len() - i,
    {
        assert(v[i as int] == rows@[i as int]@);
        let ghost row = v[i as int];
        let ghost before = v.take(i as int);
        let ghost after = v.take(i + 1);
        if text::contains(&rows[i].tags, SUMMARY_TAG) {
            add_tasks(&mut done, &rows[i]);
        } else {
            push_notes(&mut notes, &rows[i]);
        }
        proof {
            assert forall|task: Seq<char>| #[trigger]
                summed_up(after).contains(task) <==> summed_up(before).contains(task) || (
                is_summary(row) && names_task(row, task)) by {
                if summed_up(after).contains(task) {
                    let m = choose|m: int|
                        0 <= m < after.len() && is_summary(#[trigger] after[m]) && names_task(
                            after[m],
                            task,
                        );
                    if m < i {
                        assert(before[m] == after[m]);
                    }
                }
                if summed_up(before).contains(task) {
                    let m = choose|m: int|
                        0 <= m < before.len() && is_summary(#[trigger] before[m]) && names_task(
                            before[m],
                            task,
                        );
                    assert(after[m] == before[m]);
                }
                assert(after[i as int] == row);
            }
            assert(done@ =~= summed_up(after));
        }
        i += 1;
    }
    assert(v.take(i as int) =~= v);
    let mut save: Vec<NewMemory> = Vec::new();
    let ghost all = note_views(notes@);
    let mut k: usize = 0;
    while k < notes.len()
        invariant
            0 <= k <= notes@.len(),
            all == note_views(notes@),
            done@ == summed_up(v),
            new_views(save@) =~= summaries(all, done@, k as int),
        decreases notes@.len() - k,
    {
        if first_on_task(&notes, k) && !done.contains(notes[k].task.as_str()) {
            save.push(summary_of(&notes, notes[k].task.as_str()));
        }
        k += 1;
    }
    save
}

/// A row other than a summary is on the task.
pub open spec fn noted(rows: Seq<RowView>, task: Seq<char>) -> bool {
    exists|i: int|
        0 <= i < rows.len() && !is_summary(#[trigger] rows[i]) && names_task(rows[i], task)
}

/// Some note is on the task.
spec fn on_task(notes: Seq<NoteView>, task: Seq<char>) -> bool {
    exists|i: int| 0 <= i < notes.len() && (#[trigger] notes[i]).task == task
}

proof fn lemma_row_notes(row: RowView, n: int, task: Seq<char>)
    requires
        0 <= n <= row.tags.len(),
    ensures
        on_task(row_notes(row, n), task) <==> exists|k: int|
            0 <= k < n && task_of(#[trigger] row.tags[k]) == Some(task),
    decreases n,
{
    if n > 0 {
        lemma_row_notes(row, n - 1, task);
        let before = row_notes(row, n - 1);
        let now = row_notes(row, n);
        if task_of(row.tags[n - 1]) is Some {
            assert(now.last().task == task_of(row.tags[n - 1])->0);
            if on_task(before, task) {
                let i = choose|i: int| 0 <= i < before.len() && (#[trigger] before[i]).task == task;
                assert(now[i].task == task);
            }
            if on_task(now, task) {
                let i = choose|i: int| 0 <= i < now.len() && (#[trigger] now[i]).task == task;
                if i < before.len() {
                    assert(before[i].task == task);
                }
            }
        }
    }
}

proof fn lemma_task_notes(rows: Seq<RowView>, n: int, task: Seq<char>)
    requires
        0 <= n <= rows.len(),
    ensures
        on_task(task_notes(rows, n), task) <==> exists|i: int|
            0 <= i < n && !is_summary(#[trigger] rows[i]) && names_task(rows[i], task),
    decreases n,
{
    if n > 0 {
        lemma_task_notes(rows, n - 1, task);
        let row = rows[n - 1];
        let before = task_notes(rows, n - 1);
        if !is_summary(row) {
            let more = row_notes(row, row.tags.len() as int);
            let now = before + more;
            lemma_row_notes(row, row.tags.len() as int, task);
            if on_task(before, task) {
                let i = choose|i: int| 0 <= i < before.len() && (#[trigger] before[i]).task == task;
                assert(now[i].task == task);
            }
            if on_task(more, task) {
                let i = choose|i: int| 0 <= i < more.len() && (#[trigger] more[i]).task == task;
                assert(now[before.len() + i].task == task);
            }
            if on_task(now, task) {
                let i = choose|i: int| 0 <= i < now.len() && (#[trigger] now[i]).task == task;
                if i < before.len() {
                    assert(before[i].task == task);
                } else {
                    assert(more[i - before.len()].task == task);
                }
            }
        }
    }
}

/// The `i`-th of the summaries is that of the task.
pub open spec fn sums_up(list: Seq<NewMemoryView>, task: Seq<char>, i: int) -> bool {
    0 <= i < list.len() && list[i].tags == seq![SUMMARY_TAG@, TASK_TAG_PREFIX@ + task]
}

proof fn lemma_summaries(notes: Seq<NoteView>, done: Set<Seq<char>>, n: int, m: int)
    requires
        0 <= m < n <= notes.len(),
        !done.contains(notes[m].task),
    ensures
        exists|i: int| sums_up(summaries(notes, done, n), notes[m].task, i),
    decreases n, m,
{
    let task = notes[m].task;
    let before = summaries(notes, done, n - 1);
    let now = summaries(notes, done, n);
    if m < n - 1 {
        lemma_summaries(notes, done, n - 1, m);
        let i = choose|i: int| sums_up(before, task, i);
        assert(now[i] == before[i]);
        assert(sums_up(now, task, i));
    } else if opens_task(notes, m) {
        assert(sums_up(now, task, now.len() - 1));
    } else {
        let j = choose|j: int| 0 <= j < m && (#[trigger] notes[j]).task == notes[m].task;
        lemma_summaries(notes, done, n - 1, j);
        let i = choose|i: int| sums_up(before, task, i);
        assert(sums_up(now, task, i));
    }
}

/// A task that has notes and no summary is summed up.
pub proof fn noted_tasks_are_summed_up(rows: Seq<RowView>, task: Seq<char>)
    requires
        noted(rows, task),
        !summed_up(rows).contains(task),
    ensures
        exists|i: int| sums_up(wanted_summaries(rows), task, i),
{
    let notes = task_notes(rows, rows.len() as int);
    lemma_task_notes(rows, rows.len() as int, task);
    assert(on_task(notes, task));
    let m = choose|m: int| 0 <= m < notes.len() && (#[trigger] notes[m]).task == task;
    lemma_summaries(notes, summed_up(rows), notes.len() as int, m);
    let list = wanted_summaries(rows);
    let i = choose|i: int| sums_up(list, notes[m].task, i);
    assert(sums_up(list, task, i));
}

proof fn lemma_same_task(a: Seq<char>, b: Seq<char>)
    requires
        seq![SUMMARY_TAG@, TASK_TAG_PREFIX@ + a] == seq![SUMMARY_TAG@, TASK_TAG_PREFIX@ + b],
    ensures
        a == b,
{
    let prefix = TASK_TAG_PREFIX@;
    assert(seq![SUMMARY_TAG@, prefix + a][1] == seq![SUMMARY_TAG@, prefix + b][1]);
    assert((prefix + a).skip(prefix.len() as int) =~= a);
    assert((prefix + b).skip(prefix.len() as int) =~= b);
}

proof fn lemma_summary_is_called_for(
    notes: Seq<NoteView>,
    done: Set<Seq<char>>,
    n: int,
    task: Seq<char>,
    i: int,
)
    requires
        0 <= n <= notes.len(),
        sums_up(summaries(notes, done, n), task, i),
    ensures
        !done.contains(task),
        exists|m: int| 0 <= m < n && (#[trigger] notes[m]).task == task,
    decreases n,
{
    let before = summaries(notes, done, n - 1);
    if i < before.len() {
        assert(sums_up(before, task, i));
        lemma_summary_is_called_for(notes, done, n - 1, task, i);
        let m = choose|m: int| 0 <= m < n - 1 && (#[trigger] notes[m]).task == task;
        assert(notes[m].task == task);
    } else {
        lemma_same_task(task, notes[n - 1].task);
        assert(notes[n - 1].task == task);
    }
}

proof fn lemma_one_summary(
    notes: Seq<NoteView>,
    done: Set<Seq<char>>,
    n: int,
    task: Seq<char>,
    i: int,
    j: int,
)
    requires
        0 <= n <= notes.len(),
        sums_up(summaries(notes, done, n), task, i),
        sums_up(summaries(notes, done, n), task, j),
    ensures
        i == j,
    decreases n,
{
    let before = summaries(notes, done, n - 1);
    if i < before.len() && j < before.len() {
        assert(sums_up(before, task, i) && sums_up(before, task, j));
        lemma_one_summary(notes, done, n - 1, task, i, j);
    } else if i != j {
        let early = if i < j {
            i
        } else {
            j
        };
        assert(sums_up(before, task, early));
        lemma_summary_is_called_for(notes, done, n - 1, task, early);
        lemma_same_task(task, notes[n - 1].task);
        let m = choose|m: int| 0 <= m < n - 1 && (#[trigger] notes[m]).task == task;
        assert(notes[m].task == notes[n - 1].task);
    }
}

/// There is one summary for each task that calls for one: no task is summed up twice, and
/// only one that has notes and no summary yet.
pub proof fn one_summary_per_task(rows: Seq<RowView>, task: Seq<char>, i: int, j: int)
    requires
        sums_up(wanted_summaries(rows), task, i),
        sums_up(wanted_summaries(rows), task, j),
    ensures
        i == j,
        noted(rows, task),
        !summed_up(rows).contains(task),
{
    let notes = task_notes(rows, rows.len() as int);
    lemma_one_summary(notes, summed_up(rows), notes.len() as int, task, i, j);
    lemma_summary_is_called_for(notes, summed_up(rows), notes.len() as int, task, i);
    lemma_task_notes(rows, rows.len() as int, task);
    assert(on_task(notes, task));
}

proof fn lemma_nothing_wanted(rows: Seq<RowView>, n: int)
    requires
        forall|task: Seq<char>| noted(rows, task) ==> #[trigger] summed_up(rows).contains(task),
        0 <= n <= task_notes(rows, rows.len() as int).len(),
    ensures
        summaries(task_notes(rows, rows.len() as int), summed_up(rows), n).len() == 0,
    decreases n,
{
    if n > 0 {
        lemma_nothing_wanted(rows, n - 1);
        let notes = task_notes(rows, rows.len() as int);
        let task = notes[n - 1].task;
        lemma_task_notes(rows, rows.len() as int, task);
        assert(on_task(notes, task));
        assert(noted(rows, task));
        assert(summed_up(rows).contains(task));
    }
}

/// Once the summaries that a pass asks for are saved, another pass asks for none, in
/// whatever order the rows are then listed.
pub proof fn summing_up_twice_adds_nothing(
    rows: Seq<RowView>,
    saved: Seq<RowView>,
    later: Seq<RowView>,
)
    requires
        saved.len() == wanted_summaries(rows).len(),
        forall|i: int|
            0 <= i < saved.len() ==> (#[trigger] saved[i]).tags == wanted_summaries(rows)[i].tags,
        forall|i: int| 0 <= i < saved.len() ==> later.contains(#[trigger] saved[i]),
        forall|i: int| 0 <= i < rows.len() ==> later.contains(#[trigger] rows[i]),
        forall|i: int|
            0 <= i < later.len() ==> rows.contains(#[trigger] later[i]) || saved.contains(later[i]),
    ensures
        wanted_summaries(later).len() == 0,
{
    let wanted = wanted_summaries(rows);
    let notes = task_notes(rows, rows.len() as int);
    assert forall|task: Seq<char>| noted(later, task) implies #[trigger] summed_up(
        later,
    ).contains(task) by {
        let l = choose|l: int|
            0 <= l < later.len() && !is_summary(#[trigger] later[l]) && names_task(later[l], task);
        if saved.contains(later[l]) {
            let s = choose|s: int| 0 <= s < saved.len() && saved[s] == later[l];
            lemma_summaries_are_tagged(notes, summed_up(rows), notes.len() as int, s);
            assert(saved[s].tags == wanted[s].tags);
            assert(wanted[s].tags.contains(SUMMARY_TAG@));
        }
        assert(rows.contains(later[l]));
        let r = choose|r: int| 0 <= r < rows.len() && rows[r] == later[l];
        assert(!is_summary(rows[r]) && names_task(rows[r], task));
        assert(noted(rows, task));
        if summed_up(rows).contains(task) {
            let q = choose|q: int|
                0 <= q < rows.len() && is_summary(#[trigger] rows[q]) && names_task(rows[q], task);
            let p = choose|p: int| 0 <= p < later.len() && later[p] == rows[q];
            assert(is_summary(later[p]) && names_task(later[p], task));
        } else {
            noted_tasks_are_summed_up(rows, task);
            let s = choose|s: int| sums_up(wanted, task, s);
            assert(saved[s].tags == wanted[s].tags);
            let p = choose|p: int| 0 <= p < later.len() && later[p] == saved[s];
            let row = later[p];
            assert(row.tags == seq![SUMMARY_TAG@, TASK_TAG_PREFIX@ + task]);
            assert(row.tags[0] == SUMMARY_TAG@);
            let tag = row.tags[1];
            assert(TASK_TAG_PREFIX@.is_prefix_of(tag));
            assert(tag.skip(TASK_TAG_PREFIX@.len() as int) =~= task);
            assert(task_of(row.tags[1]) == Some(task));
            assert(is_summary(later[p]) && names_task(later[p], task));
        }
    }
    lemma_nothing_wanted(later, task_notes(later, later.len() as int).len() as int);
}

proof fn lemma_summaries_are_tagged(
    notes: Seq<NoteView>,
    done: Set<Seq<char>>,
    n: int,
    i: int,
)
    requires
        0 <= n <= notes.len(),
        0 <= i < summaries(notes, done, n).len(),
    ensures
        summaries(notes, done, n)[i].tags.contains(SUMMARY_TAG@),
    decreases n,
{
    if i < summaries(notes, done, n - 1).len() {
        lemma_summaries_are_tagged(notes, done, n - 1, i);
    } else {
        assert(summaries(notes, done, n)[i].tags[0] == SUMMARY_TAG@);
    }
}

impl BackgroundJob for MemoryConsolidationJob {
    fn name(&self) -> (name: &'static str)
        ensures
            name@ == "memory_consolidation"@,
    {
        "memory_consolidation"
    }

    fn prunes_expired(&self) -> (b: bool)
        ensures
            b == true,
    {
        true
    }

    fn run(&self, rows: &Vec<MemoryRow>) -> (plan: JobPlan)
        ensures
            plan.delete@ == duplicates(row_views(rows@), rows@.len() as int),
            plan.save@.len() == 0,
    {
        JobPlan { delete: dedup_archival(rows), save: Vec::new() }
    }

    fn outcome(&self, tally: JobTally) -> (outcome: JobOutcome)
        ensures
            outcome.job_name@ == "memory_consolidation"@,
            outcome.records_pruned == tally.sessions_pruned + tally.activities_pruned,
            outcome.records_deduped == tally.deleted,
    {
        JobOutcome {
            job_name: self.name(),
            records_pruned: tally.sessions_pruned + tally.activities_pruned,
            records_deduped: tally.deleted,
        }
    }
}

impl BackgroundJob for AgentSummaryJob {
    fn name(&self) -> (name: &'static str)
        ensures
            name@ == "agent_summary"@,
    {
        "agent_summary"
    }

    fn prunes_expired(&self) -> (b: bool)
        ensures
            b == false,
    {
        false
    }

    fn run(&self, rows: &Vec<MemoryRow>) -> (plan: JobPlan)
        ensures
            plan.delete@.len() == 0,
            new_views(plan.save@) == wanted_summaries(row_views(rows@)),
    {
        JobPlan { delete: Vec::new(), save: summarise_tasks(rows) }
    }

    fn outcome(&self, tally: JobTally) -> (outcome: JobOutcome)
        ensures
            outcome.job_name@ == "agent_summary"@,
            outcome.records_pruned == 0,
            outcome.records_deduped == tally.saved,
    {
        JobOutcome { job_name: self.name(), records_pruned: 0, records_deduped: tally.saved }
    }
}

// ---------------------------------------------------------------------------
// Schedule

/// When a job runs, in nanoseconds on a clock that does not go back.
#[verifier::ext_equal]
pub struct Timing {
    /// The time from one run to the next.
    pub interval: u128,
    /// When the job ran last.
    pub last_run: Option<u128>,
}

/// The job is due: it never ran, or its interval has gone by.
pub open spec fn due(timing: Timing, now: u128) -> bool {
    match timing.last_run {
        None => true,
        Some(last) => if last <= now {
            now - last >= timing.interval
        } else {
            timing.interval == 0
        },
    }
}

/// Which of the first `n` jobs are due.
pub open spec fn due_jobs(timings: Seq<Timing>, now: u128, n: int) -> Seq<int>
    decreases n,
{
    if n <= 0 {
        seq![]
    } else if due(timings[n - 1], now) {
        due_jobs(timings, now, n - 1).push(n - 1)
    } else {
        due_jobs(timings, now, n - 1)
    }
}

/// The timing after a tick: a job that was due has run.
pub open spec fn ticked(timing: Timing, now: u128) -> Timing {
    if due(timing, now) {
        Timing { interval: timing.interval, last_run: Some(now) }
    } else {
        timing
    }
}

/// The numbers of a list of places.
pub open spec fn places(list: Seq<usize>) -> Seq<int> {
    Seq::new(list.len(), |i: int| list[i] as int)
}

/// Entry in the scheduler's job table.
struct ScheduledJob<J> {
    job: J,
    interval: u128,
    last_run: Option<u128>,
}

/// Says which registered jobs are due. The caller drives it from a loop of its own and
/// runs the jobs it names.
pub struct JobScheduler<J> {
    jobs: Vec<ScheduledJob<J>>,
}

impl<J> JobScheduler<J> {
    /// The jobs in the order of registration.
    pub closed spec fn jobs(&self) -> Seq<J> {
        Seq::new(self.jobs@.len(), |i: int| self.jobs@[i].job)
    }

    /// When each job runs.
    pub closed spec fn timings(&self) -> Seq<Timing> {
        Seq::new(
            self.jobs@.len(),
            |i: int|
                Timing { interval: self.jobs@[i].interval, last_run: self.jobs@[i].last_run },
        )
    }

    /// A scheduler without jobs.
    pub fn new() -> (s: JobScheduler<J>)
        ensures
            s.jobs() == Seq::<J>::empty(),
            s.timings() == Seq::<Timing>::empty(),
    {
        let s = JobScheduler { jobs: Vec::new() };
        assert(s.jobs() =~= Seq::<J>::empty());
        assert(s.timings() =~= Seq::<Timing>::empty());
        s
    }

    /// Registers a job to run at most once per `interval`.
    pub fn register(&mut self, job: J, interval: u128)
        ensures
            final(self).jobs() == old(self).jobs().push(job),
            final(self).timings() == old(self).timings().push(Timing { interval, last_run: None }),
    {
        self.jobs.push(ScheduledJob { job, interval, last_run: None });
        assert(self.jobs() =~= old(self).jobs().push(job));
        assert(self.timings() =~= old(self).timings().push(Timing { interval, last_run: None }));
    }

    /// The jobs that are due at `now`, in the order of registration. They count as run,
    /// whatever becomes of the run, so a failing job waits for its interval too.
    pub fn tick(&mut self, now: u128) -> (due_now: Vec<usize>)
        ensures
            places(due_now@) == due_jobs(old(self).timings(), now, old(self).timings().len() as int),
            final(self).jobs() == old(self).jobs(),
            final(self).timings() == old(self).timings().map_values(|t: Timing| ticked(t, now)),
    {
        let mut due_now: Vec<usize> = Vec::new();
        let n: usize = self.jobs.len();
        let ghost was = self.timings();
        let mut i: usize = 0;
        while i < n
            invariant
                0 <= i <= n,
                n == was.len(),
                was == old(self).timings(),
                self.timings().len() == n,
                self.jobs@.len() == n,
                self.jobs() == old(self).jobs(),
                forall|j: int| 0 <= j < i ==> (#[trigger] self.timings()[j]) == ticked(was[j], now),
                forall|j: int| i <= j < n ==> (#[trigger] self.timings()[j]) == was[j],
                places(due_now@) =~= due_jobs(was, now, i as int),
            decreases n - i,
        {
            let ghost before = self.timings();
            let ghost jobs_before = self.jobs();
            assert(before[i as int] == was[i as int]);
            let is_due = match self.jobs[i].last_run {
                None => true,
                Some(last) => if last <= now {
                    now - last >= self.jobs[i].interval
                } else {
                    self.jobs[i].interval == 0
                },
            };
            if is_due {
                self.jobs[i].last_run = Some(now);
                due_now.push(i);
                assert(self.timings() =~= before.update(i as int, ticked(was[i as int], now)));
                assert(self.jobs() =~= jobs_before);
            }
            i += 1;
        }
        assert(self.timings() =~= was.map_values(|t: Timing| ticked(t, now)));
        due_now
    }

    /// The `i`-th job.
    pub fn job(&self, i: usize) -> (job: &J)
        requires
            i < self.jobs().len(),
        ensures
            *job == self.jobs()[i as int],
    {
        &self.jobs[i].job
    }

    /// How many jobs are registered.
    pub fn job_count(&self) -> (n: usize)
        ensures
            n == self.jobs().len(),
            n == self.timings().len(),
    {
        self.jobs.len()
    }
}

/// A job that ran is due again when its interval has gone by, and not before.
pub proof fn a_job_waits_for_its_interval(timing: Timing, now: u128, later: u128)
    requires
        due(timing, now),
        now <= later,
    ensures
        due(ticked(timing, now), later) <==> later - now >= timing.interval,
{
}

/// What notes say of a task is what each of them says, in their order: notes behind others
/// add what they say behind it, and a note on another task adds nothing.
pub proof fn every_note_on_a_task_is_told(
    a: Seq<NoteView>,
    b: Seq<NoteView>,
    task: Seq<char>,
    note: NoteView,
)
    ensures
        said_of(a + b, task, (a + b).len() as int) == said_of(a, task, a.len() as int) + said_of(
            b,
            task,
            b.len() as int,
        ),
        said_of(seq![note], task, 1) == (if note.task == task {
            seq![note.content]
        } else {
            seq![]
        }),
    decreases b.len(),
{
    reveal_with_fuel(said_of, 2);
    assert(said_of(seq![note], task, 1) =~= (if note.task == task {
        seq![note.content]
    } else {
        seq![]
    }));
    let all = a + b;
    if b.len() == 0 {
        assert(all =~= a);
        assert(said_of(all, task, all.len() as int) =~= said_of(a, task, a.len() as int)
            + said_of(b, task, 0));
    } else {
        let rest = b.drop_last();
        assert(all.drop_last() =~= a + rest);
        every_note_on_a_task_is_told(a, rest, task, note);
        lemma_said_ahead(all, all.drop_last(), task, all.len() - 1);
        lemma_said_ahead(b, rest, task, b.len() - 1);
        assert(all[all.len() - 1] == b[b.len() - 1]);
        assert(said_of(all, task, all.len() as int) =~= said_of(a, task, a.len() as int)
            + said_of(b, task, b.len() as int));
    }
}

proof fn lemma_said_ahead(a: Seq<NoteView>, b: Seq<NoteView>, task: Seq<char>, n: int)
    requires
        n <= a.len(),
        n <= b.len(),
        forall|i: int| 0 <= i < n ==> a[i] == b[i],
    ensures
        said_of(a, task, n) == said_of(b, task, n),
    decreases n,
{
    if n > 0 {
        lemma_said_ahead(a, b, task, n - 1);
    }
}

/// The notes of rows are the notes of each of them, in their order: rows behind others add
/// theirs behind those of the others.
pub proof fn every_row_is_noted(a: Seq<RowView>, b: Seq<RowView>)
    ensures
        task_notes(a + b, (a + b).len() as int) == task_notes(a, a.len() as int) + task_notes(
            b,
            b.len() as int,
        ),
    decreases b.len(),
{
    let all = a + b;
    if b.len() == 0 {
        assert(all =~= a);
        assert(task_notes(all, all.len() as int) =~= task_notes(a, a.len() as int) + task_notes(
            b,
            0,
        ));
    } else {
        let rest = b.drop_last();
        assert(all.drop_last() =~= a + rest);
        every_row_is_noted(a, rest);
        lemma_notes_ahead(all, all.drop_last(), all.len() - 1);
        lemma_notes_ahead(b, rest, b.len() - 1);
        assert(all[all.len() - 1] == b[b.len() - 1]);
        assert(task_notes(all, all.len() as int) =~= task_notes(a, a.len() as int) + task_notes(
            b,
            b.len() as int,
        ));
    }
}

proof fn lemma_notes_ahead(a: Seq<RowView>, b: Seq<RowView>, n: int)
    requires
        n <= a.len(),
        n <= b.len(),
        forall|i: int| 0 <= i < n ==> a[i] == b[i],
    ensures
        task_notes(a, n) == task_notes(b, n),
    decreases n,
{
    if n > 0 {
        lemma_notes_ahead(a, b, n - 1);
    }
}

/// A row that is no summary makes a note of its content for every task that one of its tags
/// names, and a summary makes none.
pub proof fn a_row_is_noted_for_its_tasks(row: RowView, k: int, task: Seq<char>)
    ensures
        row.tags.contains("agent-summary"@) ==> task_notes(seq![row], 1).len() == 0,
        !row.tags.contains("agent-summary"@) && 0 <= k < row.tags.len() && row.tags[k]
            == "subagent-task:"@ + task ==> task_notes(seq![row], 1).contains(
            NoteView { task, content: row.content },
        ),
        forall|i: int|
            0 <= i < task_notes(seq![row], 1).len() ==> (#[trigger] task_notes(seq![row], 1)[i]).content
                == row.content && row.tags.contains(
                "subagent-task:"@ + task_notes(seq![row], 1)[i].task,
            ),
        task_notes(seq![row], 1).len() <= row.tags.len(),
{
    reveal_with_fuel(task_notes, 2);
    let notes = task_notes(seq![row], 1);
    if !row.tags.contains("agent-summary"@) {
        let own = row_notes(row, row.tags.len() as int);
        assert(notes =~= own);
        lemma_notes_of_tags(row, row.tags.len() as int);
        if 0 <= k < row.tags.len() && row.tags[k] == "subagent-task:"@ + task {
            lemma_tag_is_noted(row, row.tags.len() as int, k, task);
        }
    }
}

proof fn lemma_notes_of_tags(row: RowView, n: int)
    requires
        0 <= n <= row.tags.len(),
    ensures
        row_notes(row, n).len() <= n,
        forall|i: int|
            0 <= i < row_notes(row, n).len() ==> (#[trigger] row_notes(row, n)[i]).content
                == row.content && row.tags.contains(TASK_TAG_PREFIX@ + row_notes(row, n)[i].task),
    decreases n,
{
    if n > 0 {
        lemma_notes_of_tags(row, n - 1);
        let before = row_notes(row, n - 1);
        let tag = row.tags[n - 1];
        assert forall|i: int| 0 <= i < row_notes(row, n).len() implies (#[trigger] row_notes(
            row,
            n,
        )[i]).content == row.content && row.tags.contains(
            TASK_TAG_PREFIX@ + row_notes(row, n)[i].task,
        ) by {
            if i < before.len() {
                assert(row_notes(row, n)[i] == before[i]);
            } else {
                let prefix = TASK_TAG_PREFIX@;
                assert(tag.subrange(0, prefix.len() as int) =~= prefix);
                assert(tag =~= prefix + tag.skip(prefix.len() as int));
            }
        }
    }
}

proof fn lemma_tag_is_noted(row: RowView, n: int, k: int, task: Seq<char>)
    requires
        0 <= k < n <= row.tags.len(),
        row.tags[k] == TASK_TAG_PREFIX@ + task,
    ensures
        row_notes(row, n).contains(NoteView { task, content: row.content }),
    decreases n,
{
    let note = NoteView { task, content: row.content };
    let now = row_notes(row, n);
    if k == n - 1 {
        let prefix = TASK_TAG_PREFIX@;
        let tag = row.tags[k];
        assert(tag.subrange(0, prefix.len() as int) =~= prefix);
        assert(tag.skip(prefix.len() as int) =~= task);
        assert(now.last() == note);
    } else {
        lemma_tag_is_noted(row, n - 1, k, task);
        let before = row_notes(row, n - 1);
        let i = choose|i: int| 0 <= i < before.len() && before[i] == note;
        assert(now[i] == note);
    }
}

proof fn lemma_summary_at(
    notes: Seq<NoteView>,
    done: Set<Seq<char>>,
    n: int,
    task: Seq<char>,
    i: int,
)
    requires
        0 <= n <= notes.len(),
        sums_up(summaries(notes, done, n), task, i),
    ensures
        summaries(notes, done, n)[i] == summary(notes, task),
    decreases n,
{
    let before = summaries(notes, done, n - 1);
    if i < before.len() {
        assert(sums_up(before, task, i));
        lemma_summary_at(notes, done, n - 1, task, i);
    } else {
        lemma_same_task(task, notes[n - 1].task);
    }
}

/// All that the rows say of a task, in their order.
pub open spec fn told_of(rows: Seq<RowView>, task: Seq<char>) -> Seq<Seq<char>> {
    said_of(task_notes(rows, rows.len() as int), task, task_notes(rows, rows.len() as int).len() as int)
}

/// The summary of a task tells every row of it: what each row that is no summary and has the
/// task's tag says is among what is summed up, and where all of it fits into a summary it
/// stands there in full, a blank line between one row and the next.
pub proof fn summaries_tell_every_row(
    rows: Seq<RowView>,
    task: Seq<char>,
    r: int,
    k: int,
    s: int,
)
    requires
        0 <= r < rows.len(),
        !rows[r].tags.contains("agent-summary"@),
        0 <= k < rows[r].tags.len(),
        rows[r].tags[k] == "subagent-task:"@ + task,
        sums_up(wanted_summaries(rows), task, s),
    ensures
        told_of(rows, task).contains(rows[r].content),
        text::utf8_len(text::joined(told_of(rows, task), "\n\n"@)) <= 4096 ==> {
            &&& wanted_summaries(rows)[s].content == text::joined(told_of(rows, task), "\n\n"@)
            &&& scan::occurs(wanted_summaries(rows)[s].content, rows[r].content)
        },
        text::utf8_len(text::joined(told_of(rows, task), "\n\n"@)) > 4096 ==> {
            &&& wanted_summaries(rows)[s].content.len() > 0
            &&& wanted_summaries(rows)[s].content.last() == '…'
            &&& wanted_summaries(rows)[s].content.drop_last().is_prefix_of(
                text::joined(told_of(rows, task), "\n\n"@),
            )
            &&& text::utf8_len(wanted_summaries(rows)[s].content.drop_last()) <= 4096
        },
{
    let notes = task_notes(rows, rows.len() as int);
    let row = rows[r];
    let ahead = rows.take(r);
    let behind = rows.skip(r + 1);
    a_row_is_noted_for_its_tasks(row, k, task);
    let own = task_notes(seq![row], 1);
    let note = NoteView { task, content: row.content };
    let m = choose|m: int| 0 <= m < own.len() && own[m] == note;
    every_row_is_noted(ahead, seq![row]);
    every_row_is_noted(ahead + seq![row], behind);
    assert(rows =~= ahead + seq![row] + behind);
    let at = task_notes(ahead, ahead.len() as int).len() + m;
    assert(notes[at] == note);
    let one = notes.take(at);
    let rest = notes.skip(at + 1);
    every_note_on_a_task_is_told(one, seq![note], task, note);
    every_note_on_a_task_is_told(one + seq![note], rest, task, note);
    assert(notes =~= one + seq![note] + rest);
    let told = told_of(rows, task);
    let i = said_of(one, task, one.len() as int).len() as int;
    assert(told[i] == row.content);
    lemma_summary_at(notes, summed_up(rows), notes.len() as int, task, s);
    let body = text::joined(told, "\n\n"@);
    text::joined_holds_every_item(told, "\n\n"@, i);
    let (pre, post) = choose|pre: Seq<char>, post: Seq<char>|
        body == #[trigger] (pre + told[i] + post);
    scan::lemma_part_occurs(pre, told[i], post);
    text::lemma_clip_fits(body, 4096);
    let cut_off = text::clipped(body, 4096);
    assert(cut_off.push('…').drop_last() =~= cut_off);
}

/// The id of a row is among those to be deleted if the row is a duplicate, and only then.
pub proof fn duplicates_are_listed(rows: Seq<RowView>, n: int, id: i64)
    requires
        0 <= n <= rows.len(),
    ensures
        duplicates(rows, n).contains(id) <==> exists|i: int|
            0 <= i < n && is_duplicate(rows, i) && (#[trigger] rows[i]).id == id,
    decreases n,
{
    if n > 0 {
        duplicates_are_listed(rows, n - 1, id);
        let before = duplicates(rows, n - 1);
        let now = duplicates(rows, n);
        if is_duplicate(rows, n - 1) {
            assert(now.last() == rows[n - 1].id);
            if before.contains(id) {
                let k = choose|k: int| 0 <= k < before.len() && before[k] == id;
                assert(now[k] == id);
            }
            if now.contains(id) {
                let k = choose|k: int| 0 <= k < now.len() && now[k] == id;
                if k < before.len() {
                    assert(before[k] == id);
                } else {
                    assert(rows[n - 1].id == id);
                }
            }
        }
    }
}

/// Once the duplicates are deleted one row is left of every content: of two rows that say the
/// same one is deleted, and it is the one that was updated earlier.
pub proof fn one_row_of_each_content_is_left(rows: Seq<RowView>, i: int, j: int)
    requires
        forall|a: int, b: int|
            0 <= a < b < rows.len() ==> (#[trigger] rows[a]).id != (#[trigger] rows[b]).id,
        0 <= i < rows.len(),
        0 <= j < rows.len(),
        i != j,
        rows[i].content == rows[j].content,
    ensures
        duplicates(rows, rows.len() as int).contains(rows[i].id) || duplicates(
            rows,
            rows.len() as int,
        ).contains(rows[j].id),
        text::lex_less(rows[i].updated_at, rows[j].updated_at) ==> duplicates(
            rows,
            rows.len() as int,
        ).contains(rows[i].id),
        exists|k: int|
            0 <= k < rows.len() && (#[trigger] rows[k]).content == rows[i].content && !duplicates(
                rows,
                rows.len() as int,
            ).contains(rows[k].id),
{
    let n = rows.len() as int;
    let k = keeper(rows, i);
    newest_copy_is_kept(rows, i);
    newest_copy_is_kept(rows, j);
    lemma_some_best(rows, i, n);
    let b = choose|b: int| best_so_far(rows, i, n, b);
    assert(keeps(rows, i, b));
    assert(keeps(rows, i, k));
    assert(keeps(rows, j, k));
    one_row_is_kept(rows, j, k, keeper(rows, j));
    lemma_unlisted_rows(rows, i);
    lemma_unlisted_rows(rows, j);
    lemma_unlisted_rows(rows, k);
    duplicates_are_listed(rows, n, rows[i].id);
    duplicates_are_listed(rows, n, rows[j].id);
    duplicates_are_listed(rows, n, rows[k].id);
    assert(k == keeper(rows, k)) by {
        assert(keeps(rows, k, k));
        one_row_is_kept(rows, k, k, keeper(rows, k));
    }
    assert forall|m: int| 0 <= m < n && (#[trigger] rows[m]).id == rows[k].id implies m == k by {
        if m < k {
            assert(rows[m].id != rows[k].id);
        }
        if k < m {
            assert(rows[k].id != rows[m].id);
        }
    }
    if i != k {
        assert(rows[i].id != rows[k].id);
        assert(is_duplicate(rows, i));
    }
    if j != k {
        assert(rows[j].id != rows[k].id);
        assert(is_duplicate(rows, j));
    }
}

proof fn lemma_unlisted_rows(rows: Seq<RowView>, i: int)
    requires
        forall|a: int, b: int|
            0 <= a < b < rows.len() ==> (#[trigger] rows[a]).id != (#[trigger] rows[b]).id,
        0 <= i < rows.len(),
    ensures
        is_duplicate(rows, i) <==> rows[i].id != rows[keeper(rows, i)].id,
{
}

/// Every job that is due is named, and no other, in the order of registration.
pub proof fn every_due_job_runs(timings: Seq<Timing>, now: u128, n: int, i: int)
    requires
        0 <= i < n <= timings.len(),
    ensures
        due_jobs(timings, now, n).contains(i) <==> (match timings[i].last_run {
            None => true,
            Some(last) => if last <= now {
                now - last >= timings[i].interval
            } else {
                timings[i].interval == 0
            },
        }),
        forall|a: int, b: int|
            0 <= a < b < due_jobs(timings, now, n).len() ==> due_jobs(timings, now, n)[a]
                < due_jobs(timings, now, n)[b],
{
    lemma_due_jobs(timings, now, n);
    let list = due_jobs(timings, now, n);
    if due(timings[i], now) {
        lemma_due_is_named(timings, now, n, i);
    }
    if list.contains(i) {
        let k = choose|k: int| 0 <= k < list.len() && list[k] == i;
        assert(due(timings[list[k]], now));
    }
}

proof fn lemma_due_is_named(timings: Seq<Timing>, now: u128, n: int, i: int)
    requires
        0 <= i < n <= timings.len(),
        due(timings[i], now),
    ensures
        due_jobs(timings, now, n).contains(i),
    decreases n,
{
    let list = due_jobs(timings, now, n);
    if i == n - 1 {
        assert(list.last() == i);
    } else {
        lemma_due_is_named(timings, now, n - 1, i);
        let before = due_jobs(timings, now, n - 1);
        let k = choose|k: int| 0 <= k < before.len() && before[k] == i;
        assert(list[k] == i);
    }
}

proof fn lemma_due_jobs(timings: Seq<Timing>, now: u128, n: int)
    requires
        0 <= n <= timings.len(),
    ensures
        forall|k: int|
            0 <= k < due_jobs(timings, now, n).len() ==> 0 <= #[trigger] due_jobs(timings, now, n)[k]
                < n && due(timings[due_jobs(timings, now, n)[k]], now),
        forall|a: int, b: int|
            0 <= a < b < due_jobs(timings, now, n).len() ==> due_jobs(timings, now, n)[a]
                < due_jobs(timings, now, n)[b],
    decreases n,
{
    if n > 0 {
        lemma_due_jobs(timings, now, n - 1);
        let before = due_jobs(timings, now, n - 1);
        let list = due_jobs(timings, now, n);
        assert forall|k: int| 0 <= k < list.len() implies 0 <= #[trigger] list[k] < n && due(
            timings[list[k]],
            now,
        ) by {
            if k < before.len() {
                assert(list[k] == before[k]);
            }
        }
        assert forall|a: int, b: int| 0 <= a < b < list.len() implies list[a] < list[b] by {
            assert(list[a] == before[a]);
            if b < before.len() {
                assert(list[b] == before[b]);
            }
        }
    }
}

} // verus!
