//! What holds of every task manager that is made by `TaskManager::new` and changed by
//! `create_task` and `update_task` alone.

use vstd::prelude::*;

use super::task::{
    after_status, all_demoted, any_cycle, asked, asked_edges, bad_end, blocker_ready, closes_cycle,
    demoted, dependencies, edge, extended, fields_applied, find, first_of, fresh_task, is_first,
    known, lemma_first, lemma_known, lemma_same_ids, lemma_with_name, linked, linked_down,
    linked_up, list_error, names_error, not_called, status_error, task_id, unready, update_result,
    updated_tasks, with_asked, with_name, ManagerView, TaskStatus, TaskUpdateStatus, TaskView,
    UpdateView,
};
use crate::clock::Timestamp;
use crate::graph;
use crate::seqs;
use crate::text;

verus! {

/// The id was given out for a number below `next`.
pub open spec fn issued(id: Seq<char>, next: nat) -> bool {
    exists|n: nat| 1 <= n < next && id == #[trigger] task_id(n)
}

/// No two tasks have the same id.
pub open spec fn distinct_ids(tasks: Seq<TaskView>) -> bool {
    forall|i: int, j: int|
        0 <= i < tasks.len() && 0 <= j < tasks.len() && (#[trigger] tasks[i]).id == (
        #[trigger] tasks[j]).id ==> i == j
}

/// Ids and the names in dependencies were given out earlier.
pub open spec fn all_issued(m: ManagerView) -> bool {
    forall|i: int|
        0 <= i < m.tasks.len() ==> {
            &&& issued((#[trigger] m.tasks[i]).id, m.next_id)
            &&& forall|b: Seq<char>|
                #[trigger] m.tasks[i].blocks.contains(b) ==> issued(b, m.next_id)
            &&& forall|b: Seq<char>|
                #[trigger] m.tasks[i].blocked_by.contains(b) ==> issued(b, m.next_id)
        }
}

/// At most one task is in progress.
pub open spec fn one_in_progress(tasks: Seq<TaskView>) -> bool {
    forall|i: int, j: int|
        0 <= i < tasks.len() && 0 <= j < tasks.len() && (#[trigger] tasks[i]).status
            == TaskStatus::InProgress && (#[trigger] tasks[j]).status == TaskStatus::InProgress
            ==> i == j
}

/// A task records that it blocks another if and only if the other records that it is
/// blocked by it.
pub open spec fn symmetric(tasks: Seq<TaskView>) -> bool {
    forall|i: int, j: int|
        0 <= i < tasks.len() && 0 <= j < tasks.len() ==> ((#[trigger] tasks[i]).blocks.contains(
            tasks[j].id,
        ) <==> (#[trigger] tasks[j]).blocked_by.contains(tasks[i].id))
}

/// What `TaskManager` keeps.
pub open spec fn orderly(m: ManagerView) -> bool {
    &&& m.next_id >= 1
    &&& distinct_ids(m.tasks)
    &&& all_issued(m)
    &&& one_in_progress(m.tasks)
    &&& symmetric(m.tasks)
    &&& graph::acyclic(dependencies(m.tasks))
}

/// Different numbers make different ids.
pub proof fn task_ids_differ(m: nat, n: nat)
    requires
        task_id(m) == task_id(n),
    ensures
        m == n,
{
    let prefix = "task-"@;
    assert(task_id(m).skip(prefix.len() as int) =~= text::decimal(m));
    assert(task_id(n).skip(prefix.len() as int) =~= text::decimal(n));
    text::lemma_decimal_injective(m, n);
}

proof fn lemma_fresh_id(next: nat)
    ensures
        !issued(task_id(next), next),
{
    if issued(task_id(next), next) {
        let n = choose|n: nat| 1 <= n < next && task_id(next) == #[trigger] task_id(n);
        task_ids_differ(next, n);
    }
}

/// An empty manager is in order.
pub proof fn empty_manager_is_orderly()
    ensures
        orderly(ManagerView { tasks: seq![], next_id: 1 }),
{
    let tasks: Seq<TaskView> = seq![];
    assert forall|a: Seq<char>, b: Seq<char>| #[trigger]
        dependencies(tasks)(a, b) implies !graph::reaches(dependencies(tasks), b, a) by {
        assert(!known(tasks, a));
    }
}

proof fn lemma_unique_first(tasks: Seq<TaskView>, i: int)
    requires
        distinct_ids(tasks),
        0 <= i < tasks.len(),
    ensures
        is_first(tasks, tasks[i].id, i),
        known(tasks, tasks[i].id),
        first_of(tasks, tasks[i].id) == i,
        find(tasks, tasks[i].id) == Some(tasks[i]),
{
    assert forall|j: int| 0 <= j < i implies (#[trigger] tasks[j]).id != tasks[i].id by {}
    lemma_first(tasks, tasks[i].id, i);
}

proof fn lemma_edge(tasks: Seq<TaskView>, i: int, b: Seq<char>)
    requires
        distinct_ids(tasks),
        0 <= i < tasks.len(),
    ensures
        edge(tasks, tasks[i].id, b) <==> tasks[i].blocks.contains(b),
{
    lemma_unique_first(tasks, i);
}

/// Creating a task keeps a manager in order.
pub proof fn creation_keeps_order(
    m: ManagerView,
    subject: Seq<char>,
    description: Seq<char>,
    active_form: Option<Seq<char>>,
    created_at: Timestamp,
)
    requires
        orderly(m),
    ensures
        orderly(
            ManagerView {
                tasks: m.tasks.push(
                    fresh_task(m.next_id, subject, description, active_form, created_at),
                ),
                next_id: m.next_id + 1,
            },
        ),
{
    let task = fresh_task(m.next_id, subject, description, active_form, created_at);
    let after = ManagerView { tasks: m.tasks.push(task), next_id: m.next_id + 1 };
    lemma_fresh_id(m.next_id);
    assert forall|id: Seq<char>| issued(id, m.next_id) implies issued(id, after.next_id) by {
        let n = choose|n: nat| 1 <= n < m.next_id && id == #[trigger] task_id(n);
        assert(id == task_id(n));
    }
    assert(issued(task.id, after.next_id)) by {
        assert(task.id == task_id(m.next_id));
    }
    assert forall|i: int| 0 <= i < after.tasks.len() implies {
        &&& issued((#[trigger] after.tasks[i]).id, after.next_id)
        &&& forall|b: Seq<char>|
            #[trigger] after.tasks[i].blocks.contains(b) ==> issued(b, after.next_id)
        &&& forall|b: Seq<char>|
            #[trigger] after.tasks[i].blocked_by.contains(b) ==> issued(b, after.next_id)
    } by {
        if i < m.tasks.len() {
            assert(after.tasks[i] == m.tasks[i]);
        }
    }
    assert(distinct_ids(after.tasks)) by {
        assert forall|i: int| 0 <= i < m.tasks.len() implies (#[trigger] m.tasks[i]).id
            != task.id by {
            assert(issued(m.tasks[i].id, m.next_id));
        }
    }
    assert(symmetric(after.tasks)) by {
        assert forall|i: int, j: int|
            0 <= i < after.tasks.len() && 0 <= j < after.tasks.len() implies ((
        #[trigger] after.tasks[i]).blocks.contains(after.tasks[j].id) <==> (
        #[trigger] after.tasks[j]).blocked_by.contains(after.tasks[i].id)) by {
            if i < m.tasks.len() && j < m.tasks.len() {
                assert(after.tasks[i] == m.tasks[i]);
                assert(after.tasks[j] == m.tasks[j]);
            } else {
                if i < m.tasks.len() {
                    assert(after.tasks[i] == m.tasks[i]);
                    assert(!m.tasks[i].blocks.contains(task.id));
                }
                if j < m.tasks.len() {
                    assert(after.tasks[j] == m.tasks[j]);
                    assert(!m.tasks[j].blocked_by.contains(task.id));
                }
            }
        }
    }
    assert forall|a: Seq<char>, b: Seq<char>| #[trigger]
        dependencies(after.tasks)(a, b) implies dependencies(m.tasks)(a, b) by {
        let i = first_of(after.tasks, a);
        assert(is_first(after.tasks, a, i));
        if i < m.tasks.len() {
            assert(after.tasks[i] == m.tasks[i]);
            lemma_edge(m.tasks, i, b);
        }
    }
    graph::lemma_acyclic_subgraph(dependencies(after.tasks), dependencies(m.tasks));
}

proof fn lemma_extended(list: Seq<Seq<char>>, extra: Seq<Seq<char>>, x: Seq<char>)
    ensures
        extended(list, extra).contains(x) <==> list.contains(x) || extra.contains(x),
    decreases extra.len(),
{
    if extra.len() > 0 {
        let rest = extra.drop_last();
        lemma_extended(list, rest, x);
        lemma_with_name(extended(list, rest), extra.last());
        assert(with_name(extended(list, rest), extra.last()).contains(x) <==> extended(
            list,
            rest,
        ).contains(x) || x == extra.last());
        if rest.contains(x) {
            let i = choose|i: int| 0 <= i < rest.len() && rest[i] == x;
            assert(extra[i] == x);
        }
        if extra.contains(x) && x != extra.last() {
            let i = choose|i: int| 0 <= i < extra.len() && extra[i] == x;
            assert(rest[i] == x);
        }
        if x == extra.last() {
            assert(extra[extra.len() - 1] == x);
        }
    }
}

/// Names that pass are those of other tasks.
proof fn lemma_good_names(
    tasks: Seq<TaskView>,
    id: Seq<char>,
    list: Seq<Seq<char>>,
    to_itself: Seq<char>,
    x: Seq<char>,
)
    requires
        list_error(tasks, id, list, to_itself) is None,
        list.contains(x),
    ensures
        x != id,
        known(tasks, x),
{
    let k = choose|k: int| 0 <= k < list.len() && list[k] == x;
    seqs::lemma_no_first_where(list, bad_end(tasks, id), k);
    assert(!bad_end(tasks, id)(list[k]));
}

/// In an orderly list no task blocks itself.
proof fn lemma_no_self(tasks: Seq<TaskView>, i: int)
    requires
        distinct_ids(tasks),
        symmetric(tasks),
        graph::acyclic(dependencies(tasks)),
        0 <= i < tasks.len(),
    ensures
        !tasks[i].blocks.contains(tasks[i].id),
        !tasks[i].blocked_by.contains(tasks[i].id),
{
    let id = tasks[i].id;
    lemma_edge(tasks, i, id);
    if tasks[i].blocks.contains(id) {
        assert(dependencies(tasks)(id, id));
        graph::lemma_reaches_self(dependencies(tasks), id);
    }
}

/// What each task of an updated list records.
proof fn lemma_updated_entry(
    tasks: Seq<TaskView>,
    at: int,
    update: UpdateView,
    i: int,
    x: Seq<char>,
)
    requires
        distinct_ids(tasks),
        symmetric(tasks),
        graph::acyclic(dependencies(tasks)),
        0 <= at < tasks.len(),
        0 <= i < tasks.len(),
        names_error(tasks, tasks[at].id, update.add_blocks, update.add_blocked_by) is None,
    ensures
        ({
            let id = tasks[at].id;
            let new = linked(tasks.update(at, fields_applied(tasks[at], update)), id);
            &&& new.len() == tasks.len()
            &&& new[i].id == tasks[i].id
            &&& new[i].blocks.contains(x) <==> tasks[i].blocks.contains(x) || asked(
                id,
                update.add_blocks,
                update.add_blocked_by,
                tasks[i].id,
                x,
            )
            &&& new[i].blocked_by.contains(x) <==> tasks[i].blocked_by.contains(x) || asked(
                id,
                update.add_blocks,
                update.add_blocked_by,
                x,
                tasks[i].id,
            )
            &&& i == at ==> new[i].status == fields_applied(tasks[at], update).status
                && new[i].subject == fields_applied(tasks[at], update).subject
                && new[i].description == fields_applied(tasks[at], update).description
                && new[i].active_form == fields_applied(tasks[at], update).active_form
                && new[i].created_at == tasks[at].created_at
            &&& i != at ==> new[i] == (TaskView {
                blocks: new[i].blocks,
                blocked_by: new[i].blocked_by,
                ..tasks[i]
            })
        }),
{
    let id = tasks[at].id;
    let down = update.add_blocks;
    let up = update.add_blocked_by;
    let changed = fields_applied(tasks[at], update);
    let applied = tasks.update(at, changed);
    let new = linked(applied, id);
    assert(distinct_ids(applied)) by {
        assert forall|j: int, k: int|
            0 <= j < applied.len() && 0 <= k < applied.len() && (#[trigger] applied[j]).id == (
            #[trigger] applied[k]).id implies j == k by {
            assert(applied[j].id == tasks[j].id);
            assert(applied[k].id == tasks[k].id);
        }
    }
    lemma_unique_first(applied, at);
    lemma_unique_first(applied, i);
    lemma_unique_first(tasks, i);
    lemma_no_self(tasks, at);
    lemma_extended(tasks[at].blocks, down, id);
    lemma_extended(tasks[at].blocked_by, up, id);
    lemma_extended(tasks[at].blocks, down, x);
    lemma_extended(tasks[at].blocked_by, up, x);
    lemma_extended(tasks[at].blocks, down, tasks[i].id);
    lemma_extended(tasks[at].blocked_by, up, tasks[i].id);
    assert(!down.contains(id)) by {
        if down.contains(id) {
            lemma_good_names(tasks, id, down, "A task cannot block itself"@, id);
        }
    }
    assert(!up.contains(id)) by {
        if up.contains(id) {
            lemma_good_names(tasks, id, up, "A task cannot be blocked by itself"@, id);
        }
    }
    let mid = linked_down(applied, id, changed.blocks);
    assert(new == linked_up(mid, id, changed.blocked_by));
    lemma_same_ids(applied, mid, applied[i].id);
    assert(is_first(mid, mid[i].id, i));
    lemma_with_name(applied[i].blocked_by, id);
    lemma_with_name(applied[i].blocks, id);
    if i != at {
        assert(tasks[i].id != id) by {
            assert(distinct_ids(tasks));
        }
        assert(tasks[at].blocks.contains(tasks[i].id) <==> tasks[i].blocked_by.contains(id));
        assert(tasks[i].blocks.contains(id) <==> tasks[at].blocked_by.contains(tasks[i].id));
    }
}

proof fn lemma_demoted_order(m: ManagerView, id: Seq<char>)
    requires
        orderly(m),
    ensures
        orderly(ManagerView { tasks: all_demoted(m.tasks, id), ..m }),
{
    let after = ManagerView { tasks: all_demoted(m.tasks, id), ..m };
    assert forall|i: int| 0 <= i < m.tasks.len() implies (#[trigger] after.tasks[i]) == demoted(
        m.tasks[i],
        id,
    ) && after.tasks[i].id == m.tasks[i].id && after.tasks[i].blocks == m.tasks[i].blocks
        && after.tasks[i].blocked_by == m.tasks[i].blocked_by by {}
    assert(distinct_ids(after.tasks)) by {
        assert forall|i: int, j: int|
            0 <= i < after.tasks.len() && 0 <= j < after.tasks.len() && (
            #[trigger] after.tasks[i]).id == (#[trigger] after.tasks[j]).id implies i == j by {
            assert(m.tasks[i].id == m.tasks[j].id);
        }
    }
    assert(all_issued(after)) by {
        assert forall|i: int| 0 <= i < after.tasks.len() implies {
            &&& issued((#[trigger] after.tasks[i]).id, after.next_id)
            &&& forall|b: Seq<char>|
                #[trigger] after.tasks[i].blocks.contains(b) ==> issued(b, after.next_id)
            &&& forall|b: Seq<char>|
                #[trigger] after.tasks[i].blocked_by.contains(b) ==> issued(b, after.next_id)
        } by {
            assert(issued(m.tasks[i].id, m.next_id));
        }
    }
    assert(one_in_progress(after.tasks)) by {
        assert forall|i: int, j: int|
            0 <= i < after.tasks.len() && 0 <= j < after.tasks.len() && (
            #[trigger] after.tasks[i]).status == TaskStatus::InProgress && (
            #[trigger] after.tasks[j]).status == TaskStatus::InProgress implies i == j by {
            assert(m.tasks[i].status == TaskStatus::InProgress);
            assert(m.tasks[j].status == TaskStatus::InProgress);
        }
    }
    assert(symmetric(after.tasks)) by {
        assert forall|i: int, j: int|
            0 <= i < after.tasks.len() && 0 <= j < after.tasks.len() implies ((
        #[trigger] after.tasks[i]).blocks.contains(after.tasks[j].id) <==> (
        #[trigger] after.tasks[j]).blocked_by.contains(after.tasks[i].id)) by {
            assert(m.tasks[i].blocks.contains(m.tasks[j].id) <==> m.tasks[j].blocked_by.contains(
                m.tasks[i].id,
            ));
        }
    }
    assert forall|a: Seq<char>, b: Seq<char>| #[trigger]
        dependencies(after.tasks)(a, b) implies dependencies(m.tasks)(a, b) by {
        let i = first_of(after.tasks, a);
        assert(is_first(after.tasks, a, i));
        lemma_edge(m.tasks, i, b);
        assert(m.tasks[i].id == a);
    }
    graph::lemma_acyclic_subgraph(dependencies(after.tasks), dependencies(m.tasks));
}

/// A filtered list holds, in order, items of the list.
proof fn lemma_filter_places(tasks: Seq<TaskView>, keep: spec_fn(TaskView) -> bool) -> (places: Seq<
    int,
>)
    ensures
        places.len() == tasks.filter(keep).len(),
        forall|i: int|
            0 <= i < places.len() ==> 0 <= #[trigger] places[i] < tasks.len()
                && tasks.filter(keep)[i] == tasks[places[i]] && keep(tasks[places[i]]),
        forall|i: int, j: int|
            0 <= i < j < places.len() ==> #[trigger] places[i] < #[trigger] places[j],
    decreases tasks.len(),
{
    reveal(Seq::filter);
    if tasks.len() == 0 {
        seq![]
    } else {
        let rest = lemma_filter_places(tasks.drop_last(), keep);
        if keep(tasks.last()) {
            rest.push(tasks.len() - 1)
        } else {
            rest
        }
    }
}

proof fn lemma_removed_order(m: ManagerView, id: Seq<char>)
    requires
        orderly(m),
    ensures
        orderly(ManagerView { tasks: m.tasks.filter(not_called(id)), ..m }),
{
    let after = ManagerView { tasks: m.tasks.filter(not_called(id)), ..m };
    let places = lemma_filter_places(m.tasks, not_called(id));
    assert forall|i: int| 0 <= i < after.tasks.len() implies (#[trigger] after.tasks[i])
        == m.tasks[places[i]] by {}
    assert(distinct_ids(after.tasks)) by {
        assert forall|i: int, j: int|
            0 <= i < after.tasks.len() && 0 <= j < after.tasks.len() && (
            #[trigger] after.tasks[i]).id == (#[trigger] after.tasks[j]).id implies i == j by {
            assert(m.tasks[places[i]].id == m.tasks[places[j]].id);
            assert(places[i] == places[j]);
            if i < j {
                assert(places[i] < places[j]);
            }
            if j < i {
                assert(places[j] < places[i]);
            }
        }
    }
    assert(one_in_progress(after.tasks)) by {
        assert forall|i: int, j: int|
            0 <= i < after.tasks.len() && 0 <= j < after.tasks.len() && (
            #[trigger] after.tasks[i]).status == TaskStatus::InProgress && (
            #[trigger] after.tasks[j]).status == TaskStatus::InProgress implies i == j by {
            assert(m.tasks[places[i]].status == m.tasks[places[j]].status);
            assert(places[i] == places[j]);
            if i < j {
                assert(places[i] < places[j]);
            }
            if j < i {
                assert(places[j] < places[i]);
            }
        }
    }
    assert(symmetric(after.tasks)) by {
        assert forall|i: int, j: int|
            0 <= i < after.tasks.len() && 0 <= j < after.tasks.len() implies ((
        #[trigger] after.tasks[i]).blocks.contains(after.tasks[j].id) <==> (
        #[trigger] after.tasks[j]).blocked_by.contains(after.tasks[i].id)) by {
            let p = places[i];
            let q = places[j];
            assert(m.tasks[p].blocks.contains(m.tasks[q].id) <==> m.tasks[q].blocked_by.contains(
                m.tasks[p].id,
            ));
        }
    }
    assert(all_issued(after)) by {
        assert forall|i: int| 0 <= i < after.tasks.len() implies {
            &&& issued((#[trigger] after.tasks[i]).id, after.next_id)
            &&& forall|b: Seq<char>|
                #[trigger] after.tasks[i].blocks.contains(b) ==> issued(b, after.next_id)
            &&& forall|b: Seq<char>|
                #[trigger] after.tasks[i].blocked_by.contains(b) ==> issued(b, after.next_id)
        } by {
            assert(issued(m.tasks[places[i]].id, m.next_id));
        }
    }
    assert forall|a: Seq<char>, b: Seq<char>| #[trigger]
        dependencies(after.tasks)(a, b) implies dependencies(m.tasks)(a, b) by {
        let i = first_of(after.tasks, a);
        assert(is_first(after.tasks, a, i));
        lemma_edge(m.tasks, places[i], b);
    }
    graph::lemma_acyclic_subgraph(dependencies(after.tasks), dependencies(m.tasks));
}

proof fn lemma_updated_order(m: ManagerView, id: Seq<char>, update: UpdateView)
    requires
        orderly(m),
        known(m.tasks, id),
        update.status != Some(TaskUpdateStatus::Deleted),
        names_error(
            after_status(m.tasks, id, update.status),
            id,
            update.add_blocks,
            update.add_blocked_by,
        ) is None,
        !any_cycle(
            after_status(m.tasks, id, update.status),
            id,
            update.add_blocks,
            update.add_blocked_by,
        ),
    ensures
        orderly(ManagerView { tasks: updated_tasks(m.tasks, id, update), ..m }),
{
    let tasks = after_status(m.tasks, id, update.status);
    let ready = ManagerView { tasks, ..m };
    let at = first_of(m.tasks, id);
    assert(is_first(m.tasks, id, at));
    lemma_demoted_order(m, id);
    assert(orderly(ready));
    assert(tasks[at].id == id);
    let new = updated_tasks(m.tasks, id, update);
    let after = ManagerView { tasks: new, ..m };
    let down = update.add_blocks;
    let up = update.add_blocked_by;
    assert forall|i: int| 0 <= i < tasks.len() implies (#[trigger] new[i]).id == tasks[i].id by {
        lemma_updated_entry(tasks, at, update, i, id);
    }
    assert(new.len() == tasks.len()) by {
        lemma_updated_entry(tasks, at, update, at, id);
    }
    assert(distinct_ids(new)) by {
        assert forall|i: int, j: int|
            0 <= i < new.len() && 0 <= j < new.len() && (#[trigger] new[i]).id == (
            #[trigger] new[j]).id implies i == j by {
            assert(tasks[i].id == tasks[j].id);
        }
    }
    assert forall|x: Seq<char>| (down.contains(x) || up.contains(x)) implies issued(
        x,
        m.next_id,
    ) by {
        if down.contains(x) {
            lemma_good_names(tasks, id, down, "A task cannot block itself"@, x);
        } else {
            lemma_good_names(tasks, id, up, "A task cannot be blocked by itself"@, x);
        }
        let k = first_of(tasks, x);
        assert(is_first(tasks, x, k));
        assert(issued(tasks[k].id, m.next_id));
    }
    assert(issued(id, m.next_id)) by {
        assert(issued(tasks[at].id, m.next_id));
    }
    assert(all_issued(after)) by {
        assert forall|i: int| 0 <= i < after.tasks.len() implies {
            &&& issued((#[trigger] after.tasks[i]).id, after.next_id)
            &&& forall|b: Seq<char>|
                #[trigger] after.tasks[i].blocks.contains(b) ==> issued(b, after.next_id)
            &&& forall|b: Seq<char>|
                #[trigger] after.tasks[i].blocked_by.contains(b) ==> issued(b, after.next_id)
        } by {
            assert(issued(tasks[i].id, m.next_id));
            assert forall|b: Seq<char>| #[trigger] after.tasks[i].blocks.contains(b) implies issued(
                b,
                after.next_id,
            ) by {
                lemma_updated_entry(tasks, at, update, i, b);
            }
            assert forall|b: Seq<char>| #[trigger]
                after.tasks[i].blocked_by.contains(b) implies issued(b, after.next_id) by {
                lemma_updated_entry(tasks, at, update, i, b);
            }
        }
    }
    assert(one_in_progress(new)) by {
        assert forall|i: int, j: int|
            0 <= i < new.len() && 0 <= j < new.len() && (#[trigger] new[i]).status
                == TaskStatus::InProgress && (#[trigger] new[j]).status
                == TaskStatus::InProgress implies i == j by {
            lemma_updated_entry(tasks, at, update, i, id);
            lemma_updated_entry(tasks, at, update, j, id);
            if update.status == Some(TaskUpdateStatus::InProgress) {
                if i != at {
                    assert(tasks[i] == demoted(m.tasks[i], id));
                    assert(m.tasks[i].id == id);
                }
                if j != at {
                    assert(tasks[j] == demoted(m.tasks[j], id));
                    assert(m.tasks[j].id == id);
                }
            } else {
                assert(tasks[i].status == TaskStatus::InProgress);
                assert(tasks[j].status == TaskStatus::InProgress);
            }
        }
    }
    assert(symmetric(new)) by {
        assert forall|i: int, j: int| 0 <= i < new.len() && 0 <= j < new.len() implies ((
        #[trigger] new[i]).blocks.contains(new[j].id) <==> (
        #[trigger] new[j]).blocked_by.contains(new[i].id)) by {
            lemma_updated_entry(tasks, at, update, i, tasks[j].id);
            lemma_updated_entry(tasks, at, update, j, tasks[i].id);
            assert(tasks[i].blocks.contains(tasks[j].id) <==> tasks[j].blocked_by.contains(
                tasks[i].id,
            ));
        }
    }
    let both = with_asked(tasks, id, down, up);
    assert forall|a: Seq<char>, b: Seq<char>| dependencies(new)(a, b) == #[trigger] both(a, b) by {
        if known(new, a) {
            let i = first_of(new, a);
            assert(is_first(new, a, i));
            lemma_edge(new, i, b);
            lemma_edge(tasks, i, b);
            lemma_updated_entry(tasks, at, update, i, b);
        } else {
            if known(tasks, a) {
                let i = first_of(tasks, a);
                assert(is_first(tasks, a, i));
                lemma_known(new, a, i);
            }
            if a == id {
                lemma_known(new, a, at);
            }
            if up.contains(a) {
                lemma_good_names(tasks, id, up, "A task cannot be blocked by itself"@, a);
            }
        }
    }
    assert(dependencies(new) =~= both);
    let extra = asked_edges(id, down, up);
    assert forall|a: Seq<char>, b: Seq<char>| #[trigger] extra(a, b) implies !graph::reaches(
        both,
        b,
        a,
    ) by {
        assert(!closes_cycle(tasks, id, down, up, a, b));
    }
    graph::lemma_acyclic_extension(dependencies(tasks), extra, both);
}

/// An update, whatever it answers, keeps a manager in order: ids stay unique, at most one
/// task is in progress, dependencies are recorded at both ends and close no cycle.
pub proof fn update_keeps_order(
    before: ManagerView,
    id: Seq<char>,
    update: UpdateView,
    after: ManagerView,
    answer: Result<Option<TaskView>, Seq<char>>,
)
    requires
        orderly(before),
        update_result(before, id, update, after, answer),
    ensures
        orderly(after),
{
    if known(before.tasks, id) {
        if update.status == Some(TaskUpdateStatus::Deleted) {
            lemma_removed_order(before, id);
        } else if status_error(before.tasks, id, update.status) is None {
            let ready = after_status(before.tasks, id, update.status);
            lemma_demoted_order(before, id);
            if names_error(ready, id, update.add_blocks, update.add_blocked_by) is None
                && !any_cycle(ready, id, update.add_blocks, update.add_blocked_by) {
                lemma_updated_order(before, id, update);
            }
        }
    }
}

/// No task lists another twice, neither among those it blocks nor among those that block it.
pub open spec fn listed_once(tasks: Seq<TaskView>) -> bool {
    forall|i: int|
        0 <= i < tasks.len() ==> (#[trigger] tasks[i]).blocks.no_duplicates()
            && tasks[i].blocked_by.no_duplicates()
}

proof fn lemma_with_name_once(list: Seq<Seq<char>>, name: Seq<char>)
    requires
        list.no_duplicates(),
    ensures
        with_name(list, name).no_duplicates(),
{
    assert forall|i: int| 0 <= i < list.len() && !list.contains(name) implies list[i] != name by {
        assert(list.contains(list[i]));
    }
}

proof fn lemma_extended_once(list: Seq<Seq<char>>, extra: Seq<Seq<char>>)
    requires
        list.no_duplicates(),
    ensures
        extended(list, extra).no_duplicates(),
    decreases extra.len(),
{
    if extra.len() > 0 {
        lemma_extended_once(list, extra.drop_last());
        lemma_with_name_once(extended(list, extra.drop_last()), extra.last());
    }
}

proof fn lemma_linked_once(tasks: Seq<TaskView>, id: Seq<char>)
    requires
        listed_once(tasks),
    ensures
        listed_once(linked(tasks, id)),
{
    if let Some(task) = find(tasks, id) {
        let down = linked_down(tasks, id, task.blocks);
        assert forall|i: int| 0 <= i < down.len() implies (#[trigger] down[i]).blocks.no_duplicates()
            && down[i].blocked_by.no_duplicates() by {
            assert(tasks[i].blocks.no_duplicates());
            lemma_with_name_once(tasks[i].blocked_by, id);
        }
        let up = linked_up(down, id, task.blocked_by);
        assert forall|i: int| 0 <= i < up.len() implies (#[trigger] up[i]).blocks.no_duplicates()
            && up[i].blocked_by.no_duplicates() by {
            assert(down[i].blocked_by.no_duplicates());
            lemma_with_name_once(down[i].blocks, id);
        }
    }
}

/// An update, whatever it answers, lists no dependency twice where none was.
pub proof fn dependencies_are_listed_once(
    before: ManagerView,
    id: Seq<char>,
    update: UpdateView,
    after: ManagerView,
    answer: Result<Option<TaskView>, Seq<char>>,
)
    requires
        listed_once(before.tasks),
        update_result(before, id, update, after, answer),
    ensures
        listed_once(after.tasks),
{
    let ready = after_status(before.tasks, id, update.status);
    assert(listed_once(ready)) by {
        assert forall|i: int| 0 <= i < ready.len() implies (
        #[trigger] ready[i]).blocks.no_duplicates() && ready[i].blocked_by.no_duplicates() by {
            assert(before.tasks[i].blocks.no_duplicates());
        }
    }
    if known(before.tasks, id) {
        if update.status == Some(TaskUpdateStatus::Deleted) {
            let places = lemma_filter_places(before.tasks, not_called(id));
            assert forall|i: int| 0 <= i < after.tasks.len() implies (
            #[trigger] after.tasks[i]).blocks.no_duplicates()
                && after.tasks[i].blocked_by.no_duplicates() by {
                assert(after.tasks[i] == before.tasks[places[i]]);
            }
        } else if status_error(before.tasks, id, update.status) is None && names_error(
            ready,
            id,
            update.add_blocks,
            update.add_blocked_by,
        ) is None && !any_cycle(ready, id, update.add_blocks, update.add_blocked_by) {
            let at = first_of(before.tasks, id);
            assert(is_first(before.tasks, id, at));
            assert(ready[at].blocks.no_duplicates());
            lemma_extended_once(ready[at].blocks, update.add_blocks);
            lemma_extended_once(ready[at].blocked_by, update.add_blocked_by);
            let applied = ready.update(at, fields_applied(ready[at], update));
            assert forall|i: int| 0 <= i < applied.len() implies (
            #[trigger] applied[i]).blocks.no_duplicates() && applied[i].blocked_by.no_duplicates() by {
                if i != at {
                    assert(ready[i].blocks.no_duplicates());
                }
            }
            lemma_linked_once(applied, id);
        }
    }
}

/// The dependencies of every task name tasks that are there.
pub open spec fn names_known(tasks: Seq<TaskView>) -> bool {
    forall|i: int, b: Seq<char>|
        #![trigger tasks[i].blocks.contains(b)]
        #![trigger tasks[i].blocked_by.contains(b)]
        0 <= i < tasks.len() && (tasks[i].blocks.contains(b) || tasks[i].blocked_by.contains(b))
            ==> known(tasks, b)
}

/// Dependencies name tasks that are there, as long as no task is deleted: what an update
/// records is the name of a known task.
pub proof fn dependencies_name_known_tasks(
    before: ManagerView,
    id: Seq<char>,
    update: UpdateView,
    after: ManagerView,
    answer: Result<Option<TaskView>, Seq<char>>,
)
    requires
        orderly(before),
        names_known(before.tasks),
        update.status != Some(TaskUpdateStatus::Deleted),
        update_result(before, id, update, after, answer),
    ensures
        names_known(after.tasks),
{
    let ready = after_status(before.tasks, id, update.status);
    assert forall|i: int| 0 <= i < ready.len() implies (#[trigger] ready[i]).id
        == before.tasks[i].id by {}
    assert(names_known(ready)) by {
        assert forall|i: int, b: Seq<char>|
            #![trigger ready[i].blocks.contains(b)]
            #![trigger ready[i].blocked_by.contains(b)]
            0 <= i < ready.len() && (ready[i].blocks.contains(b) || ready[i].blocked_by.contains(
                b,
            )) implies known(ready, b) by {
            assert(before.tasks[i].blocks.contains(b) || before.tasks[i].blocked_by.contains(b));
            lemma_same_ids(before.tasks, ready, b);
        }
    }
    if known(before.tasks, id) && status_error(before.tasks, id, update.status) is None
        && names_error(ready, id, update.add_blocks, update.add_blocked_by) is None && !any_cycle(
        ready,
        id,
        update.add_blocks,
        update.add_blocked_by,
    ) {
        let at = first_of(before.tasks, id);
        assert(is_first(before.tasks, id, at));
        lemma_demoted_order(before, id);
        assert(ready[at].id == id);
        let new = after.tasks;
        lemma_updated_entry(ready, at, update, at, id);
        assert forall|i: int| 0 <= i < ready.len() implies (#[trigger] ready[i]).id == new[i].id by {
            lemma_updated_entry(ready, at, update, i, id);
        }
        lemma_known(ready, id, at);
        assert forall|i: int, b: Seq<char>|
            #![trigger new[i].blocks.contains(b)]
            #![trigger new[i].blocked_by.contains(b)]
            0 <= i < new.len() && (new[i].blocks.contains(b) || new[i].blocked_by.contains(b))
                implies known(new, b) by {
            lemma_updated_entry(ready, at, update, i, b);
            lemma_same_ids(ready, new, b);
            if !(ready[i].blocks.contains(b) || ready[i].blocked_by.contains(b)) {
                if update.add_blocks.contains(b) {
                    lemma_good_names(
                        ready,
                        id,
                        update.add_blocks,
                        "A task cannot block itself"@,
                        b,
                    );
                } else if update.add_blocked_by.contains(b) {
                    lemma_good_names(
                        ready,
                        id,
                        update.add_blocked_by,
                        "A task cannot be blocked by itself"@,
                        b,
                    );
                } else {
                    assert(b == id);
                }
            }
        }
    }
}

/// A new task lists nothing, so creation keeps what dependencies keep.
pub proof fn creation_records_no_dependency(
    m: ManagerView,
    subject: Seq<char>,
    description: Seq<char>,
    active_form: Option<Seq<char>>,
    created_at: Timestamp,
)
    ensures
        ({
            let task = fresh_task(m.next_id, subject, description, active_form, created_at);
            &&& listed_once(m.tasks) ==> listed_once(m.tasks.push(task))
            &&& names_known(m.tasks) ==> names_known(m.tasks.push(task))
        }),
{
    let task = fresh_task(m.next_id, subject, description, active_form, created_at);
    let after = m.tasks.push(task);
    if names_known(m.tasks) {
        assert forall|i: int, b: Seq<char>|
            #![trigger after[i].blocks.contains(b)]
            #![trigger after[i].blocked_by.contains(b)]
            0 <= i < after.len() && (after[i].blocks.contains(b) || after[i].blocked_by.contains(
                b,
            )) implies known(after, b) by {
            assert(i < m.tasks.len());
            assert(m.tasks[i].blocks.contains(b) || m.tasks[i].blocked_by.contains(b));
            let k = first_of(m.tasks, b);
            assert(is_first(m.tasks, b, k));
            lemma_known(after, b, k);
        }
    }
}

/// A task that is started was free to start: each task that blocked it was completed. It
/// is then the one task in progress.
pub proof fn started_task_was_free(
    before: ManagerView,
    id: Seq<char>,
    update: UpdateView,
    after: ManagerView,
    answer: Result<Option<TaskView>, Seq<char>>,
    blocker: Seq<char>,
)
    requires
        orderly(before),
        update_result(before, id, update, after, answer),
        answer is Ok,
        update.status == Some(TaskUpdateStatus::InProgress),
    ensures
        known(before.tasks, id),
        find(before.tasks, id)->0.blocked_by.contains(blocker) ==> blocker_ready(
            before.tasks,
            blocker,
        ),
        answer->Ok_0 is Some,
        (answer->Ok_0->0).status == TaskStatus::InProgress,
        find(after.tasks, id) == answer->Ok_0,
        forall|i: int|
            0 <= i < after.tasks.len() && (#[trigger] after.tasks[i]).status
                == TaskStatus::InProgress ==> after.tasks[i].id == id,
{
    let task = find(before.tasks, id)->0;
    if task.blocked_by.contains(blocker) {
        let k = choose|k: int|
            0 <= k < task.blocked_by.len() && task.blocked_by[k] == blocker;
        seqs::lemma_no_first_where(task.blocked_by, unready(before.tasks), k);
        assert(!unready(before.tasks)(task.blocked_by[k]));
    }
    update_keeps_order(before, id, update, after, answer);
    let tasks = after_status(before.tasks, id, update.status);
    let at = first_of(before.tasks, id);
    assert(is_first(before.tasks, id, at));
    lemma_demoted_order(before, id);
    assert(tasks[at].id == id);
    lemma_updated_entry(tasks, at, update, at, id);
    lemma_unique_first(after.tasks, at);
}

/// Deleting a task removes it and leaves every other task as it was.
pub proof fn deletion_removes_one_task(
    before: ManagerView,
    id: Seq<char>,
    update: UpdateView,
    after: ManagerView,
    answer: Result<Option<TaskView>, Seq<char>>,
    other: Seq<char>,
)
    requires
        orderly(before),
        update_result(before, id, update, after, answer),
        known(before.tasks, id),
        update.status == Some(TaskUpdateStatus::Deleted),
    ensures
        answer == Ok::<Option<TaskView>, Seq<char>>(None),
        !known(after.tasks, id),
        other != id ==> find(after.tasks, other) == find(before.tasks, other),
        after.tasks.len() == before.tasks.len() - 1,
{
    lemma_removed_order(before, id);
    let places = lemma_filter_places(before.tasks, not_called(id));
    if known(after.tasks, id) {
        let i = first_of(after.tasks, id);
        assert(is_first(after.tasks, id, i));
        assert(not_called(id)(before.tasks[places[i]]));
    }
    let at = first_of(before.tasks, id);
    assert(is_first(before.tasks, id, at));
    lemma_filter_all_but_one(before.tasks, id, at);
    if other != id {
        if known(before.tasks, other) {
            let i = first_of(before.tasks, other);
            assert(is_first(before.tasks, other, i));
            let j = if i < at {
                i
            } else {
                i - 1
            };
            assert(after.tasks[j] == before.tasks[i]);
            lemma_unique_first(after.tasks, j);
        } else {
            if known(after.tasks, other) {
                let j = first_of(after.tasks, other);
                assert(is_first(after.tasks, other, j));
                lemma_known(before.tasks, other, places[j]);
            }
        }
    }
}

proof fn lemma_filter_all_but_one(tasks: Seq<TaskView>, id: Seq<char>, at: int)
    requires
        distinct_ids(tasks),
        0 <= at < tasks.len(),
        tasks[at].id == id,
    ensures
        tasks.filter(not_called(id)) == tasks.remove(at),
{
    let keep = not_called(id);
    lemma_filter_all(tasks.take(at), keep);
    seqs::lemma_filter_step(tasks, keep, at);
    lemma_filter_tail(tasks, keep, at, tasks.len() as int);
    assert(tasks.take(tasks.len() as int) =~= tasks);
    assert(tasks.take(at) + tasks.subrange(at + 1, tasks.len() as int) =~= tasks.remove(at));
}

proof fn lemma_filter_all(tasks: Seq<TaskView>, keep: spec_fn(TaskView) -> bool)
    requires
        forall|i: int| 0 <= i < tasks.len() ==> keep(#[trigger] tasks[i]),
    ensures
        tasks.filter(keep) == tasks,
    decreases tasks.len(),
{
    reveal(Seq::filter);
    if tasks.len() > 0 {
        lemma_filter_all(tasks.drop_last(), keep);
        assert(tasks.drop_last().push(tasks.last()) =~= tasks);
    }
}

proof fn lemma_filter_tail(
    tasks: Seq<TaskView>,
    keep: spec_fn(TaskView) -> bool,
    at: int,
    k: int,
)
    requires
        0 <= at < k <= tasks.len(),
        tasks.take(at).filter(keep) == tasks.take(at),
        !keep(tasks[at]),
        forall|i: int| at < i < tasks.len() ==> keep(#[trigger] tasks[i]),
    ensures
        tasks.take(k).filter(keep) == tasks.take(at) + tasks.subrange(at + 1, k),
    decreases k,
{
    seqs::lemma_filter_step(tasks, keep, k - 1);
    if k - 1 > at {
        lemma_filter_tail(tasks, keep, at, k - 1);
        assert(tasks.take(at) + tasks.subrange(at + 1, k) =~= (tasks.take(at) + tasks.subrange(
            at + 1,
            k - 1,
        )).push(tasks[k - 1]));
    } else {
        assert(tasks.take(at) + tasks.subrange(at + 1, k) =~= tasks.take(at));
    }
}

/// A refused update changes nothing, but that a start which is refused for its
/// dependencies has moved the other tasks out of progress.
pub proof fn refusal_changes_no_task(
    before: ManagerView,
    id: Seq<char>,
    update: UpdateView,
    after: ManagerView,
    answer: Result<Option<TaskView>, Seq<char>>,
)
    requires
        update_result(before, id, update, after, answer),
        answer is Err,
    ensures
        after.next_id == before.next_id,
        update.status != Some(TaskUpdateStatus::InProgress) ==> after == before,
        after == before || after.tasks == all_demoted(before.tasks, id),
{
}

/// What an update that is granted leaves of the task: each field that it sets, each that it
/// does not as it was, and the dependencies that it adds beside those there were.
pub proof fn updates_set_what_they_say(
    before: ManagerView,
    id: Seq<char>,
    update: UpdateView,
    after: ManagerView,
    task: TaskView,
    other: Seq<char>,
)
    requires
        orderly(before),
        update_result(before, id, update, after, Ok::<Option<TaskView>, Seq<char>>(Some(task))),
    ensures
        known(before.tasks, id),
        find(after.tasks, id) == Some(task),
        task.id == id,
        ({
            let old_task = find(before.tasks, id)->0;
            &&& task.created_at == old_task.created_at
            &&& update.subject matches Some(s) ==> task.subject == s
            &&& update.subject is None ==> task.subject == old_task.subject
            &&& update.description matches Some(s) ==> task.description == s
            &&& update.description is None ==> task.description == old_task.description
            &&& update.active_form is Some ==> task.active_form == update.active_form
            &&& update.active_form is None ==> task.active_form == old_task.active_form
            &&& update.status matches Some(s) ==> task.status.text() == s.text()
            &&& update.status is None ==> task.status == old_task.status
            &&& task.blocks.contains(other) <==> old_task.blocks.contains(other)
                || update.add_blocks.contains(other)
            &&& task.blocked_by.contains(other) <==> old_task.blocked_by.contains(other)
                || update.add_blocked_by.contains(other)
        }),
{
    let tasks = after_status(before.tasks, id, update.status);
    let at = first_of(before.tasks, id);
    assert(is_first(before.tasks, id, at));
    lemma_demoted_order(before, id);
    lemma_others_moved(before, id, update);
    assert(tasks[at].id == id);
    lemma_updated_entry(tasks, at, update, at, other);
    lemma_unique_first(tasks, at);
    let old_task = before.tasks[at];
    assert(find(before.tasks, id) == Some(old_task));
    update_keeps_order(
        before,
        id,
        update,
        after,
        Ok::<Option<TaskView>, Seq<char>>(Some(task)),
    );
    lemma_unique_first(after.tasks, at);
    assert(tasks[at] == old_task);
    if update.add_blocked_by.contains(id) {
        let k = choose|k: int|
            0 <= k < update.add_blocked_by.len() && update.add_blocked_by[k] == id;
        seqs::lemma_no_first_where(update.add_blocked_by, bad_end(tasks, id), k);
    }
    if update.add_blocks.contains(id) {
        let k = choose|k: int| 0 <= k < update.add_blocks.len() && update.add_blocks[k] == id;
        seqs::lemma_no_first_where(update.add_blocks, bad_end(tasks, id), k);
    }
}

/// Moving the others out of progress keeps a manager in order and the task itself as it was.
proof fn lemma_others_moved(m: ManagerView, id: Seq<char>, update: UpdateView)
    requires
        orderly(m),
    ensures
        orderly(ManagerView { tasks: after_status(m.tasks, id, update.status), ..m }),
        forall|i: int|
            0 <= i < m.tasks.len() && (#[trigger] m.tasks[i]).id == id ==> after_status(
                m.tasks,
                id,
                update.status,
            )[i] == m.tasks[i],
{
    lemma_demoted_order(m, id);
}

/// What an update that is granted leaves of the other tasks: they stay where they are and
/// say what they said, but that one leaves progress where another is started, and that
/// dependencies on the task are recorded with them too.
pub proof fn updates_leave_other_tasks(
    before: ManagerView,
    id: Seq<char>,
    update: UpdateView,
    after: ManagerView,
    task: TaskView,
    i: int,
    other: Seq<char>,
)
    requires
        orderly(before),
        update_result(before, id, update, after, Ok::<Option<TaskView>, Seq<char>>(Some(task))),
        0 <= i < before.tasks.len(),
        before.tasks[i].id != id,
    ensures
        after.next_id == before.next_id,
        after.tasks.len() == before.tasks.len(),
        after.tasks[i].id == before.tasks[i].id,
        after.tasks[i].subject == before.tasks[i].subject,
        after.tasks[i].description == before.tasks[i].description,
        after.tasks[i].active_form == before.tasks[i].active_form,
        after.tasks[i].created_at == before.tasks[i].created_at,
        update.status != Some(TaskUpdateStatus::InProgress) || before.tasks[i].status
            != TaskStatus::InProgress ==> after.tasks[i].status == before.tasks[i].status,
        update.status == Some(TaskUpdateStatus::InProgress) && before.tasks[i].status
            == TaskStatus::InProgress ==> after.tasks[i].status == TaskStatus::Pending,
        after.tasks[i].blocks.contains(other) <==> before.tasks[i].blocks.contains(other) || (other
            == id && update.add_blocked_by.contains(before.tasks[i].id)),
        after.tasks[i].blocked_by.contains(other) <==> before.tasks[i].blocked_by.contains(other)
            || (other == id && update.add_blocks.contains(before.tasks[i].id)),
{
    let tasks = after_status(before.tasks, id, update.status);
    let at = first_of(before.tasks, id);
    assert(is_first(before.tasks, id, at));
    lemma_others_moved(before, id, update);
    assert(tasks[at].id == id);
    lemma_updated_entry(tasks, at, update, i, other);
}

/// A task that is not known cannot be updated, and the answer names it. One that is known
/// can, where nothing is asked of its dependencies and it is not to be started.
pub proof fn plain_updates_are_granted(
    before: ManagerView,
    id: Seq<char>,
    update: UpdateView,
    after: ManagerView,
    answer: Result<Option<TaskView>, Seq<char>>,
)
    requires
        update_result(before, id, update, after, answer),
    ensures
        !known(before.tasks, id) ==> answer == Err::<Option<TaskView>, Seq<char>>(
            "Task '"@ + id + "' not found"@,
        ) && after == before,
        known(before.tasks, id) && update.status == Some(TaskUpdateStatus::Deleted) ==> answer == Ok::<
            Option<TaskView>,
            Seq<char>,
        >(None),
        known(before.tasks, id) && update.status != Some(TaskUpdateStatus::Deleted) && update.status
            != Some(TaskUpdateStatus::InProgress) && update.add_blocks.len() == 0
            && update.add_blocked_by.len() == 0 ==> answer is Ok,
{
}

/// Dependencies that cannot be are refused: on the task itself, on a task that is not known,
/// or on one that waits for the task already.
pub proof fn bad_dependencies_are_refused(
    before: ManagerView,
    id: Seq<char>,
    update: UpdateView,
    after: ManagerView,
    answer: Result<Option<TaskView>, Seq<char>>,
    other: Seq<char>,
)
    requires
        orderly(before),
        update_result(before, id, update, after, answer),
        update.status != Some(TaskUpdateStatus::Deleted),
    ensures
        update.add_blocks.contains(id) || update.add_blocked_by.contains(id) ==> answer is Err,
        update.add_blocks.contains(other) && !known(before.tasks, other) ==> answer is Err,
        update.add_blocked_by.contains(other) && !known(before.tasks, other) ==> answer is Err,
        update.add_blocks.contains(other) && graph::reaches(
            dependencies(before.tasks),
            other,
            id,
        ) ==> answer is Err,
        update.add_blocked_by.contains(other) && graph::reaches(
            dependencies(before.tasks),
            id,
            other,
        ) ==> answer is Err,
{
    if answer is Ok {
        let ready = after_status(before.tasks, id, update.status);
        lemma_others_moved(before, id, update);
        assert forall|i: int| 0 <= i < before.tasks.len() implies (#[trigger] before.tasks[i]).id
            == ready[i].id by {}
        lemma_same_ids(before.tasks, ready, other);
        lemma_good_name(ready, id, update.add_blocks, id);
        lemma_good_name(ready, id, update.add_blocked_by, id);
        lemma_good_name(ready, id, update.add_blocks, other);
        lemma_good_name(ready, id, update.add_blocked_by, other);
        let all = with_asked(ready, id, update.add_blocks, update.add_blocked_by);
        assert forall|x: Seq<char>, y: Seq<char>| #[trigger]
            dependencies(before.tasks)(x, y) implies all(x, y) by {
            lemma_same_ids(before.tasks, ready, x);
            if known(before.tasks, x) {
                let i = first_of(before.tasks, x);
                assert(is_first(before.tasks, x, i));
                assert(ready[i].blocks == before.tasks[i].blocks);
            }
            assert(edge(ready, x, y));
        }
        if update.add_blocks.contains(other) && graph::reaches(
            dependencies(before.tasks),
            other,
            id,
        ) {
            graph::lemma_reaches_monotone(dependencies(before.tasks), all, other, id);
            assert(closes_cycle(ready, id, update.add_blocks, update.add_blocked_by, id, other));
        }
        if update.add_blocked_by.contains(other) && graph::reaches(
            dependencies(before.tasks),
            id,
            other,
        ) {
            graph::lemma_reaches_monotone(dependencies(before.tasks), all, id, other);
            assert(closes_cycle(ready, id, update.add_blocks, update.add_blocked_by, other, id));
        }
    }
}

proof fn lemma_good_name(
    tasks: Seq<TaskView>,
    id: Seq<char>,
    list: Seq<Seq<char>>,
    name: Seq<char>,
)
    ensures
        seqs::first_where(list, bad_end(tasks, id)) is None && list.contains(name) ==> name != id
            && known(tasks, name),
{
    if seqs::first_where(list, bad_end(tasks, id)) is None && list.contains(name) {
        let k = choose|k: int| 0 <= k < list.len() && list[k] == name;
        seqs::lemma_no_first_where(list, bad_end(tasks, id), k);
    }
}

/// A task cannot be started while a task that blocks it is not completed: the start is refused
/// and changes nothing.
pub proof fn blocked_tasks_do_not_start(
    before: ManagerView,
    id: Seq<char>,
    update: UpdateView,
    after: ManagerView,
    answer: Result<Option<TaskView>, Seq<char>>,
    task: TaskView,
    blocker: TaskView,
)
    requires
        update_result(before, id, update, after, answer),
        update.status == Some(TaskUpdateStatus::InProgress),
        find(before.tasks, id) == Some(task),
        task.blocked_by.contains(blocker.id),
        find(before.tasks, blocker.id) == Some(blocker),
        blocker.status != TaskStatus::Completed,
    ensures
        answer is Err,
        after == before,
{
    let k = choose|k: int| 0 <= k < task.blocked_by.len() && task.blocked_by[k] == blocker.id;
    if status_error(before.tasks, id, update.status) is None {
        seqs::lemma_no_first_where(task.blocked_by, unready(before.tasks), k);
        assert(!unready(before.tasks)(task.blocked_by[k]));
    }
}

/// A new task says what it was made with, waits for nothing and stands last.
pub proof fn new_tasks_are_pending(
    n: nat,
    subject: Seq<char>,
    description: Seq<char>,
    active_form: Option<Seq<char>>,
    created_at: Timestamp,
)
    ensures
        ({
            let task = fresh_task(n, subject, description, active_form, created_at);
            &&& task.subject == subject
            &&& task.description == description
            &&& task.active_form == active_form
            &&& task.created_at == created_at
            &&& task.status == TaskStatus::Pending
            &&& task.blocks.len() == 0
            &&& task.blocked_by.len() == 0
            &&& task.id == "task-"@ + text::decimal(n)
        }),
{
}

} // verus!
