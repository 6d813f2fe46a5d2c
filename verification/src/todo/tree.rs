//! Building the parent/subtask forest from flat rows, and the computed progress.
//!
//! A row is a root when it has no parent or when its parent is not among the
//! rows (an orphan is promoted). The subtasks of a node are the rows whose
//! `parent_id` is the node's id, in row order. Rows carry distinct ids (they are
//! table rows keyed by id); under that condition no chain of parents that starts
//! at a root is longer than the number of rows, which is the depth the forest is
//! built to.
use vstd::prelude::*;

use super::dto::{Todo, TodoWithSubtasks};
use crate::text::str_eq;

verus! {

/// Whether some row has the id `id`.
pub open spec fn has_id(rows: Seq<Todo>, id: i64) -> bool {
    exists|j: int| 0 <= j < rows.len() && #[trigger] rows[j].id == id
}

/// Row `i` has no parent among the rows.
pub open spec fn is_root(rows: Seq<Todo>, i: int) -> bool {
    match rows[i].parent_id {
        Some(p) => !has_id(rows, p),
        None => true,
    }
}

/// Indices, in row order, of the roots among the first `n` rows.
pub open spec fn root_indices(rows: Seq<Todo>, n: nat) -> Seq<int>
    decreases n,
{
    if n == 0 {
        seq![]
    } else {
        root_indices(rows, (n - 1) as nat) + if is_root(rows, n - 1) {
            seq![n - 1]
        } else {
            seq![]
        }
    }
}

/// Indices, in row order, of the rows among the first `n` whose parent is `pid`.
pub open spec fn child_indices(rows: Seq<Todo>, pid: i64, n: nat) -> Seq<int>
    decreases n,
{
    if n == 0 {
        seq![]
    } else {
        child_indices(rows, pid, (n - 1) as nat) + if rows[n - 1].parent_id == Some(pid) {
            seq![n - 1]
        } else {
            seq![]
        }
    }
}

/// The (done, total) count of leaves below `nodes`: a node without subtasks is a
/// leaf, done when its status is `"done"`.
pub open spec fn leaf_count(nodes: Seq<TodoWithSubtasks>) -> (nat, nat)
    decreases nodes,
{
    if nodes.len() == 0 {
        (0, 0)
    } else {
        let last = nodes[nodes.len() - 1];
        let rest = leaf_count(nodes.drop_last());
        let own = if last.subtasks@.len() == 0 {
            (if last.status@ == "done"@ {
                1nat
            } else {
                0nat
            }, 1nat)
        } else {
            leaf_count(last.subtasks@)
        };
        (rest.0 + own.0, rest.1 + own.1)
    }
}

pub open spec fn sat(x: nat) -> nat {
    if x > u64::MAX {
        u64::MAX as nat
    } else {
        x
    }
}

/// `round(done / total * 100)`, halves rounded up; 0 when there is no leaf.
pub open spec fn percent(done: nat, total: nat) -> int {
    if total == 0 {
        0
    } else {
        ((200 * done + total) / (2 * total)) as int
    }
}

/// The computed progress of a task with the given subtasks: without subtasks it
/// is 100 when done and its own progress otherwise; with subtasks it is the share
/// of done leaves (counts held in 64 bits).
pub open spec fn effective_of(t: Todo, subs: Seq<TodoWithSubtasks>) -> int {
    if subs.len() == 0 {
        if t.status@ == "done"@ {
            100
        } else {
            t.progress as int
        }
    } else {
        percent(sat(leaf_count(subs).0), sat(leaf_count(subs).1))
    }
}

/// `n` carries the columns of `t`.
pub open spec fn same_fields(n: TodoWithSubtasks, t: Todo) -> bool {
    &&& n.id == t.id
    &&& n.title == t.title
    &&& n.description == t.description
    &&& n.due_date == t.due_date
    &&& n.start_date == t.start_date
    &&& n.priority == t.priority
    &&& n.tags@ == t.tags@
    &&& n.status == t.status
    &&& n.progress == t.progress
    &&& n.parent_id == t.parent_id
    &&& n.repeat_rule == t.repeat_rule
    &&& n.repeat_until == t.repeat_until
    &&& n.repeat_count == t.repeat_count
    &&& n.created_at == t.created_at
    &&& n.updated_at == t.updated_at
}

/// `node` is row `k` with its subtasks built `depth` levels down.
pub open spec fn is_subtree(rows: Seq<Todo>, k: int, node: TodoWithSubtasks, depth: nat) -> bool
    decreases depth,
{
    let kids = child_indices(rows, rows[k].id, rows.len());
    &&& same_fields(node, rows[k])
    &&& node.effective_progress == effective_of(rows[k], node.subtasks@)
    &&& if depth == 0 {
        node.subtasks@.len() == 0
    } else {
        &&& node.subtasks@.len() == kids.len()
        &&& forall|i: int|
            0 <= i < kids.len() ==> is_subtree(rows, kids[i], #[trigger] node.subtasks@[i], (depth - 1) as nat)
    }
}

/// `forest` holds one tree per root, in row order.
pub open spec fn is_forest(rows: Seq<Todo>, forest: Seq<TodoWithSubtasks>) -> bool {
    let roots = root_indices(rows, rows.len());
    &&& forest.len() == roots.len()
    &&& forall|i: int|
        0 <= i < roots.len() ==> is_subtree(rows, roots[i], #[trigger] forest[i], rows.len())
}

proof fn lemma_root_indices_bound(rows: Seq<Todo>, n: nat)
    requires
        n <= rows.len(),
    ensures
        forall|i: int| 0 <= i < root_indices(rows, n).len() ==> 0 <= #[trigger] root_indices(rows, n)[i] < n,
    decreases n,
{
    if n > 0 {
        lemma_root_indices_bound(rows, (n - 1) as nat);
        let prev = root_indices(rows, (n - 1) as nat);
        let all = root_indices(rows, n);
        assert forall|i: int| 0 <= i < all.len() implies 0 <= #[trigger] all[i] < n by {
            if i < prev.len() {
                assert(all[i] == prev[i]);
            }
        }
    }
}

proof fn lemma_child_indices_bound(rows: Seq<Todo>, pid: i64, n: nat)
    requires
        n <= rows.len(),
    ensures
        forall|i: int|
            0 <= i < child_indices(rows, pid, n).len() ==> 0 <= #[trigger] child_indices(rows, pid, n)[i] < n,
    decreases n,
{
    if n > 0 {
        lemma_child_indices_bound(rows, pid, (n - 1) as nat);
        let prev = child_indices(rows, pid, (n - 1) as nat);
        let all = child_indices(rows, pid, n);
        assert forall|i: int| 0 <= i < all.len() implies 0 <= #[trigger] all[i] < n by {
            if i < prev.len() {
                assert(all[i] == prev[i]);
            }
        }
    }
}

fn has_row_id(rows: &Vec<Todo>, id: i64) -> (r: bool)
    ensures
        r == has_id(rows@, id),
{
    let mut j: usize = 0;
    while j < rows.len()
        invariant
            j <= rows@.len(),
            forall|m: int| 0 <= m < j ==> rows@[m].id != id,
        decreases rows@.len() - j,
    {
        if rows[j].id == id {
            return true;
        }
        j += 1;
    }
    false
}

fn root_vec(rows: &Vec<Todo>) -> (v: Vec<usize>)
    ensures
        v@.len() == root_indices(rows@, rows@.len()).len(),
        forall|i: int| 0 <= i < v@.len() ==> v@[i] as int == root_indices(rows@, rows@.len())[i],
{
    let mut v: Vec<usize> = Vec::new();
    let mut n: usize = 0;
    while n < rows.len()
        invariant
            n <= rows@.len(),
            v@.len() == root_indices(rows@, n as nat).len(),
            forall|i: int| 0 <= i < v@.len() ==> v@[i] as int == root_indices(rows@, n as nat)[i],
        decreases rows@.len() - n,
    {
        let root = match rows[n].parent_id {
            Some(p) => !has_row_id(rows, p),
            None => true,
        };
        if root {
            v.push(n);
        }
        n += 1;
    }
    v
}

fn child_vec(rows: &Vec<Todo>, pid: i64) -> (v: Vec<usize>)
    ensures
        v@.len() == child_indices(rows@, pid, rows@.len()).len(),
        forall|i: int|
            0 <= i < v@.len() ==> v@[i] as int == child_indices(rows@, pid, rows@.len())[i],
{
    let mut v: Vec<usize> = Vec::new();
    let mut n: usize = 0;
    while n < rows.len()
        invariant
            n <= rows@.len(),
            v@.len() == child_indices(rows@, pid, n as nat).len(),
            forall|i: int| 0 <= i < v@.len() ==> v@[i] as int == child_indices(rows@, pid, n as nat)[i],
        decreases rows@.len() - n,
    {
        if rows[n].parent_id == Some(pid) {
            v.push(n);
        }
        n += 1;
    }
    v
}

/// The (done, total) count of leaves below `nodes` (`count_leaves`), each held in
/// 64 bits (saturating).
pub fn count_leaves(nodes: &Vec<TodoWithSubtasks>) -> (r: (u64, u64))
    ensures
        r.0 == sat(leaf_count(nodes@).0),
        r.1 == sat(leaf_count(nodes@).1),
    decreases nodes@,
{
    let mut done: u64 = 0;
    let mut total: u64 = 0;
    let mut i: usize = 0;
    while i < nodes.len()
        invariant
            i <= nodes@.len(),
            done == sat(leaf_count(nodes@.take(i as int)).0),
            total == sat(leaf_count(nodes@.take(i as int)).1),
        decreases nodes@.len() - i,
    {
        let n = &nodes[i];
        let (d, t) = if n.subtasks.len() == 0 {
            (if str_eq(n.status.as_str(), "done") {
                1u64
            } else {
                0u64
            }, 1u64)
        } else {
            proof {
                assert(decreases_to!(nodes@ => nodes@[i as int]));
            }
            count_leaves(&n.subtasks)
        };
        proof {
            reveal_strlit("done");
            assert(nodes@.take(i + 1).drop_last() =~= nodes@.take(i as int));
            assert(nodes@.take(i + 1)[i as int] == nodes@[i as int]);
        }
        done = done.saturating_add(d);
        total = total.saturating_add(t);
        i += 1;
    }
    assert(nodes@.take(nodes@.len() as int) =~= nodes@);
    (done, total)
}

/// The computed progress of `todo` with `subtasks` (`computeEffectiveProgress`).
pub fn effective_progress(todo: &Todo, subtasks: &Vec<TodoWithSubtasks>) -> (p: i64)
    ensures
        p == effective_of(*todo, subtasks@),
{
    if subtasks.len() == 0 {
        proof {
            reveal_strlit("done");
        }
        return if str_eq(todo.status.as_str(), "done") {
            100
        } else {
            todo.progress
        };
    }
    let (done, total) = count_leaves(subtasks);
    if total == 0 {
        0
    } else {
        assert(leaf_count(subtasks@).0 <= leaf_count(subtasks@).1) by {
            lemma_done_le_total(subtasks@);
        }
        let num: u128 = 200 * (done as u128) + (total as u128);
        let den: u128 = 2 * (total as u128);
        let q = num / den;
        assert(q <= 100) by (nonlinear_arith)
            requires
                q == num / den,
                num == 200 * done + total,
                den == 2 * total,
                done <= total,
                total > 0,
        {
            assert(num <= 201 * total);
            assert(num < 202 * total);
            assert(num / den <= 100);
        }
        q as i64
    }
}

proof fn lemma_done_le_total(nodes: Seq<TodoWithSubtasks>)
    ensures
        leaf_count(nodes).0 <= leaf_count(nodes).1,
    decreases nodes,
{
    if nodes.len() > 0 {
        lemma_done_le_total(nodes.drop_last());
        let last = nodes[nodes.len() - 1];
        if last.subtasks@.len() != 0 {
            assert(decreases_to!(nodes => nodes[nodes.len() - 1]));
            lemma_done_le_total(last.subtasks@);
        }
    }
}

fn clone_opt(s: &Option<String>) -> (r: Option<String>)
    ensures
        r == *s,
{
    match s {
        Some(v) => Some(v.clone()),
        None => None,
    }
}

pub fn clone_strings(v: &Vec<String>) -> (r: Vec<String>)
    ensures
        r@ == v@,
{
    let mut r: Vec<String> = Vec::new();
    let mut i: usize = 0;
    while i < v.len()
        invariant
            i <= v@.len(),
            r@ == v@.take(i as int),
        decreases v@.len() - i,
    {
        r.push(v[i].clone());
        assert(v@.take(i + 1) =~= v@.take(i as int).push(v@[i as int]));
        i += 1;
    }
    assert(v@.take(v@.len() as int) =~= v@);
    r
}

fn node_of(t: &Todo, subtasks: Vec<TodoWithSubtasks>) -> (n: TodoWithSubtasks)
    ensures
        same_fields(n, *t),
        n.subtasks == subtasks,
        n.effective_progress == effective_of(*t, subtasks@),
{
    let effective_progress = effective_progress(t, &subtasks);
    TodoWithSubtasks {
        id: t.id,
        title: t.title.clone(),
        description: clone_opt(&t.description),
        due_date: clone_opt(&t.due_date),
        start_date: clone_opt(&t.start_date),
        priority: clone_opt(&t.priority),
        tags: clone_strings(&t.tags),
        status: t.status.clone(),
        progress: t.progress,
        parent_id: t.parent_id,
        repeat_rule: clone_opt(&t.repeat_rule),
        repeat_until: clone_opt(&t.repeat_until),
        repeat_count: t.repeat_count,
        created_at: t.created_at.clone(),
        updated_at: t.updated_at.clone(),
        subtasks,
        effective_progress,
    }
}

/// Row `k` with its subtasks, `depth` levels down (`build_node`).
pub fn build_node(rows: &Vec<Todo>, k: usize, depth: usize) -> (node: TodoWithSubtasks)
    requires
        k < rows@.len(),
    ensures
        is_subtree(rows@, k as int, node, depth as nat),
    decreases depth,
{
    let mut subs: Vec<TodoWithSubtasks> = Vec::new();
    if depth > 0 {
        let kids = child_vec(rows, rows[k].id);
        proof {
            lemma_child_indices_bound(rows@, rows@[k as int].id, rows@.len());
        }
        let mut i: usize = 0;
        while i < kids.len()
            invariant
                0 < depth,
                k < rows@.len(),
                i <= kids@.len(),
                kids@.len() == child_indices(rows@, rows@[k as int].id, rows@.len()).len(),
                forall|m: int|
                    0 <= m < kids@.len() ==> kids@[m] as int == child_indices(
                        rows@,
                        rows@[k as int].id,
                        rows@.len(),
                    )[m],
                forall|m: int|
                    0 <= m < child_indices(rows@, rows@[k as int].id, rows@.len()).len()
                        ==> 0 <= #[trigger] child_indices(rows@, rows@[k as int].id, rows@.len())[m]
                        < rows@.len(),
                subs@.len() == i,
                forall|m: int|
                    0 <= m < i ==> is_subtree(rows@, kids@[m] as int, #[trigger] subs@[m], (depth - 1) as nat),
            decreases kids@.len() - i,
        {
            let c = kids[i];
            assert(c as int == child_indices(rows@, rows@[k as int].id, rows@.len())[i as int]);
            let child = build_node(rows, c, depth - 1);
            subs.push(child);
            i += 1;
        }
    }
    let node = node_of(&rows[k], subs);
    node
}

/// The forest of `rows` (`build_todo_tree`): one tree per root, in row order,
/// subtasks in row order, each node with its computed progress.
pub fn build_todo_tree(rows: Vec<Todo>) -> (forest: Vec<TodoWithSubtasks>)
    ensures
        is_forest(rows@, forest@),
{
    let roots = root_vec(&rows);
    proof {
        lemma_root_indices_bound(rows@, rows@.len());
    }
    let mut out: Vec<TodoWithSubtasks> = Vec::new();
    let mut i: usize = 0;
    while i < roots.len()
        invariant
            i <= roots@.len(),
            roots@.len() == root_indices(rows@, rows@.len()).len(),
            forall|m: int| 0 <= m < roots@.len() ==> roots@[m] as int == root_indices(rows@, rows@.len())[m],
            forall|m: int|
                0 <= m < root_indices(rows@, rows@.len()).len() ==> 0 <= #[trigger] root_indices(
                    rows@,
                    rows@.len(),
                )[m] < rows@.len(),
            out@.len() == i,
            forall|m: int|
                0 <= m < i ==> is_subtree(rows@, roots@[m] as int, #[trigger] out@[m], rows@.len()),
        decreases roots@.len() - i,
    {
        let r = roots[i];
        assert(r as int == root_indices(rows@, rows@.len())[i as int]);
        let node = build_node(&rows, r, rows.len());
        out.push(node);
        i += 1;
    }
    out
}

/// The computed progress of a task stays within 0 to 100 when its stored
/// progress does: a parent's is the rounded share of done leaves.
pub proof fn lemma_effective_progress_bounds(t: Todo, subs: Seq<TodoWithSubtasks>)
    requires
        0 <= t.progress <= 100,
    ensures
        0 <= effective_of(t, subs) <= 100,
{
    if subs.len() > 0 {
        lemma_done_le_total(subs);
        let d = sat(leaf_count(subs).0);
        let n = sat(leaf_count(subs).1);
        assert(d <= n);
        if n > 0 {
            assert((200 * d + n) / (2 * n) <= 100) by (nonlinear_arith)
                requires
                    d <= n,
                    n > 0,
            ;
            assert((200 * d + n) / (2 * n) >= 0) by (nonlinear_arith)
                requires
                    n > 0,
            ;
        }
    }
}

} // verus!
