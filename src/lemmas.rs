//! Laws that relate the state transitions to one another.

use vstd::prelude::*;

use crate::app_state::{
    add_outcome, add_target, complete_outcome, holder_index, holds_task, index_named, index_of_id,
    modify_outcome, modify_task_outcome, named_project, remove_outcome, remove_project_outcome,
    remove_task_outcome, create_project_outcome, show_outcome, task_index, task_position, unique_project_ids,
    unique_task_ids, ids_below_counter, well_formed, max_project_id, fresh_project, with_task, AppStateModel,
};
use crate::command::ParamsModel;
use crate::hierarchy::{built_task, priority_code, priority_of_code, Priority, ProjectModel, TaskModel, Timestamp};

verus! {

/// One command applied to the state, with its arguments.
pub ghost enum Step {
    Add(ParamsModel, bool, Timestamp),
    Remove(ParamsModel),
    Modify(ParamsModel, Timestamp),
    Complete(ParamsModel, Timestamp),
    CreateProject(ParamsModel),
    RemoveProject(ParamsModel),
    RemoveTask(usize, usize),
    ModifyTask(usize, ParamsModel, Timestamp),
}

/// The outcome of one step.
pub open spec fn apply(s: AppStateModel, st: Step) -> (AppStateModel, Option<Seq<char>>) {
    match st {
        Step::Add(p, c, now) => add_outcome(s, p, c, now),
        Step::Remove(p) => remove_outcome(s, p),
        Step::Modify(p, now) => modify_outcome(s, p, now),
        Step::Complete(p, now) => complete_outcome(s, p, now),
        Step::CreateProject(p) => create_project_outcome(s, p),
        Step::RemoveProject(p) => remove_project_outcome(s, p),
        Step::RemoveTask(tid, pid) => (remove_task_outcome(s, tid, pid), None),
        Step::ModifyTask(tid, p, now) => (modify_task_outcome(s, tid, p, now), None),
    }
}

/// The state after the first `k` steps of `steps`, from `s`.
pub open spec fn run(s: AppStateModel, steps: Seq<Step>, k: int) -> AppStateModel
    decreases k,
{
    if k <= 0 {
        s
    } else {
        apply(run(s, steps, k - 1), steps[k - 1]).0
    }
}

/// Whether step `k` of `steps` is an add that succeeds.
pub open spec fn adds_at(s: AppStateModel, steps: Seq<Step>, k: int) -> bool {
    steps[k] is Add && apply(run(s, steps, k), steps[k]).1.is_none()
}

/// Whether every add in `steps` starts below the counter's limit, as the add
/// operation requires.
pub open spec fn counter_in_range(s: AppStateModel, steps: Seq<Step>) -> bool {
    forall|k: int| 0 <= k < steps.len() && (#[trigger] steps[k]) is Add ==> run(s, steps, k).next_task_id < usize::MAX
}

proof fn lemma_step_keeps_counter(s: AppStateModel, st: Step)
    requires
        st is Add ==> s.next_task_id < usize::MAX,
    ensures
        apply(s, st).0.next_task_id >= s.next_task_id,
        st is Add && apply(s, st).1.is_none() ==> apply(s, st).0.next_task_id == s.next_task_id + 1,
{
}

proof fn lemma_counter_grows(s: AppStateModel, steps: Seq<Step>, a: int, b: int)
    requires
        0 <= a <= b <= steps.len(),
        counter_in_range(s, steps),
    ensures
        run(s, steps, a).next_task_id <= run(s, steps, b).next_task_id,
    decreases b - a,
{
    if a < b {
        lemma_counter_grows(s, steps, a, b - 1);
        if steps[b - 1] is Add {
            assert(run(s, steps, b - 1).next_task_id < usize::MAX);
        }
        lemma_step_keeps_counter(run(s, steps, b - 1), steps[b - 1]);
    }
}

/// A successful add gives the new task the counter's value as its id, places it
/// last in its project, and moves the counter one up.
pub proof fn lemma_add_takes_counter(s: AppStateModel, p: ParamsModel, confirm: bool, now: Timestamp)
    requires
        s.next_task_id < usize::MAX,
        add_outcome(s, p, confirm, now).1.is_none(),
    ensures
        ({
            let t = add_outcome(s, p, confirm, now).0;
            let (s1, pid) = add_target(s, p);
            let h = index_of_id(s1.projects, pid, 0);
            &&& t.next_task_id == s.next_task_id + 1
            &&& 0 <= h < t.projects.len()
            &&& t.projects[h].tasks.last().id == s.next_task_id
        }),
{
    let (s1, pid) = add_target(s, p);
    lemma_index_of_id_range(s1.projects, pid, 0);
}

proof fn lemma_index_of_id_range(ps: Seq<ProjectModel>, id: usize, i: int)
    requires
        0 <= i <= ps.len(),
    ensures
        i <= index_of_id(ps, id, i) <= ps.len(),
    decreases ps.len() - i,
{
    if i < ps.len() {
        lemma_index_of_id_range(ps, id, i + 1);
    }
}

/// Over any run of commands, the ids that successful adds give out strictly
/// increase, so no id is handed out twice, whatever was removed in between.
pub proof fn lemma_added_ids_increase(s: AppStateModel, steps: Seq<Step>, i: int, j: int)
    requires
        0 <= i < j < steps.len(),
        counter_in_range(s, steps),
        adds_at(s, steps, i),
        adds_at(s, steps, j),
    ensures
        run(s, steps, i).next_task_id < run(s, steps, j).next_task_id,
{
    lemma_step_keeps_counter(run(s, steps, i), steps[i]);
    assert(run(s, steps, i + 1) == apply(run(s, steps, i), steps[i]).0);
    lemma_counter_grows(s, steps, i + 1, j);
}

proof fn lemma_task_index(ts: Seq<TaskModel>, tid: usize, j: int)
    requires
        0 <= j <= ts.len(),
    ensures
        j <= task_index(ts, tid, j) <= ts.len(),
        task_index(ts, tid, j) < ts.len() ==> ts[task_index(ts, tid, j)].id == tid,
        task_index(ts, tid, j) == ts.len() <==> forall|m: int| j <= m < ts.len() ==> ts[m].id != tid,
    decreases ts.len() - j,
{
    if j < ts.len() {
        lemma_task_index(ts, tid, j + 1);
    }
}

proof fn lemma_holder_index(ps: Seq<ProjectModel>, tid: usize, i: int)
    requires
        0 <= i <= ps.len(),
    ensures
        i <= holder_index(ps, tid, i) <= ps.len(),
        holder_index(ps, tid, i) < ps.len() ==> holds_task(ps[holder_index(ps, tid, i)], tid),
        holder_index(ps, tid, i) == ps.len() <==> forall|m: int| i <= m < ps.len() ==> !holds_task(#[trigger] ps[m], tid),
    decreases ps.len() - i,
{
    if i < ps.len() {
        lemma_holder_index(ps, tid, i + 1);
    }
}

/// After a task is removed by id, showing that id finds no task, when task
/// ids are unique.
pub proof fn lemma_removed_task_not_shown(s: AppStateModel, p: ParamsModel)
    requires
        unique_task_ids(s),
        p.task_id.is_some(),
    ensures
        show_outcome(remove_outcome(s, p).0, p) == Err::<(int, int), Seq<char>>("task not found"@),
{
    let tid = p.task_id.unwrap();
    let t = remove_outcome(s, p).0;
    lemma_holder_index(s.projects, tid, 0);
    if let Some((i, _)) = task_position(s, tid) {
        let j0 = task_index(s.projects[i].tasks, tid, 0);
        lemma_task_index(s.projects[i].tasks, tid, 0);
        let pred = |x: TaskModel| x.id != tid;
        assert forall|m: int| 0 <= m < t.projects.len() implies !holds_task(#[trigger] t.projects[m], tid) by {
            let ts = t.projects[m].tasks;
            lemma_task_index(ts, tid, 0);
            if m == i {
                assert forall|q: int| 0 <= q < ts.len() implies ts[q].id != tid by {
                    s.projects[i].tasks.lemma_filter_pred(pred, q);
                }
            } else {
                assert forall|q: int| 0 <= q < ts.len() implies ts[q].id != tid by {
                    assert(s.projects[m].tasks[q].id != s.projects[i].tasks[j0].id);
                }
            }
        }
        lemma_holder_index(t.projects, tid, 0);
    }
}

proof fn lemma_same_ids_same_position(s: AppStateModel, t: AppStateModel, tid: usize)
    requires
        s.projects.len() == t.projects.len(),
        forall|i: int| 0 <= i < s.projects.len() ==> #[trigger] s.projects[i].tasks.len() == t.projects[i].tasks.len(),
        forall|i: int, j: int|
            0 <= i < s.projects.len() && 0 <= j < s.projects[i].tasks.len() ==> #[trigger] s.projects[i].tasks[j].id
                == t.projects[i].tasks[j].id,
    ensures
        task_position(s, tid) == task_position(t, tid),
{
    assert forall|i: int| 0 <= i < s.projects.len() implies #[trigger] task_index(s.projects[i].tasks, tid, 0)
        == task_index(t.projects[i].tasks, tid, 0) by {
        lemma_same_task_index(s.projects[i].tasks, t.projects[i].tasks, tid, 0);
    }
    lemma_same_holder_index(s.projects, t.projects, tid, 0);
    lemma_holder_index(s.projects, tid, 0);
}

proof fn lemma_same_task_index(a: Seq<TaskModel>, b: Seq<TaskModel>, tid: usize, j: int)
    requires
        a.len() == b.len(),
        forall|m: int| 0 <= m < a.len() ==> #[trigger] a[m].id == b[m].id,
    ensures
        task_index(a, tid, j) == task_index(b, tid, j),
    decreases a.len() - j,
{
    if 0 <= j < a.len() {
        lemma_same_task_index(a, b, tid, j + 1);
    }
}

proof fn lemma_same_holder_index(a: Seq<ProjectModel>, b: Seq<ProjectModel>, tid: usize, i: int)
    requires
        a.len() == b.len(),
        forall|m: int| 0 <= m < a.len() ==> #[trigger] a[m].tasks.len() == b[m].tasks.len(),
        forall|m: int| 0 <= m < a.len() ==> #[trigger] task_index(a[m].tasks, tid, 0) == task_index(b[m].tasks, tid, 0),
    ensures
        holder_index(a, tid, i) == holder_index(b, tid, i),
    decreases a.len() - i,
{
    if 0 <= i < a.len() {
        lemma_same_holder_index(a, b, tid, i + 1);
    }
}

/// Completing a task again succeeds and overwrites its completion time: the
/// result is as if only the second completion had run, and the same as the
/// first when the time given is the same.
pub proof fn lemma_complete_again(s: AppStateModel, p: ParamsModel, now1: Timestamp, now2: Timestamp)
    requires
        complete_outcome(s, p, now1).1.is_none(),
    ensures
        ({
            let s1 = complete_outcome(s, p, now1).0;
            &&& complete_outcome(s1, p, now2).1.is_none()
            &&& complete_outcome(s1, p, now2).0 == complete_outcome(s, p, now2).0
            &&& now1 == now2 ==> complete_outcome(s1, p, now2).0 == s1
        }),
{
    let tid = p.task_id.unwrap();
    let s1 = complete_outcome(s, p, now1).0;
    let (i, j) = task_position(s, tid).unwrap();
    lemma_holder_index(s.projects, tid, 0);
    lemma_task_index(s.projects[i].tasks, tid, 0);
    assert forall|a: int| 0 <= a < s.projects.len() implies #[trigger] s.projects[a].tasks.len()
        == s1.projects[a].tasks.len() by {}
    assert forall|a: int, b: int| 0 <= a < s.projects.len() && 0 <= b < s.projects[a].tasks.len() implies #[trigger] s.projects[a].tasks[b].id
        == s1.projects[a].tasks[b].id by {}
    lemma_same_ids_same_position(s, s1, tid);
    let a = complete_outcome(s1, p, now2).0;
    let b = complete_outcome(s, p, now2).0;
    assert(a.projects[i].tasks =~= b.projects[i].tasks);
    assert(a.projects =~= b.projects);
    if now1 == now2 {
        assert(a.projects[i].tasks =~= s1.projects[i].tasks);
        assert(a.projects =~= s1.projects);
    }
}

/// The project that a command names resolves to a project with id `id`.
pub open spec fn names_project_with_id(s: AppStateModel, p: ParamsModel, id: usize) -> bool {
    named_project(p).is_some() && {
        let k = index_named(s.projects, named_project(p).unwrap(), 0);
        0 <= k < s.projects.len() && s.projects[k].id == id
    }
}

/// Removing the Home project (id 0) always fails and changes nothing, with
/// or without force.
pub proof fn lemma_home_not_removable(s: AppStateModel, p: ParamsModel)
    requires
        names_project_with_id(s, p, 0),
    ensures
        remove_project_outcome(s, p) == (s, Some("cannot remove Home project"@)),
        remove_project_outcome(s, ParamsModel { force: !p.force, ..p }) == (
            s,
            Some("cannot remove Home project"@),
        ),
{
}

proof fn lemma_index_of_id(ps: Seq<ProjectModel>, id: usize, i: int, k: int)
    requires
        0 <= i <= k < ps.len(),
        ps[k].id == id,
        forall|m: int| i <= m < k ==> #[trigger] ps[m].id != id,
    ensures
        index_of_id(ps, id, i) == k,
    decreases k - i,
{
    if i < k {
        lemma_index_of_id(ps, id, i + 1, k);
    }
}

/// Removing a project that holds tasks fails without force and changes
/// nothing; with force it succeeds, and no project with that id, nor any of
/// its tasks, is left.
pub proof fn lemma_remove_project_with_tasks(s: AppStateModel, p: ParamsModel, id: usize)
    requires
        unique_project_ids(s),
        id != 0,
        names_project_with_id(s, p, id),
        s.projects[index_named(s.projects, named_project(p).unwrap(), 0)].tasks.len() > 0,
    ensures
        !p.force ==> remove_project_outcome(s, p) == (
            s,
            Some("project has tasks, use --force to remove anyway"@),
        ),
        p.force ==> remove_project_outcome(s, p).1.is_none(),
        p.force ==> remove_project_outcome(s, p).0.projects == s.projects.filter(|q: ProjectModel| q.id != id),
        p.force ==> forall|m: int|
            0 <= m < remove_project_outcome(s, p).0.projects.len() ==> (#[trigger] remove_project_outcome(s, p).0.projects[m]).id != id,
{
    let k = index_named(s.projects, named_project(p).unwrap(), 0);
    assert forall|m: int| 0 <= m < k implies #[trigger] s.projects[m].id != id by {
        assert(s.projects[m].id != s.projects[k].id);
    }
    lemma_index_of_id(s.projects, id, 0, k);
    if p.force {
        let pred = |q: ProjectModel| q.id != id;
        assert forall|m: int| 0 <= m < remove_project_outcome(s, p).0.projects.len() implies (#[trigger] remove_project_outcome(s, p).0.projects[m]).id != id by {
            s.projects.lemma_filter_pred(pred, m);
        }
    }
}

proof fn lemma_filter_keeps_unique<A>(v: Seq<A>, key: spec_fn(A) -> int, pred: spec_fn(A) -> bool)
    requires
        forall|a: int, b: int| 0 <= a < v.len() && 0 <= b < v.len() && a != b ==> key(#[trigger] v[a]) != key(#[trigger] v[b]),
    ensures
        forall|a: int, b: int|
            0 <= a < v.filter(pred).len() && 0 <= b < v.filter(pred).len() && a != b ==> key(#[trigger] v.filter(pred)[a])
                != key(#[trigger] v.filter(pred)[b]),
        forall|a: int| 0 <= a < v.filter(pred).len() ==> exists|b: int| 0 <= b < v.len() && #[trigger] v.filter(pred)[a] == v[b],
    decreases v.len(),
{
    reveal(Seq::filter);
    if v.len() > 0 {
        let w = v.drop_last();
        assert forall|a: int, b: int| 0 <= a < w.len() && 0 <= b < w.len() && a != b implies key(#[trigger] w[a]) != key(#[trigger] w[b]) by {
            assert(w[a] == v[a] && w[b] == v[b]);
        }
        lemma_filter_keeps_unique(w, key, pred);
        let f0 = w.filter(pred);
        let f = v.filter(pred);
        assert forall|a: int| 0 <= a < f.len() implies exists|b: int| 0 <= b < v.len() && #[trigger] f[a] == v[b] by {
            if a < f0.len() {
                let b = choose|b: int| 0 <= b < w.len() && f0[a] == w[b];
                assert(f[a] == v[b]);
            } else {
                assert(f[a] == v[v.len() - 1]);
            }
        }
        assert forall|a: int, b: int| 0 <= a < f.len() && 0 <= b < f.len() && a != b implies key(#[trigger] f[a]) != key(#[trigger] f[b]) by {
            if a < f0.len() && b < f0.len() {
            } else if a < f0.len() {
                let c = choose|c: int| 0 <= c < w.len() && f0[a] == w[c];
                assert(f[a] == v[c] && f[b] == v[v.len() - 1]);
            } else if b < f0.len() {
                let c = choose|c: int| 0 <= c < w.len() && f0[b] == w[c];
                assert(f[b] == v[c] && f[a] == v[v.len() - 1]);
            }
        }
    }
}

proof fn lemma_ids_at_most_max(ps: Seq<ProjectModel>)
    ensures
        forall|k: int| 0 <= k < ps.len() ==> (#[trigger] ps[k]).id <= max_project_id(ps),
    decreases ps.len(),
{
    if ps.len() > 0 {
        lemma_ids_at_most_max(ps.drop_last());
        assert forall|k: int| 0 <= k < ps.len() implies (#[trigger] ps[k]).id <= max_project_id(ps) by {
            if k < ps.len() - 1 {
                assert(ps[k] == ps.drop_last()[k]);
            }
        }
    }
}

/// Replacing a task by one with the same id keeps the state well formed.
proof fn lemma_with_task_well_formed(s: AppStateModel, i: int, j: int, t: TaskModel)
    requires
        well_formed(s),
        0 <= i < s.projects.len(),
        0 <= j < s.projects[i].tasks.len(),
        t.id == s.projects[i].tasks[j].id,
    ensures
        well_formed(with_task(s, i, j, t)),
{
    let w = with_task(s, i, j, t);
    assert forall|a: int, b: int| 0 <= a < w.projects.len() && 0 <= b < w.projects[a].tasks.len() implies #[trigger] w.projects[a].tasks[b].id
        == s.projects[a].tasks[b].id by {}
    assert forall|a: int| 0 <= a < w.projects.len() implies #[trigger] w.projects[a].id == s.projects[a].id by {}
}

/// Adding a task keeps the state well formed.
pub proof fn lemma_add_well_formed(s: AppStateModel, p: ParamsModel, confirm: bool, now: Timestamp)
    requires
        well_formed(s),
        s.next_task_id < usize::MAX,
        confirm ==> max_project_id(s.projects) < usize::MAX,
    ensures
        well_formed(add_outcome(s, p, confirm, now).0),
{
    let (s1, pid) = add_target(s, p);
    lemma_ids_at_most_max(s.projects);
    if p.project.is_some() && index_named(s.projects, p.project.unwrap(), 0) >= s.projects.len() {
        if confirm {
            let n = p.project.unwrap();
            assert(s1.projects == s.projects.push(fresh_project(n, pid)));
            assert forall|a: int, b: int| 0 <= a < s1.projects.len() && 0 <= b < s1.projects.len() && a != b implies #[trigger] s1.projects[a].id
                != #[trigger] s1.projects[b].id by {
                if a < s.projects.len() && b < s.projects.len() {
                    assert(s1.projects[a] == s.projects[a] && s1.projects[b] == s.projects[b]);
                } else if a < s.projects.len() {
                    assert(s1.projects[a] == s.projects[a]);
                } else {
                    assert(s1.projects[b] == s.projects[b]);
                }
            }
            assert forall|a: int, b: int| 0 <= a < s1.projects.len() && 0 <= b < s1.projects[a].tasks.len() implies #[trigger] s1.projects[a].tasks[b]
                == s.projects[a].tasks[b] by {
                assert(s1.projects[a] == s.projects[a]);
            }
        }
    }
    let t = add_outcome(s, p, confirm, now).0;
    if add_outcome(s, p, confirm, now).1.is_none() {
        assert(well_formed(s1));
        lemma_index_of_id_range(s1.projects, pid, 0);
        let h = index_of_id(s1.projects, pid, 0);
        let n = s1.projects[h].tasks.len() as int;
        assert forall|a: int, b: int| 0 <= a < t.projects.len() && 0 <= b < t.projects[a].tasks.len() && !(a == h && b == n) implies #[trigger] t.projects[a].tasks[b]
            == s1.projects[a].tasks[b] by {}
        assert(t.projects[h].tasks[n].id == s.next_task_id);
        assert forall|a: int| 0 <= a < t.projects.len() implies #[trigger] t.projects[a].id == s1.projects[a].id by {}
        assert forall|i1: int, j1: int, i2: int, j2: int|
            0 <= i1 < t.projects.len() && 0 <= i2 < t.projects.len() && 0 <= j1 < t.projects[i1].tasks.len()
                && 0 <= j2 < t.projects[i2].tasks.len() && (i1 != i2 || j1 != j2)
            implies #[trigger] t.projects[i1].tasks[j1].id != #[trigger] t.projects[i2].tasks[j2].id by {
            if !(i1 == h && j1 == n) && !(i2 == h && j2 == n) {
                assert(t.projects[i1].tasks[j1] == s1.projects[i1].tasks[j1]);
                assert(t.projects[i2].tasks[j2] == s1.projects[i2].tasks[j2]);
            } else if !(i1 == h && j1 == n) {
                assert(t.projects[i1].tasks[j1] == s1.projects[i1].tasks[j1]);
            } else {
                assert(t.projects[i2].tasks[j2] == s1.projects[i2].tasks[j2]);
            }
        }
        assert forall|a: int, b: int| 0 <= a < t.projects.len() && 0 <= b < t.projects[a].tasks.len() implies #[trigger] t.projects[a].tasks[b].id
            < t.next_task_id by {
            if !(a == h && b == n) {
                assert(t.projects[a].tasks[b] == s1.projects[a].tasks[b]);
            }
        }
    }
}

/// Creating a project keeps the state well formed.
pub proof fn lemma_create_project_well_formed(s: AppStateModel, p: ParamsModel)
    requires
        well_formed(s),
        max_project_id(s.projects) < usize::MAX,
    ensures
        well_formed(create_project_outcome(s, p).0),
{
    let t = create_project_outcome(s, p).0;
    lemma_ids_at_most_max(s.projects);
    if create_project_outcome(s, p).1.is_none() {
        assert forall|a: int| 0 <= a < s.projects.len() implies #[trigger] t.projects[a] == s.projects[a] by {}
        assert forall|a: int, b: int| 0 <= a < t.projects.len() && 0 <= b < t.projects.len() && a != b implies #[trigger] t.projects[a].id
            != #[trigger] t.projects[b].id by {
            if a < s.projects.len() && b < s.projects.len() {
                assert(t.projects[a] == s.projects[a] && t.projects[b] == s.projects[b]);
            } else if a < s.projects.len() {
                assert(t.projects[a] == s.projects[a]);
            } else {
                assert(t.projects[b] == s.projects[b]);
            }
        }
        assert forall|a: int, b: int| 0 <= a < t.projects.len() && 0 <= b < t.projects[a].tasks.len() implies #[trigger] t.projects[a].tasks[b]
            == s.projects[a].tasks[b] by {
            assert(t.projects[a] == s.projects[a]);
        }
    }
}

/// Removing a task keeps the state well formed.
pub proof fn lemma_remove_well_formed(s: AppStateModel, p: ParamsModel)
    requires
        well_formed(s),
    ensures
        well_formed(remove_outcome(s, p).0),
{
    let t = remove_outcome(s, p).0;
    if remove_outcome(s, p).1.is_none() {
        let tid = p.task_id.unwrap();
        let (i, _) = task_position(s, tid).unwrap();
        lemma_holder_index(s.projects, tid, 0);
        let ts = s.projects[i].tasks;
        let key = |x: TaskModel| x.id as int;
        let pred = |x: TaskModel| x.id != tid;
        assert forall|a: int, b: int| 0 <= a < ts.len() && 0 <= b < ts.len() && a != b implies key(#[trigger] ts[a]) != key(#[trigger] ts[b]) by {
            assert(s.projects[i].tasks[a].id != s.projects[i].tasks[b].id);
        }
        lemma_filter_keeps_unique(ts, key, pred);
        let f = ts.filter(pred);
        assert(t.projects[i].tasks == f);
        assert forall|a: int| 0 <= a < t.projects.len() implies #[trigger] t.projects[a].id == s.projects[a].id by {}
        // every task of the result stands at some position of `s`, the same
        // project, and distinct positions of the result come from distinct ones
        assert forall|a: int, b: int| 0 <= a < t.projects.len() && 0 <= b < t.projects[a].tasks.len() implies exists|c: int|
            0 <= c < s.projects[a].tasks.len() && #[trigger] t.projects[a].tasks[b] == s.projects[a].tasks[c] by {
            if a != i {
                assert(t.projects[a].tasks[b] == s.projects[a].tasks[b]);
            } else {
                assert(f[b] == t.projects[a].tasks[b]);
            }
        }
        assert forall|i1: int, j1: int, i2: int, j2: int|
            0 <= i1 < t.projects.len() && 0 <= i2 < t.projects.len() && 0 <= j1 < t.projects[i1].tasks.len()
                && 0 <= j2 < t.projects[i2].tasks.len() && (i1 != i2 || j1 != j2)
            implies #[trigger] t.projects[i1].tasks[j1].id != #[trigger] t.projects[i2].tasks[j2].id by {
            if i1 == i2 && i1 == i {
                assert(key(f[j1]) != key(f[j2]));
            } else {
                let c1 = choose|c: int| 0 <= c < s.projects[i1].tasks.len() && t.projects[i1].tasks[j1] == s.projects[i1].tasks[c];
                let c2 = choose|c: int| 0 <= c < s.projects[i2].tasks.len() && t.projects[i2].tasks[j2] == s.projects[i2].tasks[c];
                if i1 == i2 {
                    assert(t.projects[i1].tasks[j1] == s.projects[i1].tasks[j1]);
                    assert(t.projects[i2].tasks[j2] == s.projects[i2].tasks[j2]);
                } else {
                    assert(s.projects[i1].tasks[c1].id != s.projects[i2].tasks[c2].id);
                }
            }
        }
        assert forall|a: int, b: int| 0 <= a < t.projects.len() && 0 <= b < t.projects[a].tasks.len() implies #[trigger] t.projects[a].tasks[b].id
            < t.next_task_id by {
            let c = choose|c: int| 0 <= c < s.projects[a].tasks.len() && t.projects[a].tasks[b] == s.projects[a].tasks[c];
            assert(s.projects[a].tasks[c].id < s.next_task_id);
        }
    }
}

/// Rebuilding a task keeps the state well formed.
pub proof fn lemma_modify_well_formed(s: AppStateModel, p: ParamsModel, now: Timestamp)
    requires
        well_formed(s),
    ensures
        well_formed(modify_outcome(s, p, now).0),
{
    if modify_outcome(s, p, now).1.is_none() {
        let tid = p.task_id.unwrap();
        let (i, j) = task_position(s, tid).unwrap();
        lemma_holder_index(s.projects, tid, 0);
        lemma_task_index(s.projects[i].tasks, tid, 0);
        lemma_with_task_well_formed(s, i, j, built_task(p, tid, s.projects[i].tasks[j].project_id, now));
    }
}

/// Completing a task keeps the state well formed.
pub proof fn lemma_complete_well_formed(s: AppStateModel, p: ParamsModel, now: Timestamp)
    requires
        well_formed(s),
    ensures
        well_formed(complete_outcome(s, p, now).0),
{
    if complete_outcome(s, p, now).1.is_none() {
        let tid = p.task_id.unwrap();
        let (i, j) = task_position(s, tid).unwrap();
        lemma_holder_index(s.projects, tid, 0);
        lemma_task_index(s.projects[i].tasks, tid, 0);
        lemma_with_task_well_formed(s, i, j, TaskModel { completed_at: Some(now), ..s.projects[i].tasks[j] });
    }
}

/// Removing a project keeps the state well formed.
pub proof fn lemma_remove_project_well_formed(s: AppStateModel, p: ParamsModel)
    requires
        well_formed(s),
    ensures
        well_formed(remove_project_outcome(s, p).0),
{
    let t = remove_project_outcome(s, p).0;
    if remove_project_outcome(s, p).1.is_none() {
        let k = index_named(s.projects, named_project(p).unwrap(), 0);
        let id = s.projects[k].id;
        let key = |q: ProjectModel| q.id as int;
        let pred = |q: ProjectModel| q.id != id;
        assert forall|a: int, b: int| 0 <= a < s.projects.len() && 0 <= b < s.projects.len() && a != b implies key(#[trigger] s.projects[a])
            != key(#[trigger] s.projects[b]) by {}
        lemma_filter_keeps_unique(s.projects, key, pred);
        assert(t.projects == s.projects.filter(pred));
        assert forall|a: int, b: int| 0 <= a < t.projects.len() && 0 <= b < t.projects.len() && a != b implies #[trigger] t.projects[a].id
            != #[trigger] t.projects[b].id by {
            assert(key(t.projects[a]) != key(t.projects[b]));
        }
        assert forall|i1: int, j1: int, i2: int, j2: int|
            0 <= i1 < t.projects.len() && 0 <= i2 < t.projects.len() && 0 <= j1 < t.projects[i1].tasks.len()
                && 0 <= j2 < t.projects[i2].tasks.len() && (i1 != i2 || j1 != j2)
            implies #[trigger] t.projects[i1].tasks[j1].id != #[trigger] t.projects[i2].tasks[j2].id by {
            let c1 = choose|c: int| 0 <= c < s.projects.len() && #[trigger] t.projects[i1] == s.projects[c];
            let c2 = choose|c: int| 0 <= c < s.projects.len() && #[trigger] t.projects[i2] == s.projects[c];
            if i1 != i2 {
                assert(key(t.projects[i1]) != key(t.projects[i2]));
            }
            assert(s.projects[c1].tasks[j1].id != s.projects[c2].tasks[j2].id);
        }
        assert forall|a: int, b: int| 0 <= a < t.projects.len() && 0 <= b < t.projects[a].tasks.len() implies #[trigger] t.projects[a].tasks[b].id
            < t.next_task_id by {
            let c = choose|c: int| 0 <= c < s.projects.len() && #[trigger] t.projects[a] == s.projects[c];
            assert(s.projects[c].tasks[b].id < s.next_task_id);
        }
    }
}

/// Rebuilding a task by id keeps the state well formed.
pub proof fn lemma_modify_task_well_formed(s: AppStateModel, tid: usize, p: ParamsModel, now: Timestamp)
    requires
        well_formed(s),
    ensures
        well_formed(modify_task_outcome(s, tid, p, now)),
{
    if let Some((i, j)) = task_position(s, tid) {
        lemma_holder_index(s.projects, tid, 0);
        lemma_task_index(s.projects[i].tasks, tid, 0);
        lemma_with_task_well_formed(s, i, j, built_task(p, tid, s.projects[i].tasks[j].project_id, now));
    }
}

/// No two tasks of a sequence share an id.
pub open spec fn distinct_ids(ts: Seq<TaskModel>) -> bool {
    forall|b: int, c: int| 0 <= b < ts.len() && 0 <= c < ts.len() && b != c ==> (#[trigger] ts[b]).id != (#[trigger] ts[c]).id
}

/// Dropping a task from the projects with a given id keeps the state well formed.
pub proof fn lemma_remove_task_well_formed(s: AppStateModel, tid: usize, pid: usize)
    requires
        well_formed(s),
    ensures
        well_formed(remove_task_outcome(s, tid, pid)),
{
    let t = remove_task_outcome(s, tid, pid);
    let key = |x: TaskModel| x.id as int;
    let pred = |x: TaskModel| x.id != tid;
    assert forall|a: int| 0 <= a < s.projects.len() implies distinct_ids(#[trigger] t.projects[a].tasks) by {
        let ts = s.projects[a].tasks;
        if s.projects[a].id == pid {
            assert forall|b: int, c: int| 0 <= b < ts.len() && 0 <= c < ts.len() && b != c implies key(#[trigger] ts[b]) != key(#[trigger] ts[c]) by {
                assert(s.projects[a].tasks[b].id != s.projects[a].tasks[c].id);
            }
            lemma_filter_keeps_unique(ts, key, pred);
            assert(t.projects[a].tasks == ts.filter(pred));
            assert forall|b: int, c: int| 0 <= b < t.projects[a].tasks.len() && 0 <= c < t.projects[a].tasks.len() && b != c implies (#[trigger] t.projects[a].tasks[b]).id
                != (#[trigger] t.projects[a].tasks[c]).id by {
                assert(key(ts.filter(pred)[b]) != key(ts.filter(pred)[c]));
            }
        } else {
            assert(t.projects[a] == s.projects[a]);
            assert forall|b: int, c: int| 0 <= b < ts.len() && 0 <= c < ts.len() && b != c implies (#[trigger] ts[b]).id
                != (#[trigger] ts[c]).id by {
                assert(s.projects[a].tasks[b].id != s.projects[a].tasks[c].id);
            }
        }
    }
    assert forall|a: int, b: int| 0 <= a < t.projects.len() && 0 <= b < t.projects[a].tasks.len() implies exists|c: int|
        0 <= c < s.projects[a].tasks.len() && #[trigger] t.projects[a].tasks[b] == s.projects[a].tasks[c] by {
        let ts = s.projects[a].tasks;
        if s.projects[a].id != pid {
            assert(t.projects[a].tasks[b] == ts[b]);
        } else {
            assert forall|x: int, y: int| 0 <= x < ts.len() && 0 <= y < ts.len() && x != y implies key(#[trigger] ts[x]) != key(#[trigger] ts[y]) by {
                assert(s.projects[a].tasks[x].id != s.projects[a].tasks[y].id);
            }
            lemma_filter_keeps_unique(ts, key, pred);
            assert(t.projects[a].tasks[b] == ts.filter(pred)[b]);
            let c = choose|c: int| 0 <= c < ts.len() && #[trigger] ts.filter(pred)[b] == ts[c];
            assert(t.projects[a].tasks[b] == ts[c]);
        }
    }
    assert forall|a: int| 0 <= a < t.projects.len() implies #[trigger] t.projects[a].id == s.projects[a].id by {}
    assert forall|i1: int, j1: int, i2: int, j2: int|
        0 <= i1 < t.projects.len() && 0 <= i2 < t.projects.len() && 0 <= j1 < t.projects[i1].tasks.len()
            && 0 <= j2 < t.projects[i2].tasks.len() && (i1 != i2 || j1 != j2)
        implies #[trigger] t.projects[i1].tasks[j1].id != #[trigger] t.projects[i2].tasks[j2].id by {
        if i1 == i2 {
            assert(distinct_ids(t.projects[i1].tasks));
        } else {
            let c1 = choose|c: int| 0 <= c < s.projects[i1].tasks.len() && t.projects[i1].tasks[j1] == s.projects[i1].tasks[c];
            let c2 = choose|c: int| 0 <= c < s.projects[i2].tasks.len() && t.projects[i2].tasks[j2] == s.projects[i2].tasks[c];
            assert(s.projects[i1].tasks[c1].id != s.projects[i2].tasks[c2].id);
        }
    }
    assert forall|a: int, b: int| 0 <= a < t.projects.len() && 0 <= b < t.projects[a].tasks.len() implies #[trigger] t.projects[a].tasks[b].id
        < t.next_task_id by {
        let c = choose|c: int| 0 <= c < s.projects[a].tasks.len() && t.projects[a].tasks[b] == s.projects[a].tasks[c];
        assert(s.projects[a].tasks[c].id < s.next_task_id);
    }
}

/// Every command keeps the state well formed, whatever its outcome, when an
/// add or a project creation starts below the id limits.
pub proof fn lemma_step_well_formed(s: AppStateModel, st: Step)
    requires
        well_formed(s),
        st is Add ==> s.next_task_id < usize::MAX,
        st matches Step::Add(_, true, _) ==> max_project_id(s.projects) < usize::MAX,
        st is CreateProject ==> max_project_id(s.projects) < usize::MAX,
    ensures
        well_formed(apply(s, st).0),
{
    match st {
        Step::Add(p, c, now) => lemma_add_well_formed(s, p, c, now),
        Step::Remove(p) => lemma_remove_well_formed(s, p),
        Step::Modify(p, now) => lemma_modify_well_formed(s, p, now),
        Step::Complete(p, now) => lemma_complete_well_formed(s, p, now),
        Step::CreateProject(p) => lemma_create_project_well_formed(s, p),
        Step::RemoveProject(p) => lemma_remove_project_well_formed(s, p),
        Step::RemoveTask(tid, pid) => lemma_remove_task_well_formed(s, tid, pid),
        Step::ModifyTask(tid, p, now) => lemma_modify_task_well_formed(s, tid, p, now),
    }
}

/// A priority read back from its storage code is the priority stored.
pub proof fn lemma_priority_code_round_trip(q: Priority)
    ensures
        priority_of_code(priority_code(q)) == q,
{
}

} // verus!
