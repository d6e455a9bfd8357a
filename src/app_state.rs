//! The application state: every project with its tasks, and the task-id
//! counter; one transition for each command.

use vstd::prelude::*;
use vstd::string::StringExecFns;

use crate::command::{Command, ParamsModel};
use crate::hierarchy::{built_task, current_time, task_from_command_at, Project, ProjectModel, Task, TaskModel, Timestamp};

verus! {

/// What the application state holds.
pub ghost struct AppStateModel {
    pub next_task_id: usize,
    pub projects: Seq<ProjectModel>,
}

/// The models of a sequence of projects.
pub open spec fn project_models(v: Seq<Project>) -> Seq<ProjectModel> {
    v.map_values(|p: Project| p@)
}

/// The models of a sequence of tasks.
pub open spec fn task_models(v: Seq<Task>) -> Seq<TaskModel> {
    v.map_values(|t: Task| t@)
}

/// The first index at or after `i` of a project called `name`, or the length.
pub open spec fn index_named(ps: Seq<ProjectModel>, name: Seq<char>, i: int) -> int
    decreases ps.len() - i,
{
    if i < 0 || i >= ps.len() {
        ps.len() as int
    } else if ps[i].name == name {
        i
    } else {
        index_named(ps, name, i + 1)
    }
}

/// The first index at or after `i` of a project with id `id`, or the length.
pub open spec fn index_of_id(ps: Seq<ProjectModel>, id: usize, i: int) -> int
    decreases ps.len() - i,
{
    if i < 0 || i >= ps.len() {
        ps.len() as int
    } else if ps[i].id == id {
        i
    } else {
        index_of_id(ps, id, i + 1)
    }
}

/// The first index at or after `j` of a task with id `tid`, or the length.
pub open spec fn task_index(ts: Seq<TaskModel>, tid: usize, j: int) -> int
    decreases ts.len() - j,
{
    if j < 0 || j >= ts.len() {
        ts.len() as int
    } else if ts[j].id == tid {
        j
    } else {
        task_index(ts, tid, j + 1)
    }
}

/// Whether a project holds a task with id `tid`.
pub open spec fn holds_task(p: ProjectModel, tid: usize) -> bool {
    task_index(p.tasks, tid, 0) < p.tasks.len()
}

/// The first index at or after `i` of a project holding task `tid`, or the length.
pub open spec fn holder_index(ps: Seq<ProjectModel>, tid: usize, i: int) -> int
    decreases ps.len() - i,
{
    if i < 0 || i >= ps.len() {
        ps.len() as int
    } else if holds_task(ps[i], tid) {
        i
    } else {
        holder_index(ps, tid, i + 1)
    }
}

/// The largest project id, or 0 when there is no project.
pub open spec fn max_project_id(ps: Seq<ProjectModel>) -> nat
    decreases ps.len(),
{
    if ps.len() == 0 {
        0
    } else {
        let m = max_project_id(ps.drop_last());
        if ps.last().id > m {
            ps.last().id as nat
        } else {
            m
        }
    }
}

/// A new top-level project without tasks.
pub open spec fn fresh_project(name: Seq<char>, id: usize) -> ProjectModel {
    ProjectModel { name, id, parent_id: 0, tasks: Seq::empty() }
}

/// The project name that a command gives: its project flag, else its first free word.
pub open spec fn named_project(p: ParamsModel) -> Option<Seq<char>> {
    match p.project {
        Some(n) => Some(n),
        None => if p.tasks.len() > 0 {
            Some(p.tasks[0])
        } else {
            None
        },
    }
}

/// The text of a failed outcome, `None` for success.
pub open spec fn error_text(r: Result<(), &'static str>) -> Option<Seq<char>> {
    match r {
        Ok(_) => None,
        Err(e) => Some(e@),
    }
}

/// Creating the project that a command names.
pub open spec fn create_project_outcome(s: AppStateModel, p: ParamsModel) -> (AppStateModel, Option<Seq<char>>) {
    match named_project(p) {
        None => (s, Some("project name required"@)),
        Some(n) => if index_named(s.projects, n, 0) < s.projects.len() {
            (s, Some("project already exists"@))
        } else {
            (
                AppStateModel {
                    projects: s.projects.push(fresh_project(n, (max_project_id(s.projects) + 1) as usize)),
                    ..s
                },
                None,
            )
        },
    }
}

/// Removing the project that a command names.
pub open spec fn remove_project_outcome(s: AppStateModel, p: ParamsModel) -> (AppStateModel, Option<Seq<char>>) {
    match named_project(p) {
        None => (s, Some("project name required"@)),
        Some(n) => {
            let k = index_named(s.projects, n, 0);
            if k >= s.projects.len() {
                (s, Some("project not found"@))
            } else {
                let id = s.projects[k].id;
                let h = index_of_id(s.projects, id, 0);
                if id == 0 {
                    (s, Some("cannot remove Home project"@))
                } else if h < s.projects.len() && s.projects[h].tasks.len() > 0 && !p.force {
                    (s, Some("project has tasks, use --force to remove anyway"@))
                } else {
                    (
                        AppStateModel {
                            projects: s.projects.filter(|q: ProjectModel| q.id != id),
                            ..s
                        },
                        None,
                    )
                }
            }
        },
    }
}

/// The project that a task lookup lands on: the first holding a task with id
/// `tid`, with the position of the first such task in it.
pub open spec fn task_position(s: AppStateModel, tid: usize) -> Option<(int, int)> {
    let i = holder_index(s.projects, tid, 0);
    if i < s.projects.len() {
        Some((i, task_index(s.projects[i].tasks, tid, 0)))
    } else {
        None
    }
}

/// `s` with the task at position `(i, j)` replaced by `t`.
pub open spec fn with_task(s: AppStateModel, i: int, j: int, t: TaskModel) -> AppStateModel {
    AppStateModel {
        projects: s.projects.update(
            i,
            ProjectModel { tasks: s.projects[i].tasks.update(j, t), ..s.projects[i] },
        ),
        ..s
    }
}

/// Removing the task that a command names by id.
pub open spec fn remove_outcome(s: AppStateModel, p: ParamsModel) -> (AppStateModel, Option<Seq<char>>) {
    match p.task_id {
        None => (s, Some("task ID required"@)),
        Some(tid) => match task_position(s, tid) {
            None => (s, Some("task not found"@)),
            Some((i, _)) => (
                AppStateModel {
                    projects: s.projects.update(
                        i,
                        ProjectModel {
                            tasks: s.projects[i].tasks.filter(|t: TaskModel| t.id != tid),
                            ..s.projects[i]
                        },
                    ),
                    ..s
                },
                None,
            ),
        },
    }
}

/// Rebuilding the task that a command names by id from the command's fields,
/// created at `now`; the task keeps its id and project.
pub open spec fn modify_outcome(s: AppStateModel, p: ParamsModel, now: Timestamp) -> (AppStateModel, Option<Seq<char>>) {
    match p.task_id {
        None => (s, Some("task ID required"@)),
        Some(tid) => match task_position(s, tid) {
            None => (s, Some("task not found"@)),
            Some((i, j)) => if p.tasks.len() == 0 {
                (s, Some("invalid command fields"@))
            } else {
                (
                    with_task(s, i, j, built_task(p, tid, s.projects[i].tasks[j].project_id, now)),
                    None,
                )
            },
        },
    }
}

/// Marking the task that a command names by id as completed at `now`.
pub open spec fn complete_outcome(s: AppStateModel, p: ParamsModel, now: Timestamp) -> (AppStateModel, Option<Seq<char>>) {
    match p.task_id {
        None => (s, Some("task ID required"@)),
        Some(tid) => match task_position(s, tid) {
            None => (s, Some("task not found"@)),
            Some((i, j)) => (
                with_task(
                    s,
                    i,
                    j,
                    TaskModel { completed_at: Some(now), ..s.projects[i].tasks[j] },
                ),
                None,
            ),
        },
    }
}

/// Where the task that a command names by id stands, or why it cannot be shown.
pub open spec fn show_outcome(s: AppStateModel, p: ParamsModel) -> Result<(int, int), Seq<char>> {
    match p.task_id {
        None => Err("task ID required"@),
        Some(tid) => match task_position(s, tid) {
            None => Err("task not found"@),
            Some(ij) => Ok(ij),
        },
    }
}

/// The state in which an added task is placed, with the id of its project:
/// the named project, created if it is missing, or the project with id 0.
pub open spec fn add_target(s: AppStateModel, p: ParamsModel) -> (AppStateModel, usize) {
    match p.project {
        None => (s, 0),
        Some(n) => {
            let k = index_named(s.projects, n, 0);
            if k < s.projects.len() {
                (s, s.projects[k].id)
            } else {
                let id = (max_project_id(s.projects) + 1) as usize;
                (AppStateModel { projects: s.projects.push(fresh_project(n, id)), ..s }, id)
            }
        },
    }
}

/// Adding the task that a command describes, created at `now`. `confirm` is
/// the user's answer to whether a missing project should be created.
pub open spec fn add_outcome(s: AppStateModel, p: ParamsModel, confirm: bool, now: Timestamp) -> (AppStateModel, Option<Seq<char>>) {
    if p.project.is_some() && index_named(s.projects, p.project.unwrap(), 0) >= s.projects.len()
        && !confirm {
        (s, Some("project not created"@))
    } else {
        let (s1, pid) = add_target(s, p);
        let h = index_of_id(s1.projects, pid, 0);
        if p.tasks.len() == 0 {
            (s1, Some("missing task name"@))
        } else if h >= s1.projects.len() {
            (s1, Some("project not found"@))
        } else {
            (
                AppStateModel {
                    next_task_id: (s.next_task_id + 1) as usize,
                    projects: s1.projects.update(
                        h,
                        ProjectModel {
                            tasks: s1.projects[h].tasks.push(built_task(p, s.next_task_id, pid, now)),
                            ..s1.projects[h]
                        },
                    ),
                },
                None,
            )
        }
    }
}

/// Dropping task `tid` from every project with id `pid`.
pub open spec fn remove_task_outcome(s: AppStateModel, tid: usize, pid: usize) -> AppStateModel {
    AppStateModel {
        projects: Seq::new(
            s.projects.len(),
            |k: int|
                if s.projects[k].id == pid {
                    ProjectModel {
                        tasks: s.projects[k].tasks.filter(|t: TaskModel| t.id != tid),
                        ..s.projects[k]
                    }
                } else {
                    s.projects[k]
                },
        ),
        ..s
    }
}

/// Rebuilding task `tid` from a command's fields, created at `now`; the task
/// keeps its id and project. Nothing changes when no task has that id.
pub open spec fn modify_task_outcome(s: AppStateModel, tid: usize, p: ParamsModel, now: Timestamp) -> AppStateModel {
    match task_position(s, tid) {
        None => s,
        Some((i, j)) => with_task(s, i, j, built_task(p, tid, s.projects[i].tasks[j].project_id, now)),
    }
}

/// One line of a project outline: a project or a task, at a depth.
#[derive(Debug)]
pub struct OutlineLine {
    pub depth: usize,
    pub is_task: bool,
    pub name: String,
}

/// The depth, kind and name of each outline line.
pub open spec fn outline_view(v: Seq<OutlineLine>) -> Seq<(nat, bool, Seq<char>)> {
    v.map_values(|l: OutlineLine| (l.depth as nat, l.is_task, l.name@))
}

/// The projects directly under project `pid`, in order; a project is never
/// its own child.
pub open spec fn children(ps: Seq<ProjectModel>, pid: usize) -> Seq<ProjectModel> {
    ps.filter(|q: ProjectModel| q.parent_id == pid && q.id != pid)
}

/// The outline of the project with id `pid` at `depth`: its name, its tasks one
/// level deeper, then the outline of each child. `fuel` bounds how many levels
/// are entered.
pub open spec fn subtree(ps: Seq<ProjectModel>, pid: usize, depth: nat, fuel: nat) -> Seq<(nat, bool, Seq<char>)>
    decreases fuel, 0nat,
{
    if fuel == 0 {
        Seq::empty()
    } else {
        let k = index_of_id(ps, pid, 0);
        if k < 0 || k >= ps.len() {
            Seq::empty()
        } else {
            let p = ps[k];
            seq![(depth, false, p.name)] + p.tasks.map_values(
                |t: TaskModel| (depth + 1, true, t.name),
            ) + forest(ps, children(ps, p.id), depth + 1, (fuel - 1) as nat)
        }
    }
}

/// The outlines of `kids`, one after another.
pub open spec fn forest(ps: Seq<ProjectModel>, kids: Seq<ProjectModel>, depth: nat, fuel: nat) -> Seq<(nat, bool, Seq<char>)>
    decreases fuel, kids.len(),
{
    if kids.len() == 0 {
        Seq::empty()
    } else {
        forest(ps, kids.drop_last(), depth, fuel) + subtree(ps, kids.last().id, depth, fuel)
    }
}

/// No two tasks, in any projects, share an id.
pub open spec fn unique_task_ids(s: AppStateModel) -> bool {
    forall|i1: int, j1: int, i2: int, j2: int|
        0 <= i1 < s.projects.len() && 0 <= i2 < s.projects.len() && 0 <= j1 < s.projects[i1].tasks.len()
            && 0 <= j2 < s.projects[i2].tasks.len() && (i1 != i2 || j1 != j2)
            ==> #[trigger] s.projects[i1].tasks[j1].id != #[trigger] s.projects[i2].tasks[j2].id
}

/// No two projects share an id.
pub open spec fn unique_project_ids(s: AppStateModel) -> bool {
    forall|a: int, b: int|
        0 <= a < s.projects.len() && 0 <= b < s.projects.len() && a != b ==> #[trigger] s.projects[a].id
            != #[trigger] s.projects[b].id
}

/// Every task id is below the counter, so the counter's value is free.
pub open spec fn ids_below_counter(s: AppStateModel) -> bool {
    forall|i: int, j: int|
        0 <= i < s.projects.len() && 0 <= j < s.projects[i].tasks.len() ==> #[trigger] s.projects[i].tasks[j].id
            < s.next_task_id
}

/// The state's invariant: project ids are unique, task ids are unique across
/// all projects, and the counter is above every task id.
pub open spec fn well_formed(s: AppStateModel) -> bool {
    &&& unique_project_ids(s)
    &&& unique_task_ids(s)
    &&& ids_below_counter(s)
}

/// The application state: projects, each owning its tasks, and the counter
/// from which task ids are drawn.
#[derive(Debug)]
pub struct AppState {
    next_task_id: usize,
    projects: Vec<Project>,
}

impl View for AppState {
    type V = AppStateModel;

    closed spec fn view(&self) -> AppStateModel {
        AppStateModel { next_task_id: self.next_task_id, projects: project_models(self.projects@) }
    }
}

/// Removes from `v` every project with id `id`, keeping the order of the rest.
fn drop_projects_with_id(v: &mut Vec<Project>, id: usize)
    ensures
        project_models(final(v)@) == project_models(old(v)@).filter(|q: ProjectModel| q.id != id),
{
    let ghost orig = project_models(v@);
    let ghost pred = |q: ProjectModel| q.id != id;
    let mut rest: Vec<Project> = Vec::new();
    std::mem::swap(v, &mut rest);
    let ghost c: int = 0;
    while rest.len() > 0
        invariant
            0 <= c <= orig.len(),
            pred == (|q: ProjectModel| q.id != id),
            project_models(rest@) == orig.subrange(c, orig.len() as int),
            project_models(v@) == orig.subrange(0, c).filter(pred),
        decreases rest.len(),
    {
        let ghost old_rest = rest@;
        assert(project_models(old_rest).len() == old_rest.len());
        let q = rest.remove(0);
        proof {
            assert(project_models(old_rest)[0] == orig[c]);
            assert forall|k: int| 0 <= k < rest@.len() implies #[trigger] project_models(rest@)[k] == orig[c + 1 + k] by {
                assert(rest@[k] == old_rest[k + 1]);
                assert(project_models(old_rest)[k + 1] == orig.subrange(c, orig.len() as int)[k + 1]);
            }
            reveal(Seq::filter);
            assert(project_models(rest@) =~= orig.subrange(c + 1, orig.len() as int));
            assert(orig.subrange(0, c + 1).drop_last() =~= orig.subrange(0, c));
            assert(q@ == orig[c]);
        }
        let ghost before = v@;
        if q.id != id {
            v.push(q);
            assert(project_models(v@) =~= project_models(before).push(orig[c]));
        }
        proof {
            reveal(Seq::filter);
            let s1 = orig.subrange(0, c + 1);
            assert(s1.last() == orig[c]);
            assert(s1.drop_last() =~= orig.subrange(0, c));
            c = c + 1;
        }
    }
    assert(orig.subrange(0, c) =~= orig);
}

/// Removes from `v` every task with id `tid`, keeping the order of the rest.
fn drop_tasks_with_id(v: &mut Vec<Task>, tid: usize)
    ensures
        task_models(final(v)@) == task_models(old(v)@).filter(|t: TaskModel| t.id != tid),
{
    let ghost orig = task_models(v@);
    let ghost pred = |t: TaskModel| t.id != tid;
    let mut rest: Vec<Task> = Vec::new();
    std::mem::swap(v, &mut rest);
    let ghost c: int = 0;
    while rest.len() > 0
        invariant
            0 <= c <= orig.len(),
            pred == (|t: TaskModel| t.id != tid),
            task_models(rest@) == orig.subrange(c, orig.len() as int),
            task_models(v@) == orig.subrange(0, c).filter(pred),
        decreases rest.len(),
    {
        let ghost old_rest = rest@;
        assert(task_models(old_rest).len() == old_rest.len());
        let t = rest.remove(0);
        proof {
            assert(task_models(old_rest)[0] == orig[c]);
            assert forall|k: int| 0 <= k < rest@.len() implies #[trigger] task_models(rest@)[k] == orig[c + 1 + k] by {
                assert(rest@[k] == old_rest[k + 1]);
                assert(task_models(old_rest)[k + 1] == orig.subrange(c, orig.len() as int)[k + 1]);
            }
            reveal(Seq::filter);
            assert(task_models(rest@) =~= orig.subrange(c + 1, orig.len() as int));
            assert(orig.subrange(0, c + 1).drop_last() =~= orig.subrange(0, c));
            assert(t@ == orig[c]);
        }
        let ghost before = v@;
        if t.id() != tid {
            v.push(t);
            assert(task_models(v@) =~= task_models(before).push(orig[c]));
        }
        proof {
            reveal(Seq::filter);
            let s1 = orig.subrange(0, c + 1);
            assert(s1.last() == orig[c]);
            assert(s1.drop_last() =~= orig.subrange(0, c));
            c = c + 1;
        }
    }
    assert(orig.subrange(0, c) =~= orig);
}

impl AppState {
    /// The id of the first project called `name`, if any.
    pub fn find_project_id(&self, name: &str) -> (r: Option<usize>)
        ensures
            ({
                let ps = self@.projects;
                let k = index_named(ps, name@, 0);
                r == if k < ps.len() {
                    Some(ps[k].id)
                } else {
                    None
                }
            }),
    {
        let ghost ps = self@.projects;
        let mut i: usize = 0;
        while i < self.projects.len()
            invariant
                i <= self.projects.len(),
                ps == self@.projects,
                index_named(ps, name@, 0) == index_named(ps, name@, i as int),
            decreases self.projects.len() - i,
        {
            assert(ps[i as int] == self.projects[i as int]@);
            if crate::text::same_text(self.projects[i].name.as_str(), name) {
                return Some(self.projects[i].id);
            }
            i = i + 1;
        }
        None
    }

    /// The largest project id, or 0 when there is no project.
    fn max_project_id(&self) -> (r: usize)
        ensures
            r as nat == max_project_id(self@.projects),
    {
        let ghost ps = self@.projects;
        let mut m: usize = 0;
        let mut i: usize = 0;
        while i < self.projects.len()
            invariant
                i <= self.projects.len(),
                ps == self@.projects,
                m as nat == max_project_id(ps.subrange(0, i as int)),
            decreases self.projects.len() - i,
        {
            assert(ps.subrange(0, i + 1).drop_last() =~= ps.subrange(0, i as int));
            assert(ps[i as int] == self.projects[i as int]@);
            if self.projects[i].id > m {
                m = self.projects[i].id;
            }
            i = i + 1;
        }
        assert(ps.subrange(0, i as int) =~= ps);
        m
    }

    /// Appends a new top-level project called `name`, with an id one above the
    /// largest in use, and returns that id.
    fn create_project(&mut self, name: String) -> (r: usize)
        requires
            max_project_id(old(self)@.projects) < usize::MAX,
        ensures
            r == max_project_id(old(self)@.projects) + 1,
            final(self)@ == (AppStateModel {
                projects: old(self)@.projects.push(fresh_project(name@, r)),
                ..old(self)@
            }),
    {
        let id = self.max_project_id() + 1;
        let ghost before = self.projects@;
        self.projects.push(Project { name, id, parent_id: 0, tasks: Vec::new() });
        assert(task_models(Seq::<Task>::empty()) =~= Seq::empty());
        assert(project_models(self.projects@) =~= project_models(before).push(
            fresh_project(self.projects@.last().name@, id),
        ));
        id
    }

    /// Creates the project that the command names, by its project flag or
    /// else its first free word.
    pub fn handle_create_project(&mut self, cmd: &Command) -> (r: Result<(), &'static str>)
        requires
            max_project_id(old(self)@.projects) < usize::MAX,
        ensures
            (final(self)@, error_text(r)) == create_project_outcome(old(self)@, cmd@.parameters),
    {
        let parameters = cmd.parameters();
        let (project_name, _, _) = parameters.fields();
        let name = match project_name {
            Some(n) => n.clone(),
            None => {
                if parameters.tasks().len() == 0 {
                    return Err("project name required");
                }
                parameters.tasks()[0].clone()
            },
        };
        if self.find_project_id(name.as_str()).is_some() {
            return Err("project already exists");
        }
        self.create_project(name);
        Ok(())
    }

    /// Removes the project that the command names; Home cannot be removed,
    /// and a project with tasks only with force.
    pub fn handle_remove_project(&mut self, cmd: &Command) -> (r: Result<(), &'static str>)
        ensures
            (final(self)@, error_text(r)) == remove_project_outcome(old(self)@, cmd@.parameters),
    {
        let parameters = cmd.parameters();
        let (project_name, _, _) = parameters.fields();
        let force = parameters.force();
        let name = match project_name {
            Some(n) => n.clone(),
            None => {
                if parameters.tasks().len() == 0 {
                    return Err("project name required");
                }
                parameters.tasks()[0].clone()
            },
        };
        let project_id = match self.find_project_id(name.as_str()) {
            Some(id) => id,
            None => {
                return Err("project not found");
            },
        };
        if project_id == 0 {
            return Err("cannot remove Home project");
        }
        let ghost ps = self@.projects;
        let mut h: usize = 0;
        while h < self.projects.len() && self.projects[h].id != project_id
            invariant
                h <= self.projects.len(),
                ps == self@.projects,
                index_of_id(ps, project_id, 0) == index_of_id(ps, project_id, h as int),
            decreases self.projects.len() - h,
        {
            assert(ps[h as int] == self.projects[h as int]@);
            h = h + 1;
        }
        if h < self.projects.len() {
            assert(ps[h as int] == self.projects[h as int]@);
            assert(ps[h as int].tasks.len() == self.projects[h as int].tasks.len());
            if self.projects[h].tasks.len() > 0 && !force {
                return Err("project has tasks, use --force to remove anyway");
            }
        }
        drop_projects_with_id(&mut self.projects, project_id);
        Ok(())
    }

    /// The position of the first task with id `tid`, in the first project that
    /// holds one.
    fn locate_task(&self, tid: usize) -> (r: Option<(usize, usize)>)
        ensures
            r.is_none() <==> task_position(self@, tid).is_none(),
            r matches Some((i, j)) ==> task_position(self@, tid) == Some((i as int, j as int)),
            r matches Some((i, j)) ==> i < self@.projects.len() && j < self@.projects[i as int].tasks.len()
                && self@.projects[i as int] == self.projects@[i as int]@,
    {
        let ghost ps = self@.projects;
        let mut i: usize = 0;
        while i < self.projects.len()
            invariant
                i <= self.projects.len(),
                ps == self@.projects,
                holder_index(ps, tid, 0) == holder_index(ps, tid, i as int),
            decreases self.projects.len() - i,
        {
            let tasks = &self.projects[i].tasks;
            assert(ps[i as int] == self.projects@[i as int]@);
            let ghost ts = ps[i as int].tasks;
            assert(ts == task_models(tasks@));
            let mut j: usize = 0;
            while j < tasks.len()
                invariant
                    j <= tasks.len(),
                    i < self.projects.len(),
                    ps == self@.projects,
                    ts == ps[i as int].tasks,
                    ps[i as int] == self.projects@[i as int]@,
                    holder_index(ps, tid, 0) == holder_index(ps, tid, i as int),
                    ts == task_models(tasks@),
                    task_index(ts, tid, 0) == task_index(ts, tid, j as int),
                decreases tasks.len() - j,
            {
                assert(ts[j as int] == tasks[j as int]@);
                if tasks[j].id() == tid {
                    assert(task_index(ts, tid, j as int) == j);
                    assert(holds_task(ps[i as int], tid));
                    assert(holder_index(ps, tid, i as int) == i);
                    return Some((i, j));
                }
                j = j + 1;
            }
            i = i + 1;
        }
        None
    }

    /// The index of the first project with id `id`, or the number of projects.
    fn index_of_id(&self, id: usize) -> (r: usize)
        ensures
            r as int == index_of_id(self@.projects, id, 0),
    {
        let ghost ps = self@.projects;
        let mut h: usize = 0;
        while h < self.projects.len() && self.projects[h].id != id
            invariant
                h <= self.projects.len(),
                ps == self@.projects,
                index_of_id(ps, id, 0) == index_of_id(ps, id, h as int),
            decreases self.projects.len() - h,
        {
            assert(ps[h as int] == self.projects[h as int]@);
            h = h + 1;
        }
        if h < self.projects.len() {
            assert(ps[h as int] == self.projects[h as int]@);
        }
        h
    }

    /// Replaces the task at position `(i, j)`.
    fn set_task(&mut self, i: usize, j: usize, t: Task)
        requires
            i < old(self)@.projects.len(),
            j < old(self)@.projects[i as int].tasks.len(),
        ensures
            final(self)@ == with_task(old(self)@, i as int, j as int, t@),
    {
        let ghost before = self@;
        self.projects[i].tasks.set(j, t);
        assert(task_models(self.projects[i as int].tasks@) =~= before.projects[i as int].tasks.update(j as int, t@));
        assert(self@.projects =~= with_task(before, i as int, j as int, t@).projects);
    }

    /// Removes the task that the command names by id from the first project
    /// that holds it.
    pub fn handle_remove(&mut self, cmd: &Command) -> (r: Result<(), &'static str>)
        ensures
            (final(self)@, error_text(r)) == remove_outcome(old(self)@, cmd@.parameters),
    {
        let tid = match cmd.parameters().task_id() {
            Some(t) => t,
            None => {
                return Err("task ID required");
            },
        };
        match self.locate_task(tid) {
            None => Err("task not found"),
            Some((i, _)) => {
                let ghost before = self@;
                drop_tasks_with_id(&mut self.projects[i].tasks, tid);
                assert(self@.projects =~= remove_outcome(before, cmd@.parameters).0.projects);
                Ok(())
            },
        }
    }

    /// As `handle_modify`, with `now` as the rebuilt task's creation time.
    pub fn handle_modify_at(&mut self, cmd: &Command, now: Timestamp) -> (r: Result<(), &'static str>)
        ensures
            (final(self)@, error_text(r)) == modify_outcome(old(self)@, cmd@.parameters, now),
    {
        let tid = match cmd.parameters().task_id() {
            Some(t) => t,
            None => {
                return Err("task ID required");
            },
        };
        match self.locate_task(tid) {
            None => Err("task not found"),
            Some((i, j)) => {
                let project_id = self.projects[i].tasks[j].project_id();
                assert(self.projects[i as int].tasks[j as int]@ == self@.projects[i as int].tasks[j as int]);
                match task_from_command_at(cmd, tid, project_id, now) {
                    Err(_) => Err("invalid command fields"),
                    Ok(t) => {
                        self.set_task(i, j, t);
                        Ok(())
                    },
                }
            },
        }
    }

    /// Rebuilds the task that the command names by id from the command's
    /// fields, keeping its id and project; it is created anew, now.
    pub fn handle_modify(&mut self, cmd: &Command) -> (r: Result<(), &'static str>)
        ensures
            exists|now: Timestamp|
                (final(self)@, error_text(r)) == #[trigger] modify_outcome(old(self)@, cmd@.parameters, now),
    {
        let now = current_time();
        self.handle_modify_at(cmd, now)
    }

    /// As `handle_complete`, with `now` as the completion time.
    pub fn handle_complete_at(&mut self, cmd: &Command, now: Timestamp) -> (r: Result<(), &'static str>)
        ensures
            (final(self)@, error_text(r)) == complete_outcome(old(self)@, cmd@.parameters, now),
    {
        let tid = match cmd.parameters().task_id() {
            Some(t) => t,
            None => {
                return Err("task ID required");
            },
        };
        match self.locate_task(tid) {
            None => Err("task not found"),
            Some((i, j)) => {
                let ghost before = self@;
                self.projects[i].tasks[j].mark_complete(now);
                assert(task_models(self.projects[i as int].tasks@) =~= complete_outcome(
                    before,
                    cmd@.parameters,
                    now,
                ).0.projects[i as int].tasks);
                assert(self@.projects =~= complete_outcome(before, cmd@.parameters, now).0.projects);
                Ok(())
            },
        }
    }

    /// Marks the task that the command names by id as completed now.
    pub fn handle_complete(&mut self, cmd: &Command) -> (r: Result<(), &'static str>)
        ensures
            exists|now: Timestamp|
                (final(self)@, error_text(r)) == #[trigger] complete_outcome(old(self)@, cmd@.parameters, now),
    {
        let now = current_time();
        self.handle_complete_at(cmd, now)
    }

    /// The task that the command names by id, with the project that holds it.
    pub fn handle_show(&self, cmd: &Command) -> (r: Result<(&Project, &Task), &'static str>)
        ensures
            match show_outcome(self@, cmd@.parameters) {
                Ok((i, j)) => r matches Ok((p, t)) && p@ == self@.projects[i] && t@ == self@.projects[i].tasks[j],
                Err(e) => r matches Err(m) && m@ == e,
            },
    {
        let tid = match cmd.parameters().task_id() {
            Some(t) => t,
            None => {
                return Err("task ID required");
            },
        };
        match self.locate_task(tid) {
            None => Err("task not found"),
            Some((i, j)) => {
                let p = &self.projects[i];
                assert(p.tasks@[j as int]@ == self@.projects[i as int].tasks[j as int]);
                Ok((p, &p.tasks[j]))
            },
        }
    }

    /// As `handle_add`, with `now` as the new task's creation time.
    pub fn handle_add_at(&mut self, cmd: &Command, confirm: bool, now: Timestamp) -> (r: Result<(), &'static str>)
        requires
            old(self)@.next_task_id < usize::MAX,
            confirm ==> max_project_id(old(self)@.projects) < usize::MAX,
        ensures
            (final(self)@, error_text(r)) == add_outcome(old(self)@, cmd@.parameters, confirm, now),
    {
        let ghost s0 = self@;
        let parameters = cmd.parameters();
        let (project_name, _, _) = parameters.fields();
        let project_id = match project_name {
            None => 0,
            Some(name) => match self.find_project_id(name.as_str()) {
                Some(id) => id,
                None => {
                    if !confirm {
                        return Err("project not created");
                    }
                    self.create_project(name.clone())
                },
            },
        };
        assert((self@, project_id) == add_target(s0, cmd@.parameters));
        if parameters.tasks().len() == 0 {
            return Err("missing task name");
        }
        let h = self.index_of_id(project_id);
        if h >= self.projects.len() {
            return Err("project not found");
        }
        let id = self.next_task_id;
        let task = match task_from_command_at(cmd, id, project_id, now) {
            Ok(t) => t,
            Err(e) => {
                return Err(e);
            },
        };
        let ghost s1 = self@;
        self.next_task_id = id + 1;
        self.projects[h].tasks.push(task);
        assert(task_models(self.projects[h as int].tasks@) =~= s1.projects[h as int].tasks.push(
            built_task(cmd@.parameters, id, project_id, now),
        ));
        assert(self@.projects =~= add_outcome(s0, cmd@.parameters, confirm, now).0.projects);
        Ok(())
    }

    /// Adds the task that the command describes to its project, created now,
    /// with the next task id. `confirm` is the user's answer to whether a
    /// named project that does not exist should be created.
    pub fn handle_add(&mut self, cmd: &Command, confirm: bool) -> (r: Result<(), &'static str>)
        requires
            old(self)@.next_task_id < usize::MAX,
            confirm ==> max_project_id(old(self)@.projects) < usize::MAX,
        ensures
            exists|now: Timestamp|
                (final(self)@, error_text(r)) == #[trigger] add_outcome(old(self)@, cmd@.parameters, confirm, now),
    {
        let now = current_time();
        self.handle_add_at(cmd, confirm, now)
    }

    /// A state from stored projects and counter; with no project stored, the
    /// state holds the Home project alone.
    pub fn new(projects: Vec<Project>, next_task_id: usize) -> (r: Self)
        ensures
            r@.next_task_id == next_task_id,
            projects@.len() == 0 ==> well_formed(r@),
            r@.projects == if projects@.len() == 0 {
                seq![fresh_project("Home"@, 0)]
            } else {
                project_models(projects@)
            },
    {
        if projects.len() == 0 {
            let v = vec![Project { name: String::from_str("Home"), id: 0, parent_id: 0, tasks: Vec::new() }];
            let r = AppState { next_task_id, projects: v };
            assert(task_models(Seq::<Task>::empty()) =~= Seq::empty());
            assert(r@.projects =~= seq![fresh_project("Home"@, 0)]);
            r
        } else {
            AppState { next_task_id, projects }
        }
    }

    /// Appends to `out` the outline of project `pid` at `depth`, entering at
    /// most `fuel` levels.
    fn outline_into(&self, pid: usize, depth: usize, fuel: usize, out: &mut Vec<OutlineLine>)
        requires
            depth + fuel <= usize::MAX,
        ensures
            outline_view(final(out)@) == outline_view(old(out)@) + subtree(self@.projects, pid, depth as nat, fuel as nat),
        decreases fuel,
    {
        let ghost ps = self@.projects;
        if fuel == 0 {
            assert(outline_view(out@) =~= outline_view(out@) + subtree(ps, pid, depth as nat, fuel as nat));
            return;
        }
        let k = self.index_of_id(pid);
        if k >= self.projects.len() {
            assert(outline_view(out@) =~= outline_view(out@) + subtree(ps, pid, depth as nat, fuel as nat));
            return;
        }
        let ghost out0 = outline_view(out@);
        let p = &self.projects[k];
        assert(ps[k as int] == p@);
        let ghost head = seq![(depth as nat, false, p.name@)];
        out.push(OutlineLine { depth, is_task: false, name: p.name.clone() });
        assert(outline_view(out@) =~= out0 + head);
        let ghost tm = p@.tasks.map_values(|t: TaskModel| (depth as nat + 1, true, t.name));
        let mut j: usize = 0;
        while j < p.tasks.len()
            invariant
                j <= p.tasks.len(),
                depth < usize::MAX,
                p@.tasks.len() == p.tasks.len(),
                tm == p@.tasks.map_values(|t: TaskModel| (depth as nat + 1, true, t.name)),
                outline_view(out@) =~= out0 + head + tm.subrange(0, j as int),
            decreases p.tasks.len() - j,
        {
            let ghost before = outline_view(out@);
            assert(p@.tasks[j as int] == p.tasks@[j as int]@);
            out.push(OutlineLine { depth: depth + 1, is_task: true, name: p.tasks[j].name().clone() });
            assert(outline_view(out@) =~= before.push(tm[j as int]));
            assert(tm.subrange(0, j + 1) =~= tm.subrange(0, j as int).push(tm[j as int]));
            j = j + 1;
        }
        assert(tm.subrange(0, j as int) =~= tm);
        let ghost pred = |q: ProjectModel| q.parent_id == p.id && q.id != p.id;
        let ghost mid = outline_view(out@);
        let mut c: usize = 0;
        while c < self.projects.len()
            invariant
                c <= self.projects.len(),
                ps == self@.projects,
                depth + fuel <= usize::MAX,
                fuel > 0,
                pred == (|q: ProjectModel| q.parent_id == p.id && q.id != p.id),
                outline_view(out@) == mid + forest(
                    ps,
                    ps.subrange(0, c as int).filter(pred),
                    depth as nat + 1,
                    (fuel - 1) as nat,
                ),
            decreases self.projects.len() - c,
        {
            let q = &self.projects[c];
            assert(ps[c as int] == q@);
            proof {
                reveal(Seq::filter);
                let s1 = ps.subrange(0, c + 1);
                assert(s1.last() == ps[c as int]);
                assert(s1.drop_last() =~= ps.subrange(0, c as int));
            }
            if q.parent_id == p.id && q.id != p.id {
                let ghost kids = ps.subrange(0, c + 1).filter(pred);
                assert(kids.drop_last() == ps.subrange(0, c as int).filter(pred));
                assert(kids.last() == q@);
                self.outline_into(q.id, depth + 1, fuel - 1, out);
                assert(outline_view(out@) =~= mid + forest(ps, kids, depth as nat + 1, (fuel - 1) as nat));
            }
            c = c + 1;
        }
        assert(ps.subrange(0, c as int) =~= ps);
        assert(outline_view(out@) =~= out0 + subtree(ps, pid, depth as nat, fuel as nat));
    }

    /// The outline of the project with id `project_id` and the projects under
    /// it. Each level entered uses up one of as many levels as there are
    /// projects, so a cycle of parents ends.
    pub fn handle_list(&self, project_id: usize) -> (r: Vec<OutlineLine>)
        ensures
            outline_view(r@) == subtree(self@.projects, project_id, 0, self@.projects.len()),
    {
        let mut out: Vec<OutlineLine> = Vec::new();
        self.outline_into(project_id, 0, self.projects.len(), &mut out);
        assert(outline_view(Seq::<OutlineLine>::empty()) =~= Seq::empty());
        assert(outline_view(out@) =~= subtree(self@.projects, project_id, 0, self@.projects.len()));
        out
    }

    /// Drops task `id` from every project with id `project_id`.
    pub fn handle_remove_task(&mut self, id: usize, project_id: usize)
        ensures
            final(self)@ == remove_task_outcome(old(self)@, id, project_id),
    {
        let ghost s0 = self@;
        let ghost target = remove_task_outcome(s0, id, project_id);
        let mut k: usize = 0;
        while k < self.projects.len()
            invariant
                k <= self.projects.len(),
                self.projects.len() == s0.projects.len(),
                self@.next_task_id == s0.next_task_id,
                target == remove_task_outcome(s0, id, project_id),
                forall|m: int| 0 <= m < k ==> #[trigger] self@.projects[m] == target.projects[m],
                forall|m: int| k <= m < s0.projects.len() ==> #[trigger] self@.projects[m] == s0.projects[m],
            decreases self.projects.len() - k,
        {
            let ghost prev = self.projects@;
            assert(self@.projects[k as int] == s0.projects[k as int]);
            assert(s0.projects[k as int] == prev[k as int]@);
            if self.projects[k].id == project_id {
                drop_tasks_with_id(&mut self.projects[k].tasks, id);
            }
            assert(forall|m: int| 0 <= m < prev.len() && m != k ==> self.projects@[m] == prev[m]);
            assert(self@.projects[k as int] == target.projects[k as int]);
            assert forall|m: int| 0 <= m < k implies #[trigger] self@.projects[m] == target.projects[m] by {
                assert(self.projects@[m] == prev[m]);
                assert(project_models(prev)[m] == target.projects[m]);
            }
            assert forall|m: int| 0 <= m < prev.len() && m != k implies #[trigger] self@.projects[m] == project_models(prev)[m] by {
                assert(self.projects@[m] == prev[m]);
            }
            k = k + 1;
        }
        assert(self@.projects =~= target.projects);
    }

    /// Rebuilds task `id` from the command's fields, keeping its id and
    /// project; it is created anew, now. Nothing changes when no task has
    /// that id.
    pub fn handle_modify_task(&mut self, id: usize, command: &Command)
        requires
            command@.parameters.tasks.len() > 0,
        ensures
            exists|now: Timestamp|
                final(self)@ == #[trigger] modify_task_outcome(old(self)@, id, command@.parameters, now),
    {
        let now = current_time();
        if let Some((i, j)) = self.locate_task(id) {
            let project_id = self.projects[i].tasks[j].project_id();
            assert(self.projects[i as int].tasks[j as int]@ == self@.projects[i as int].tasks[j as int]);
            if let Ok(t) = task_from_command_at(command, id, project_id, now) {
                self.set_task(i, j, t);
            }
        }
        assert(self@ == modify_task_outcome(old(self)@, id, command@.parameters, now));
    }

    /// The id that the next added task receives.
    pub fn next_task_id(&self) -> (r: usize)
        ensures
            r == self@.next_task_id,
    {
        self.next_task_id
    }

    /// Every project, in order, with its tasks.
    pub fn projects(&self) -> (r: &Vec<Project>)
        ensures
            project_models(r@) == self@.projects,
    {
        &self.projects
    }

    /// The largest project id, or 0 when there is no project.
    pub fn largest_project_id(&self) -> (r: usize)
        ensures
            r as nat == max_project_id(self@.projects),
    {
        self.max_project_id()
    }
}

} // verus!
