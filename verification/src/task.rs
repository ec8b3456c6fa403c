//! Task lifecycle management for teaching workflows.
//!
//! State machine of one task:
//!   Pending → Assigned → InProgress → Completed
//!                    ↘            ↘ Failed
//!                     ↘ Interrupted (manual or HITL)
//!
//! `TaskManager` keeps every task by id and, per workflow, the ids in the
//! order they were created.

use vstd::prelude::*;
use vstd::hash_map::StringHashMap;
use crate::text::{clone_opt, clone_strings, concat, owned, str_eq, views};
use crate::platform::uuid_prefix8;
use crate::platform::now_micros;

verus! {

broadcast use vstd::hash_map::group_hash_map_axioms;

/// Lifecycle state of a task.
#[derive(Debug, Clone, Copy, PartialEq, Eq, Structural)]
pub enum TaskStatus {
    /// Waiting to be dispatched
    Pending,
    /// Assigned to a specific agent but not yet started
    Assigned,
    /// Currently executing
    InProgress,
    /// Successfully completed
    Completed,
    /// Execution failed
    Failed,
    /// Interrupted (manual user action or HITL trigger)
    Interrupted,
    /// Skipped (teacher chose to bypass)
    Skipped,
}

impl TaskStatus {
    pub open spec fn spec_is_terminal(&self) -> bool {
        match *self {
            TaskStatus::Completed | TaskStatus::Failed | TaskStatus::Skipped
            | TaskStatus::Interrupted => true,
            _ => false,
        }
    }

    pub open spec fn spec_is_active(&self) -> bool {
        match *self {
            TaskStatus::Pending | TaskStatus::Assigned | TaskStatus::InProgress => true,
            _ => false,
        }
    }

    /// A terminal task has finished for good.
    #[verifier::when_used_as_spec(spec_is_terminal)]
    pub fn is_terminal(&self) -> (r: bool)
        ensures
            r == self.spec_is_terminal(),
    {
        match self {
            TaskStatus::Completed | TaskStatus::Failed | TaskStatus::Skipped
            | TaskStatus::Interrupted => true,
            _ => false,
        }
    }

    /// An active task still waits for, or is doing, its work.
    #[verifier::when_used_as_spec(spec_is_active)]
    pub fn is_active(&self) -> (r: bool)
        ensures
            r == self.spec_is_active(),
    {
        match self {
            TaskStatus::Pending | TaskStatus::Assigned | TaskStatus::InProgress => true,
            _ => false,
        }
    }

    /// The variant's name, as `{:?}` prints it.
    pub open spec fn spec_name(self) -> Seq<char> {
        match self {
            TaskStatus::Pending => "Pending"@,
            TaskStatus::Assigned => "Assigned"@,
            TaskStatus::InProgress => "InProgress"@,
            TaskStatus::Completed => "Completed"@,
            TaskStatus::Failed => "Failed"@,
            TaskStatus::Interrupted => "Interrupted"@,
            TaskStatus::Skipped => "Skipped"@,
        }
    }

    /// The variant's name, as `{:?}` prints it.
    pub fn name(&self) -> (r: &'static str)
        ensures
            r@ == self.spec_name(),
    {
        match self {
            TaskStatus::Pending => "Pending",
            TaskStatus::Assigned => "Assigned",
            TaskStatus::InProgress => "InProgress",
            TaskStatus::Completed => "Completed",
            TaskStatus::Failed => "Failed",
            TaskStatus::Interrupted => "Interrupted",
            TaskStatus::Skipped => "Skipped",
        }
    }
}

/// Priority every task starts with (lower is more urgent).
pub const DEFAULT_PRIORITY: u32 = 10;

/// A single unit of work in a teaching workflow, with the handlers assigned
/// to it. Times are microseconds since
/// the Unix epoch.
#[derive(Debug)]
pub struct Task {
    pub id: String,
    pub workflow_id: String,
    pub name: String,
    pub description: String,
    pub assigned_agent: Vec<String>,
    pub status: TaskStatus,
    /// Priority: lower = more urgent (0 is highest)
    pub priority: u32,
    /// Task IDs that must complete before this one
    pub dependencies: Vec<String>,
    pub created_at: i64,
    pub started_at: Option<i64>,
    pub completed_at: Option<i64>,
    /// Result summary after completion
    pub result: Option<String>,
    /// Reason for interruption (if status=Interrupted)
    pub interrupt_reason: Option<String>,
}

impl Task {
    /// The agent a dispatched task runs on: its first assigned agent, or
    /// none (the empty name).
    pub fn dispatch_agent(&self) -> (r: String)
        ensures
            r@ == if self.assigned_agent@.len() > 0 {
                self.assigned_agent@[0]@
            } else {
                Seq::<char>::empty()
            },
    {
        if self.assigned_agent.len() > 0 {
            self.assigned_agent[0].clone()
        } else {
            String::new()
        }
    }
}

/// The mathematical content of a `Task`.
pub struct TaskView {
    pub id: Seq<char>,
    pub workflow_id: Seq<char>,
    pub name: Seq<char>,
    pub description: Seq<char>,
    pub assigned_agent: Seq<Seq<char>>,
    pub status: TaskStatus,
    pub priority: u32,
    pub dependencies: Seq<Seq<char>>,
    pub created_at: i64,
    pub started_at: Option<i64>,
    pub completed_at: Option<i64>,
    pub result: Option<Seq<char>>,
    pub interrupt_reason: Option<Seq<char>>,
}

/// Characters of an optional string.
pub open spec fn opt_view(o: Option<String>) -> Option<Seq<char>> {
    match o {
        Some(s) => Some(s@),
        None => None,
    }
}

impl View for Task {
    type V = TaskView;

    open spec fn view(&self) -> TaskView {
        TaskView {
            id: self.id@,
            workflow_id: self.workflow_id@,
            name: self.name@,
            description: self.description@,
            assigned_agent: views(self.assigned_agent@),
            status: self.status,
            priority: self.priority,
            dependencies: views(self.dependencies@),
            created_at: self.created_at,
            started_at: self.started_at,
            completed_at: self.completed_at,
            result: opt_view(self.result),
            interrupt_reason: opt_view(self.interrupt_reason),
        }
    }
}

/// A task freshly created at time `now`.
pub open spec fn new_task(
    id: Seq<char>,
    workflow_id: Seq<char>,
    name: Seq<char>,
    description: Seq<char>,
    now: i64,
) -> TaskView {
    TaskView {
        id,
        workflow_id,
        name,
        description,
        assigned_agent: Seq::empty(),
        status: TaskStatus::Pending,
        priority: DEFAULT_PRIORITY,
        dependencies: Seq::empty(),
        created_at: now,
        started_at: None,
        completed_at: None,
        result: None,
        interrupt_reason: None,
    }
}

impl TaskView {
    /// The task after assigning `agent` (listed once) and marking it Assigned.
    pub open spec fn assigned(self, agent: Seq<char>) -> TaskView {
        TaskView {
            assigned_agent: if self.assigned_agent.contains(agent) {
                self.assigned_agent
            } else {
                self.assigned_agent.push(agent)
            },
            status: TaskStatus::Assigned,
            ..self
        }
    }

    /// Whether the task may be started.
    pub open spec fn can_start(self) -> bool {
        self.status == TaskStatus::Pending || self.status == TaskStatus::Assigned
    }

    /// The task after starting at `now`.
    pub open spec fn started(self, now: i64) -> TaskView {
        TaskView { status: TaskStatus::InProgress, started_at: Some(now), ..self }
    }

    /// The task after completing at `now` with `result`.
    pub open spec fn completed(self, result: Seq<char>, now: i64) -> TaskView {
        TaskView { status: TaskStatus::Completed, completed_at: Some(now), result: Some(result), ..self }
    }

    /// The task after failing at `now` for `reason`.
    pub open spec fn failed(self, reason: Seq<char>, now: i64) -> TaskView {
        TaskView { status: TaskStatus::Failed, completed_at: Some(now), result: Some(reason), ..self }
    }

    /// The task after an interruption at `now` for `reason`.
    pub open spec fn interrupted(self, reason: Seq<char>, now: i64) -> TaskView {
        TaskView {
            status: TaskStatus::Interrupted,
            interrupt_reason: Some(reason),
            completed_at: Some(now),
            ..self
        }
    }

    /// The task after being skipped at `now`.
    pub open spec fn skipped(self, now: i64) -> TaskView {
        TaskView { status: TaskStatus::Skipped, completed_at: Some(now), ..self }
    }

    /// Every dependency is finished (Completed or Skipped) or unknown.
    pub open spec fn deps_met(self, tasks: Map<Seq<char>, TaskView>) -> bool {
        forall|i: int|
            0 <= i < self.dependencies.len() ==> {
                let d = #[trigger] self.dependencies[i];
                !tasks.contains_key(d) || tasks[d].status == TaskStatus::Completed
                    || tasks[d].status == TaskStatus::Skipped
            }
    }
}

/// Message of a refused start.
pub open spec fn start_error(id: Seq<char>, status: TaskStatus) -> Seq<char> {
    "Cannot start task "@ + id + " from status "@ + status.spec_name()
}

impl Task {
    /// Creates a pending task with the default priority, stamped with the
    /// current time.
    pub fn new(id: &str, workflow_id: &str, name: &str, description: &str) -> (r: Task)
        ensures
            r@ == new_task(id@, workflow_id@, name@, description@, r.created_at),
    {
        let now = now_micros();
        let t = Task {
            id: owned(id),
            workflow_id: owned(workflow_id),
            name: owned(name),
            description: owned(description),
            assigned_agent: Vec::new(),
            status: TaskStatus::Pending,
            priority: DEFAULT_PRIORITY,
            dependencies: Vec::new(),
            created_at: now,
            started_at: None,
            completed_at: None,
            result: None,
            interrupt_reason: None,
        };
        assert(views(t.assigned_agent@) =~= Seq::<Seq<char>>::empty());
        assert(views(t.dependencies@) =~= Seq::<Seq<char>>::empty());
        t
    }

    /// A copy holding the same values.
    pub fn copy(&self) -> (r: Task)
        ensures
            r@ == self@,
    {
        Task {
            id: self.id.clone(),
            workflow_id: self.workflow_id.clone(),
            name: self.name.clone(),
            description: self.description.clone(),
            assigned_agent: clone_strings(&self.assigned_agent),
            status: self.status,
            priority: self.priority,
            dependencies: clone_strings(&self.dependencies),
            created_at: self.created_at,
            started_at: self.started_at,
            completed_at: self.completed_at,
            result: clone_opt(&self.result),
            interrupt_reason: clone_opt(&self.interrupt_reason),
        }
    }

    /// Adds `agent` to the handlers (listed once) and marks the task Assigned.
    pub fn assign(&mut self, agent: &str)
        ensures
            final(self)@ == old(self)@.assigned(agent@),
    {
        let mut found = false;
        let mut i: usize = 0;
        while i < self.assigned_agent.len()
            invariant
                i <= self.assigned_agent.len(),
                self@ == old(self)@,
                found == exists|j: int| 0 <= j < i && self.assigned_agent@[j]@ == agent@,
            decreases self.assigned_agent.len() - i,
        {
            if str_eq(self.assigned_agent[i].as_str(), agent) {
                found = true;
            }
            i = i + 1;
        }
        proof {
            let vs = views(self.assigned_agent@);
            if found {
                let j = choose|j: int| 0 <= j < i && self.assigned_agent@[j]@ == agent@;
                assert(vs[j] == agent@);
                assert(vs.contains(agent@));
            } else {
                assert forall|j: int| 0 <= j < vs.len() implies vs[j] != agent@ by {
                    assert(vs[j] == self.assigned_agent@[j]@);
                }
                assert(!vs.contains(agent@));
            }
        }
        if !found {
            self.assigned_agent.push(owned(agent));
            assert(views(self.assigned_agent@) =~= views(old(self).assigned_agent@).push(agent@));
        }
        self.status = TaskStatus::Assigned;
    }

    /// Marks the task in progress; refused unless it is Pending or Assigned.
    pub fn start(&mut self) -> (r: Result<(), String>)
        ensures
            old(self)@.can_start() ==> r is Ok && final(self)@ == old(self)@.started(
                final(self).started_at->0,
            ),
            !old(self)@.can_start() ==> (r matches Err(e) && e@ == start_error(
                old(self)@.id,
                old(self)@.status,
            ) && final(self)@ == old(self)@),
    {
        if self.status != TaskStatus::Assigned && self.status != TaskStatus::Pending {
            let m = concat(&concat("Cannot start task ", self.id.as_str()), " from status ");
            return Err(concat(m.as_str(), self.status.name()));
        }
        let now = now_micros();
        self.status = TaskStatus::InProgress;
        self.started_at = Some(now);
        assert(self@ == old(self)@.started(now));
        Ok(())
    }

    /// Marks the task completed with a result summary.
    pub fn complete(&mut self, result: &str)
        ensures
            final(self)@ == old(self)@.completed(result@, final(self).completed_at->0),
    {
        let now = now_micros();
        self.status = TaskStatus::Completed;
        self.completed_at = Some(now);
        self.result = Some(owned(result));
        assert(self@ == old(self)@.completed(result@, now));
    }

    /// Marks the task failed, keeping the reason as its result.
    pub fn fail(&mut self, reason: &str)
        ensures
            final(self)@ == old(self)@.failed(reason@, final(self).completed_at->0),
    {
        let now = now_micros();
        self.status = TaskStatus::Failed;
        self.completed_at = Some(now);
        self.result = Some(owned(reason));
        assert(self@ == old(self)@.failed(reason@, now));
    }

    /// Interrupts the task for the given reason.
    pub fn interrupt(&mut self, reason: &str)
        ensures
            final(self)@ == old(self)@.interrupted(reason@, final(self).completed_at->0),
    {
        let now = now_micros();
        self.status = TaskStatus::Interrupted;
        self.interrupt_reason = Some(owned(reason));
        self.completed_at = Some(now);
        assert(self@ == old(self)@.interrupted(reason@, now));
    }

    /// Skips the task.
    pub fn skip(&mut self)
        ensures
            final(self)@ == old(self)@.skipped(final(self).completed_at->0),
    {
        let now = now_micros();
        self.status = TaskStatus::Skipped;
        self.completed_at = Some(now);
        assert(self@ == old(self)@.skipped(now));
    }
}


// ── TaskManager ─────────────────────────────────────────────────────────

/// Ids listed under key `k` in a workflow index (empty when `k` is absent).
pub open spec fn lookup(v: Seq<(String, Vec<String>)>, k: Seq<char>) -> Seq<Seq<char>>
    decreases v.len(),
{
    if v.len() == 0 {
        Seq::empty()
    } else if v[0].0@ == k {
        views(v[0].1@)
    } else {
        lookup(v.drop_first(), k)
    }
}

/// Whether the workflow index has an entry for `k`.
pub open spec fn has_key(v: Seq<(String, Vec<String>)>, k: Seq<char>) -> bool {
    exists|i: int| 0 <= i < v.len() && (#[trigger] v[i]).0@ == k
}

/// No two index entries share a workflow id.
pub open spec fn keys_distinct(v: Seq<(String, Vec<String>)>) -> bool {
    forall|i: int, j: int| 0 <= i < j < v.len() ==> (#[trigger] v[i]).0@ != (#[trigger] v[j]).0@
}

proof fn lemma_lookup_at(v: Seq<(String, Vec<String>)>, i: int, k: Seq<char>)
    requires
        keys_distinct(v),
        0 <= i < v.len(),
        v[i].0@ == k,
    ensures
        lookup(v, k) == views(v[i].1@),
    decreases v.len(),
{
    if i > 0 {
        assert(v[0].0@ != k);
        assert(keys_distinct(v.drop_first()));
        lemma_lookup_at(v.drop_first(), i - 1, k);
    }
}

proof fn lemma_lookup_absent(v: Seq<(String, Vec<String>)>, k: Seq<char>)
    requires
        !has_key(v, k),
    ensures
        lookup(v, k) == Seq::<Seq<char>>::empty(),
    decreases v.len(),
{
    if v.len() > 0 {
        assert(v[0].0@ != k);
        assert(!has_key(v.drop_first(), k)) by {
            if has_key(v.drop_first(), k) {
                let j = choose|j: int| 0 <= j < v.drop_first().len() && (#[trigger] v.drop_first()[j]).0@ == k;
                assert(v[j + 1].0@ == k);
            }
        }
        lemma_lookup_absent(v.drop_first(), k);
    }
}

/// The tasks of `tasks` named by `ids`, in order, skipping unknown ids.
pub open spec fn listed(tasks: Map<Seq<char>, TaskView>, ids: Seq<Seq<char>>) -> Seq<TaskView>
    decreases ids.len(),
{
    if ids.len() == 0 {
        Seq::empty()
    } else {
        let rest = listed(tasks, ids.drop_last());
        if tasks.contains_key(ids.last()) {
            rest.push(tasks[ids.last()])
        } else {
            rest
        }
    }
}

/// Every listed task is a stored task.
pub proof fn lemma_listed_stored(tasks: Map<Seq<char>, TaskView>, ids: Seq<Seq<char>>, i: int)
    requires
        0 <= i < listed(tasks, ids).len(),
    ensures
        exists|k: Seq<char>| tasks.contains_key(k) && listed(tasks, ids)[i] == #[trigger] tasks[k],
    decreases ids.len(),
{
    let rest = listed(tasks, ids.drop_last());
    if tasks.contains_key(ids.last()) && i == rest.len() {
        assert(listed(tasks, ids)[i] == tasks[ids.last()]);
    } else {
        lemma_listed_stored(tasks, ids.drop_last(), i);
    }
}

/// A task ready to run: pending with every dependency finished or unknown.
pub open spec fn is_ready(tasks: Map<Seq<char>, TaskView>, id: Seq<char>) -> bool {
    tasks.contains_key(id) && tasks[id].status == TaskStatus::Pending && tasks[id].deps_met(tasks)
}

/// The first ready task among `ids`, in order.
pub open spec fn first_ready(tasks: Map<Seq<char>, TaskView>, ids: Seq<Seq<char>>) -> Option<TaskView>
    decreases ids.len(),
{
    if ids.len() == 0 {
        None
    } else if is_ready(tasks, ids[0]) {
        Some(tasks[ids[0]])
    } else {
        first_ready(tasks, ids.drop_first())
    }
}

/// `ids` without any occurrence of `x`.
pub open spec fn without(ids: Seq<Seq<char>>, x: Seq<char>) -> Seq<Seq<char>>
    decreases ids.len(),
{
    if ids.len() == 0 {
        Seq::empty()
    } else if ids.last() == x {
        without(ids.drop_last(), x)
    } else {
        without(ids.drop_last(), x).push(ids.last())
    }
}

/// Number of tasks in `ts` whose status satisfies `p`.
pub open spec fn count_where(ts: Seq<TaskView>, p: spec_fn(TaskStatus) -> bool) -> nat
    decreases ts.len(),
{
    if ts.len() == 0 {
        0
    } else {
        count_where(ts.drop_last(), p) + if p(ts.last().status) {
            1nat
        } else {
            0nat
        }
    }
}

/// The view of a task manager: every task by id, and per workflow the ids
/// in creation order.
pub struct TaskManagerView {
    pub tasks: Map<Seq<char>, TaskView>,
    pub ids: Map<Seq<char>, Seq<Seq<char>>>,
}

impl TaskManagerView {
    /// Ids listed for a workflow, in creation order.
    pub open spec fn ids_of(self, workflow_id: Seq<char>) -> Seq<Seq<char>> {
        if self.ids.contains_key(workflow_id) {
            self.ids[workflow_id]
        } else {
            Seq::empty()
        }
    }

    /// Tasks of a workflow, in creation order.
    pub open spec fn tasks_of(self, workflow_id: Seq<char>) -> Seq<TaskView> {
        listed(self.tasks, self.ids_of(workflow_id))
    }

    /// Whether every task is stored under its own id.
    pub open spec fn keyed_by_id(self) -> bool {
        forall|k: Seq<char>| #[trigger] self.tasks.contains_key(k) ==> self.tasks[k].id == k
    }

    /// The manager after recording the new task `t`.
    pub open spec fn after_create(self, t: TaskView) -> TaskManagerView {
        TaskManagerView {
            tasks: self.tasks.insert(t.id, t),
            ids: self.ids.insert(t.workflow_id, self.ids_of(t.workflow_id).push(t.id)),
        }
    }

    /// The manager after replacing the task stored under `t.id` by `t`.
    pub open spec fn after_put(self, t: TaskView) -> TaskManagerView {
        TaskManagerView { tasks: self.tasks.insert(t.id, t), ids: self.ids }
    }

    /// The manager after removing task `id` from the store and every list.
    pub open spec fn after_remove(self, id: Seq<char>) -> TaskManagerView {
        TaskManagerView {
            tasks: self.tasks.remove(id),
            ids: Map::new(|k: Seq<char>| self.ids.contains_key(k), |k: Seq<char>| without(self.ids[k], id)),
        }
    }
}


proof fn lemma_lookup_update(v: Seq<(String, Vec<String>)>, i: int, e: (String, Vec<String>), k: Seq<char>)
    requires
        keys_distinct(v),
        0 <= i < v.len(),
        e.0@ == v[i].0@,
    ensures
        keys_distinct(v.update(i, e)),
        has_key(v.update(i, e), k) == has_key(v, k),
        lookup(v.update(i, e), k) == if k == e.0@ {
            views(e.1@)
        } else {
            lookup(v, k)
        },
    decreases v.len(),
{
    let w = v.update(i, e);
    assert forall|a: int, b: int| 0 <= a < b < w.len() implies (#[trigger] w[a]).0@ != (
    #[trigger] w[b]).0@ by {
        assert(v[a].0@ != v[b].0@);
    }
    if has_key(v, k) {
        let j = choose|j: int| 0 <= j < v.len() && (#[trigger] v[j]).0@ == k;
        assert(w[j].0@ == k);
    }
    if has_key(w, k) {
        let j = choose|j: int| 0 <= j < w.len() && (#[trigger] w[j]).0@ == k;
        assert(v[j].0@ == k);
    }
    if i == 0 {
        if k != e.0@ {
            assert(w.drop_first() =~= v.drop_first());
        }
    } else {
        assert(w.drop_first() =~= v.drop_first().update(i - 1, e));
        assert(keys_distinct(v.drop_first()));
        lemma_lookup_update(v.drop_first(), i - 1, e, k);
    }
}

proof fn lemma_lookup_push(v: Seq<(String, Vec<String>)>, e: (String, Vec<String>), k: Seq<char>)
    requires
        keys_distinct(v),
        !has_key(v, e.0@),
    ensures
        keys_distinct(v.push(e)),
        has_key(v.push(e), k) == (has_key(v, k) || k == e.0@),
        lookup(v.push(e), k) == if k == e.0@ {
            views(e.1@)
        } else {
            lookup(v, k)
        },
    decreases v.len(),
{
    let w = v.push(e);
    assert forall|a: int, b: int| 0 <= a < b < w.len() implies (#[trigger] w[a]).0@ != (
    #[trigger] w[b]).0@ by {
        if b == v.len() {
            assert(w[a] == v[a]);
        } else {
            assert(v[a].0@ != v[b].0@);
        }
    }
    if has_key(v, k) {
        let j = choose|j: int| 0 <= j < v.len() && (#[trigger] v[j]).0@ == k;
        assert(w[j].0@ == k);
    }
    if k == e.0@ {
        assert(w[v.len() as int].0@ == k);
    }
    if has_key(w, k) && k != e.0@ {
        let j = choose|j: int| 0 <= j < w.len() && (#[trigger] w[j]).0@ == k;
        assert(v[j].0@ == k);
    }
    if v.len() == 0 {
        assert(w.drop_first() =~= Seq::<(String, Vec<String>)>::empty());
        assert(w[0] == e);
        assert(lookup(w.drop_first(), k) == Seq::<Seq<char>>::empty());
        assert(lookup(v, k) == Seq::<Seq<char>>::empty());
    } else {
        assert(w[0] == v[0]);
        assert(w.drop_first() =~= v.drop_first().push(e));
        if v[0].0@ == e.0@ {
            assert(has_key(v, e.0@));
        }
        assert(keys_distinct(v.drop_first()));
        assert(!has_key(v.drop_first(), e.0@)) by {
            if has_key(v.drop_first(), e.0@) {
                let j = choose|j: int| 0 <= j < v.drop_first().len() && (#[trigger] v.drop_first()[j]).0@ == e.0@;
                assert(v[j + 1].0@ == e.0@);
            }
        }
        lemma_lookup_push(v.drop_first(), e, k);
    }
}

proof fn lemma_lookup_filtered(v: Seq<(String, Vec<String>)>, w: Seq<(String, Vec<String>)>, x: Seq<char>, k: Seq<char>)
    requires
        v.len() == w.len(),
        forall|j: int| 0 <= j < v.len() ==> (#[trigger] w[j]).0@ == v[j].0@ && views(w[j].1@) == without(views(v[j].1@), x),
    ensures
        has_key(w, k) == has_key(v, k),
        lookup(w, k) == if has_key(v, k) { without(lookup(v, k), x) } else { Seq::<Seq<char>>::empty() },
    decreases v.len(),
{
    if has_key(v, k) {
        let j = choose|j: int| 0 <= j < v.len() && (#[trigger] v[j]).0@ == k;
        assert(w[j].0@ == k);
    }
    if has_key(w, k) {
        let j = choose|j: int| 0 <= j < w.len() && (#[trigger] w[j]).0@ == k;
        assert(v[j].0@ == k);
    }
    if v.len() > 0 {
        assert(w[0].0@ == v[0].0@);
        lemma_lookup_filtered(v.drop_first(), w.drop_first(), x, k);
        if v[0].0@ != k {
            if has_key(v.drop_first(), k) {
                let j = choose|j: int| 0 <= j < v.drop_first().len() && (#[trigger] v.drop_first()[j]).0@ == k;
                assert(v[j + 1].0@ == k);
            }
            if has_key(v, k) {
                let j = choose|j: int| 0 <= j < v.len() && (#[trigger] v[j]).0@ == k;
                assert(j != 0);
                assert(v.drop_first()[j - 1].0@ == k);
            }
        }
    }
}

proof fn lemma_listed_push(tasks: Map<Seq<char>, TaskView>, ids: Seq<Seq<char>>, id: Seq<char>)
    ensures
        listed(tasks, ids.push(id)) == if tasks.contains_key(id) {
            listed(tasks, ids).push(tasks[id])
        } else {
            listed(tasks, ids)
        },
{
    assert(ids.push(id).drop_last() =~= ids);
}

proof fn lemma_listed_same(t1: Map<Seq<char>, TaskView>, t2: Map<Seq<char>, TaskView>, ids: Seq<Seq<char>>)
    requires
        forall|i: int| 0 <= i < ids.len() ==> (t1.contains_key(#[trigger] ids[i]) == t2.contains_key(ids[i])
            && (t1.contains_key(ids[i]) ==> t1[ids[i]] == t2[ids[i]])),
    ensures
        listed(t1, ids) == listed(t2, ids),
    decreases ids.len(),
{
    if ids.len() > 0 {
        assert(ids.last() == ids[ids.len() - 1]);
        lemma_listed_same(t1, t2, ids.drop_last());
    }
}


/// The task `create` records: new at `now`, with its dependencies, assigned
/// to `agent` when one is given.
pub open spec fn created_task(
    id: Seq<char>,
    workflow_id: Seq<char>,
    name: Seq<char>,
    description: Seq<char>,
    agent: Option<Seq<char>>,
    dependencies: Seq<Seq<char>>,
    now: i64,
) -> TaskView {
    let t = TaskView { dependencies, ..new_task(id, workflow_id, name, description, now) };
    match agent {
        Some(a) => t.assigned(a),
        None => t,
    }
}

/// Characters of an optional string slice.
pub open spec fn opt_str_view(o: Option<&str>) -> Option<Seq<char>> {
    match o {
        Some(s) => Some(s@),
        None => None,
    }
}

/// The task after an edit: each given field replaced, the agent assigned.
pub open spec fn edited(
    t: TaskView,
    name: Option<Seq<char>>,
    description: Option<Seq<char>>,
    agent: Option<Seq<char>>,
    dependencies: Option<Seq<Seq<char>>>,
) -> TaskView {
    let t1 = match name { Some(n) => TaskView { name: n, ..t }, None => t };
    let t2 = match description { Some(d) => TaskView { description: d, ..t1 }, None => t1 };
    let t3 = match agent { Some(a) => t2.assigned(a), None => t2 };
    match dependencies { Some(ds) => TaskView { dependencies: ds, ..t3 }, None => t3 }
}

/// Message of an assignment to a task that is not pending.
pub open spec fn not_pending_error(id: Seq<char>, status: TaskStatus) -> Seq<char> {
    "Task "@ + id + " is not pending (current: "@ + status.spec_name() + ")"@
}

/// Message of a completion of a task that is not running.
pub open spec fn not_in_progress_error(id: Seq<char>) -> Seq<char> {
    "Task "@ + id + " is not in progress"@
}

/// Message of an interruption of a finished task.
pub open spec fn already_terminal_error(id: Seq<char>, status: TaskStatus) -> Seq<char> {
    "Task "@ + id + " is already terminal ("@ + status.spec_name() + ")"@
}

/// Status summary of one workflow.
#[derive(Debug)]
pub struct TaskSummary {
    pub workflow_id: String,
    pub total: usize,
    pub completed: usize,
    pub failed: usize,
    pub interrupted: usize,
    pub in_progress: usize,
    pub pending: usize,
    pub progress_pct: u32,
}

pub open spec fn is_completed(s: TaskStatus) -> bool { s == TaskStatus::Completed }
pub open spec fn is_failed(s: TaskStatus) -> bool { s == TaskStatus::Failed }
pub open spec fn is_interrupted(s: TaskStatus) -> bool { s == TaskStatus::Interrupted }
pub open spec fn is_in_progress(s: TaskStatus) -> bool { s == TaskStatus::InProgress }
pub open spec fn is_waiting(s: TaskStatus) -> bool { s == TaskStatus::Pending || s == TaskStatus::Assigned }
pub open spec fn is_skipped(s: TaskStatus) -> bool { s == TaskStatus::Skipped }

/// The summary a workflow's task list yields: counts per status and the
/// completed share in whole percent (rounded down).
pub open spec fn summary_of(workflow_id: Seq<char>, ts: Seq<TaskView>) -> (Seq<char>, nat, nat, nat, nat, nat, nat, nat) {
    let total = ts.len();
    let completed = count_where(ts, |s: TaskStatus| is_completed(s));
    (
        workflow_id,
        total,
        completed,
        count_where(ts, |s: TaskStatus| is_failed(s)),
        count_where(ts, |s: TaskStatus| is_interrupted(s)),
        count_where(ts, |s: TaskStatus| is_in_progress(s)),
        count_where(ts, |s: TaskStatus| is_waiting(s)),
        if total > 0 { (completed * 100 / total) as nat } else { 0 },
    )
}

impl TaskSummary {
    /// The summary's fields, in declaration order.
    pub open spec fn fields(&self) -> (Seq<char>, nat, nat, nat, nat, nat, nat, nat) {
        (
            self.workflow_id@,
            self.total as nat,
            self.completed as nat,
            self.failed as nat,
            self.interrupted as nat,
            self.in_progress as nat,
            self.pending as nat,
            self.progress_pct as nat,
        )
    }
}

proof fn lemma_count_le(ts: Seq<TaskView>, p: spec_fn(TaskStatus) -> bool)
    ensures
        count_where(ts, p) <= ts.len(),
    decreases ts.len(),
{
    if ts.len() > 0 {
        lemma_count_le(ts.drop_last(), p);
    }
}

/// Manages the lifecycle of all tasks across workflows.
pub struct TaskManager {
    tasks: StringHashMap<Task>,
    workflow_tasks: Vec<(String, Vec<String>)>,
}

impl View for TaskManager {
    type V = TaskManagerView;

    closed spec fn view(&self) -> TaskManagerView {
        TaskManagerView {
            tasks: self.tasks@.map_values(|t: Task| t@),
            ids: Map::new(
                |k: Seq<char>| has_key(self.workflow_tasks@, k),
                |k: Seq<char>| lookup(self.workflow_tasks@, k),
            ),
        }
    }
}

/// Message of an unknown task.
pub open spec fn not_found_error(id: Seq<char>) -> Seq<char> {
    "Task "@ + id + " not found"@
}

/// Outcome of an operation on one task: the updated task, or the message.
pub open spec fn outcome_ok(r: Result<Task, String>, t: TaskView) -> bool {
    r matches Ok(x) && x@ == t
}

impl TaskManager {
    /// The manager's invariant: workflow ids are listed once, every task is
    /// stored under its own id and keeps the default priority.
    pub closed spec fn wf(&self) -> bool {
        &&& keys_distinct(self.workflow_tasks@)
        &&& forall|k: Seq<char>| #[trigger]
            self.tasks@.contains_key(k) ==> self.tasks@[k].priority == DEFAULT_PRIORITY
                && self.tasks@[k].id@ == k
    }

    /// Every task of a sound manager is stored under its own id.
    pub proof fn lemma_keyed_by_id(&self)
        requires
            self.wf(),
        ensures
            self@.keyed_by_id(),
    {
        assert forall|k: Seq<char>| #[trigger] self@.tasks.contains_key(k) implies self@.tasks[k].id == k by {
            assert(self.tasks@.contains_key(k));
        }
    }

    /// An empty manager.
    pub fn new() -> (r: TaskManager)
        ensures
            r.wf(),
            r@.tasks == Map::<Seq<char>, TaskView>::empty(),
            forall|w: Seq<char>| r@.ids_of(w) == Seq::<Seq<char>>::empty(),
    {
        let r = TaskManager { tasks: StringHashMap::new(), workflow_tasks: Vec::new() };
        assert(r@.tasks =~= Map::<Seq<char>, TaskView>::empty());
        r
    }

    fn find_workflow(&self, workflow_id: &str) -> (r: Option<usize>)
        requires
            self.wf(),
        ensures
            match r {
                Some(i) => i < self.workflow_tasks.len() && self.workflow_tasks@[i as int].0@
                    == workflow_id@,
                None => !has_key(self.workflow_tasks@, workflow_id@),
            },
    {
        let mut i: usize = 0;
        while i < self.workflow_tasks.len()
            invariant
                i <= self.workflow_tasks.len(),
                forall|j: int| 0 <= j < i ==> (#[trigger] self.workflow_tasks@[j]).0@ != workflow_id@,
            decreases self.workflow_tasks.len() - i,
        {
            if str_eq(self.workflow_tasks[i].0.as_str(), workflow_id) {
                return Some(i);
            }
            i = i + 1;
        }
        None
    }

    /// Ids listed for a workflow.
    fn workflow_ids(&self, workflow_id: &str) -> (r: Vec<String>)
        requires
            self.wf(),
        ensures
            views(r@) == self@.ids_of(workflow_id@),
    {
        match self.find_workflow(workflow_id) {
            Some(i) => {
                proof {
                    lemma_lookup_at(self.workflow_tasks@, i as int, workflow_id@);
                }
                clone_strings(&self.workflow_tasks[i].1)
            },
            None => {
                proof {
                    lemma_lookup_absent(self.workflow_tasks@, workflow_id@);
                }
                let v: Vec<String> = Vec::new();
                assert(views(v@) =~= Seq::<Seq<char>>::empty());
                v
            },
        }
    }

    /// Creates a task named `workflow_id + "_" + suffix` in a workflow,
    /// assigned to `agent` when one is given, and lists it last in its
    /// workflow. A task already stored under that id is replaced.
    pub fn create_with_suffix(
        &mut self,
        workflow_id: &str,
        name: &str,
        description: &str,
        agent: Option<&str>,
        dependencies: Vec<String>,
        suffix: &str,
    ) -> (r: Task)
        requires
            old(self).wf(),
        ensures
            final(self).wf(),
            r@ == created_task(
                workflow_id@ + "_"@ + suffix@,
                workflow_id@,
                name@,
                description@,
                opt_str_view(agent),
                views(dependencies@),
                r.created_at,
            ),
            final(self)@ == old(self)@.after_create(r@),
    {
        let id = concat(concat(workflow_id, "_").as_str(), suffix);
        let mut task = Task::new(id.as_str(), workflow_id, name, description);
        task.dependencies = dependencies;
        match agent {
            Some(a) => task.assign(a),
            None => {},
        }
        let ghost old_view = self@;
        self.tasks.insert(id.clone(), task.copy());
        match self.find_workflow(workflow_id) {
            Some(i) => {
                let mut entry = self.workflow_tasks.remove(i);
                entry.1.push(id);
                let ghost e = entry;
                self.workflow_tasks.insert(i, entry);
                proof {
                    let v = old(self).workflow_tasks@;
                    assert(self.workflow_tasks@ =~= v.update(i as int, e));
                    assert(views(e.1@) =~= views(v[i as int].1@).push(task@.id));
                    lemma_lookup_at(v, i as int, workflow_id@);
                    assert forall|k: Seq<char>| true implies #[trigger] has_key(self.workflow_tasks@, k)
                        == has_key(v, k) && lookup(self.workflow_tasks@, k) == if k == workflow_id@ {
                        views(e.1@)
                    } else {
                        lookup(v, k)
                    } by {
                        lemma_lookup_update(v, i as int, e, k);
                    }
                    lemma_lookup_update(v, i as int, e, workflow_id@);
                }
            },
            None => {
                let mut list: Vec<String> = Vec::new();
                list.push(id);
                self.workflow_tasks.push((owned(workflow_id), list));
                proof {
                    let v = old(self).workflow_tasks@;
                    let e2 = self.workflow_tasks@.last();
                    assert(self.workflow_tasks@ =~= v.push(e2));
                    assert(views(e2.1@) =~= seq![task@.id]);
                    lemma_lookup_absent(v, workflow_id@);
                    assert(Seq::<Seq<char>>::empty().push(task@.id) =~= seq![task@.id]);
                    assert forall|k: Seq<char>| true implies #[trigger] has_key(self.workflow_tasks@, k)
                        == (has_key(v, k) || k == workflow_id@) && lookup(self.workflow_tasks@, k)
                        == if k == workflow_id@ {
                        views(e2.1@)
                    } else {
                        lookup(v, k)
                    } by {
                        lemma_lookup_push(v, e2, k);
                    }
                    lemma_lookup_push(v, e2, workflow_id@);
                }
            },
        }
        proof {
            assert(self@.tasks =~= old_view.tasks.insert(task@.id, task@));
            assert(self@.ids =~= old_view.ids.insert(workflow_id@, old_view.ids_of(workflow_id@).push(task@.id)));
        }
        task
    }

    /// Creates a task with a fresh random id (`workflow_id`, `_`, then eight
    /// hex digits of a UUID) and lists it last in its workflow.
    pub fn create(
        &mut self,
        workflow_id: &str,
        name: &str,
        description: &str,
        agent: Option<&str>,
        dependencies: Vec<String>,
    ) -> (r: Task)
        requires
            old(self).wf(),
        ensures
            final(self).wf(),
            exists|suffix: Seq<char>|
                suffix.len() == 8 && r@ == created_task(
                    workflow_id@ + "_"@ + suffix,
                    workflow_id@,
                    name@,
                    description@,
                    opt_str_view(agent),
                    views(dependencies@),
                    r.created_at,
                ),
            final(self)@ == old(self)@.after_create(r@),
    {
        let suffix = uuid_prefix8();
        self.create_with_suffix(workflow_id, name, description, agent, dependencies, suffix.as_str())
    }

    /// The task stored under `task_id`.
    pub fn get(&self, task_id: &str) -> (r: Option<Task>)
        ensures
            match r {
                Some(t) => self@.tasks.contains_key(task_id@) && t@ == self@.tasks[task_id@],
                None => !self@.tasks.contains_key(task_id@),
            },
    {
        match self.tasks.get(task_id) {
            Some(t) => Some(t.copy()),
            None => None,
        }
    }

    /// All tasks of a workflow in creation order, which is also priority
    /// order since every task keeps the default priority.
    pub fn list_by_workflow(&self, workflow_id: &str) -> (r: Vec<Task>)
        requires
            self.wf(),
        ensures
            r@.map_values(|t: Task| t@) == self@.tasks_of(workflow_id@),
            forall|i: int, j: int| 0 <= i < j < r.len() ==> r[i].priority <= r[j].priority,
    {
        let ids = self.workflow_ids(workflow_id);
        let ghost tv = self@.tasks;
        let mut out: Vec<Task> = Vec::new();
        let mut i: usize = 0;
        while i < ids.len()
            invariant
                i <= ids.len(),
                self.wf(),
                tv == self@.tasks,
                out@.map_values(|t: Task| t@) == listed(tv, views(ids@).take(i as int)),
                forall|j: int| 0 <= j < out.len() ==> (#[trigger] out[j]).priority == DEFAULT_PRIORITY,
            decreases ids.len() - i,
        {
            let ghost before = out@.map_values(|t: Task| t@);
            assert(views(ids@).take(i + 1) =~= views(ids@).take(i as int).push(ids@[i as int]@));
            proof {
                lemma_listed_push(tv, views(ids@).take(i as int), ids@[i as int]@);
            }
            match self.tasks.get(ids[i].as_str()) {
                Some(t) => {
                    let c = t.copy();
                    out.push(c);
                    assert(out@.map_values(|t: Task| t@) =~= before.push(c@));
                },
                None => {},
            }
            i = i + 1;
        }
        assert(views(ids@).take(ids.len() as int) =~= views(ids@));
        out
    }

    /// Whether every dependency of `t` is finished (Completed or Skipped) or unknown.
    pub fn dependencies_met(&self, t: &Task) -> (r: bool)
        ensures
            r == t@.deps_met(self@.tasks),
    {
        let mut i: usize = 0;
        while i < t.dependencies.len()
            invariant
                i <= t.dependencies.len(),
                forall|j: int| 0 <= j < i ==> {
                    let d = #[trigger] t@.dependencies[j];
                    !self@.tasks.contains_key(d) || self@.tasks[d].status == TaskStatus::Completed
                        || self@.tasks[d].status == TaskStatus::Skipped
                },
            decreases t.dependencies.len() - i,
        {
            assert(t@.dependencies[i as int] == t.dependencies@[i as int]@);
            match self.tasks.get(t.dependencies[i].as_str()) {
                Some(d) => {
                    if d.status != TaskStatus::Completed && d.status != TaskStatus::Skipped {
                        return false;
                    }
                },
                None => {},
            }
            i = i + 1;
        }
        true
    }

    /// The first task of a workflow, in creation order, that is pending and
    /// whose dependencies are all finished.
    pub fn next_ready(&self, workflow_id: &str) -> (r: Option<Task>)
        requires
            self.wf(),
        ensures
            match r {
                Some(t) => first_ready(self@.tasks, self@.ids_of(workflow_id@)) == Some(t@),
                None => first_ready(self@.tasks, self@.ids_of(workflow_id@)) is None,
            },
    {
        let ids = self.workflow_ids(workflow_id);
        let ghost all = views(ids@);
        assert(all.skip(0) =~= all);
        let mut i: usize = 0;
        while i < ids.len()
            invariant
                i <= ids.len(),
                all == views(ids@),
                all == self@.ids_of(workflow_id@),
                first_ready(self@.tasks, all) == first_ready(self@.tasks, all.skip(i as int)),
            decreases ids.len() - i,
        {
            assert(all.skip(i as int).drop_first() =~= all.skip(i + 1));
            assert(all.skip(i as int)[0] == ids@[i as int]@);
            match self.tasks.get(ids[i].as_str()) {
                Some(t) => {
                    if t.status == TaskStatus::Pending && self.dependencies_met(t) {
                        proof {
                            let k = ids@[i as int]@;
                            assert(self@.tasks.contains_key(k));
                            assert(self@.tasks[k] == t@);
                            assert(is_ready(self@.tasks, all.skip(i as int)[0]));
                            assert(all.skip(i as int).len() > 0);
                            assert(first_ready(self@.tasks, all.skip(i as int)) == Some(t@));
                        }
                        let c = t.copy();
                        return Some(c);
                    }
                },
                None => {},
            }
            i = i + 1;
        }
        assert(all.skip(ids.len() as int) =~= Seq::<Seq<char>>::empty());
        None
    }

    /// Counts a workflow's tasks by status. `pending` counts Pending and
    /// Assigned tasks; `progress_pct` is the completed share in whole
    /// percent, rounded down.
    pub fn workflow_summary(&self, workflow_id: &str) -> (r: TaskSummary)
        requires
            self.wf(),
        ensures
            r.fields() == summary_of(workflow_id@, self@.tasks_of(workflow_id@)),
            r.total == self@.tasks_of(workflow_id@).len(),
            r.completed == self@.tasks_of(workflow_id@).filter(|t: TaskView| t.status == TaskStatus::Completed).len(),
            r.failed == self@.tasks_of(workflow_id@).filter(|t: TaskView| t.status == TaskStatus::Failed).len(),
            r.interrupted == self@.tasks_of(workflow_id@).filter(
                |t: TaskView| t.status == TaskStatus::Interrupted,
            ).len(),
            r.in_progress == self@.tasks_of(workflow_id@).filter(
                |t: TaskView| t.status == TaskStatus::InProgress,
            ).len(),
            r.pending == self@.tasks_of(workflow_id@).filter(
                |t: TaskView| t.status == TaskStatus::Pending || t.status == TaskStatus::Assigned,
            ).len(),
            r.progress_pct == if r.total > 0 {
                (r.completed * 100) / (r.total as int)
            } else {
                0
            },
            r.workflow_id@ == workflow_id@,
    {
        proof {
            law_summary_counts_by_status(workflow_id@, self@.tasks_of(workflow_id@));
        }
        let tasks = self.list_by_workflow(workflow_id);
        let ghost ts = tasks@.map_values(|t: Task| t@);
        let mut completed: usize = 0;
        let mut failed: usize = 0;
        let mut interrupted: usize = 0;
        let mut in_progress: usize = 0;
        let mut pending: usize = 0;
        let mut i: usize = 0;
        while i < tasks.len()
            invariant
                i <= tasks.len(),
                ts == tasks@.map_values(|t: Task| t@),
                completed == count_where(ts.take(i as int), |s: TaskStatus| is_completed(s)),
                failed == count_where(ts.take(i as int), |s: TaskStatus| is_failed(s)),
                interrupted == count_where(ts.take(i as int), |s: TaskStatus| is_interrupted(s)),
                in_progress == count_where(ts.take(i as int), |s: TaskStatus| is_in_progress(s)),
                pending == count_where(ts.take(i as int), |s: TaskStatus| is_waiting(s)),
            decreases tasks.len() - i,
        {
            proof {
                assert(ts.take(i + 1).drop_last() =~= ts.take(i as int));
                assert(ts.take(i + 1).last() == tasks@[i as int]@);
                lemma_count_le(ts.take(i as int), |s: TaskStatus| is_completed(s));
                lemma_count_le(ts.take(i as int), |s: TaskStatus| is_failed(s));
                lemma_count_le(ts.take(i as int), |s: TaskStatus| is_interrupted(s));
                lemma_count_le(ts.take(i as int), |s: TaskStatus| is_in_progress(s));
                lemma_count_le(ts.take(i as int), |s: TaskStatus| is_waiting(s));
            }
            let st = tasks[i].status;
            if st == TaskStatus::Completed {
                completed = completed + 1;
            }
            if st == TaskStatus::Failed {
                failed = failed + 1;
            }
            if st == TaskStatus::Interrupted {
                interrupted = interrupted + 1;
            }
            if st == TaskStatus::InProgress {
                in_progress = in_progress + 1;
            }
            if st == TaskStatus::Pending || st == TaskStatus::Assigned {
                pending = pending + 1;
            }
            i = i + 1;
        }
        assert(ts.take(tasks.len() as int) =~= ts);
        let total = tasks.len();
        let pct: u32 = if total > 0 {
            proof {
                lemma_count_le(ts, |s: TaskStatus| is_completed(s));
                let c = completed as int;
                let t = total as int;
                assert(c * 100 <= t * 100) by (nonlinear_arith)
                    requires c <= t;
                assert((c * 100) / t <= 100) by (nonlinear_arith)
                    requires c <= t, t > 0;
            }
            let c100: u128 = (completed as u128) * 100;
            (c100 / (total as u128)) as u32
        } else {
            0
        };
        TaskSummary {
            workflow_id: owned(workflow_id),
            total,
            completed,
            failed,
            interrupted,
            in_progress,
            pending,
            progress_pct: pct,
        }
    }


    fn put(&mut self, t: Task)
        requires
            old(self).wf(),
            t.priority == DEFAULT_PRIORITY,
        ensures
            final(self).wf(),
            final(self)@ == old(self)@.after_put(t@),
    {
        let ghost tv = t@;
        let k = t.id.clone();
        self.tasks.insert(k, t);
        proof {
            assert(self@.tasks =~= old(self)@.tasks.insert(tv.id, tv));
            assert(self@.ids =~= old(self)@.ids);
        }
    }

    /// Edits a task: replaces the given name, description and dependencies,
    /// and assigns the given agent. `None` when the task is unknown.
    pub fn update(
        &mut self,
        task_id: &str,
        name: Option<String>,
        description: Option<String>,
        agent: Option<String>,
        dependencies: Option<Vec<String>>,
    ) -> (r: Option<Task>)
        requires
            old(self).wf(),
        ensures
            final(self).wf(),
            old(self)@.tasks.contains_key(task_id@) ==> {
                let t = edited(
                    old(self)@.tasks[task_id@],
                    opt_view(name),
                    opt_view(description),
                    opt_view(agent),
                    match dependencies { Some(ds) => Some(views(ds@)), None => None },
                );
                &&& r matches Some(x) && x@ == t
                &&& final(self)@ == old(self)@.after_put(t)
            },
            !old(self)@.tasks.contains_key(task_id@) ==> r is None && final(self)@ == old(self)@,
    {
        let mut task = match self.tasks.get(task_id) {
            Some(t) => t.copy(),
            None => return None,
        };
        let ghost t0 = task@;
        match name {
            Some(n) => task.name = n,
            None => {},
        }
        match description {
            Some(d) => task.description = d,
            None => {},
        }
        match agent {
            Some(a) => task.assign(a.as_str()),
            None => {},
        }
        match dependencies {
            Some(ds) => task.dependencies = ds,
            None => {},
        }
        proof {
            assert(self.tasks@.contains_key(task_id@));
            assert(task@.id == task_id@);
        }
        let out = task.copy();
        self.put(task);
        Some(out)
    }

    /// Removes a task from the store and from every workflow list. Returns
    /// whether it was stored.
    pub fn remove(&mut self, task_id: &str) -> (r: bool)
        requires
            old(self).wf(),
        ensures
            final(self).wf(),
            r == old(self)@.tasks.contains_key(task_id@),
            r ==> final(self)@ == old(self)@.after_remove(task_id@),
            !r ==> final(self)@ == old(self)@,
            !final(self)@.tasks.contains_key(task_id@),
            forall|w: Seq<char>, i: int|
                0 <= i < final(self)@.tasks_of(w).len() ==> (#[trigger] final(self)@.tasks_of(w)[i]).id != task_id@,
    {
        proof {
            self.lemma_keyed_by_id();
        }
        if !self.tasks.contains_key(task_id) {
            proof {
                let after = self@;
                assert forall|wid: Seq<char>, i: int| 0 <= i < after.tasks_of(wid).len() implies (
                #[trigger] after.tasks_of(wid)[i]).id != task_id@ by {
                    lemma_listed_stored(after.tasks, after.ids_of(wid), i);
                }
            }
            return false;
        }
        self.tasks.remove(task_id);
        let ghost v = self.workflow_tasks@;
        let mut rebuilt: Vec<(String, Vec<String>)> = Vec::new();
        let mut i: usize = 0;
        while i < self.workflow_tasks.len()
            invariant
                i <= self.workflow_tasks.len(),
                v == self.workflow_tasks@,
                rebuilt.len() == i,
                forall|j: int| 0 <= j < i ==> (#[trigger] rebuilt@[j]).0@ == v[j].0@ && views(rebuilt@[j].1@)
                    == without(views(v[j].1@), task_id@),
            decreases self.workflow_tasks.len() - i,
        {
            let list = &self.workflow_tasks[i].1;
            let mut kept: Vec<String> = Vec::new();
            let mut k: usize = 0;
            while k < list.len()
                invariant
                    k <= list.len(),
                    views(kept@) == without(views(list@).take(k as int), task_id@),
                decreases list.len() - k,
            {
                proof {
                    assert(views(list@).take(k + 1).drop_last() =~= views(list@).take(k as int));
                    assert(views(list@).take(k + 1).last() == list@[k as int]@);
                }
                if !str_eq(list[k].as_str(), task_id) {
                    let ghost before = kept@;
                    kept.push(list[k].clone());
                    assert(views(kept@) =~= views(before).push(list@[k as int]@));
                }
                k = k + 1;
            }
            assert(views(list@).take(list.len() as int) =~= views(list@));
            rebuilt.push((self.workflow_tasks[i].0.clone(), kept));
            i = i + 1;
        }
        self.workflow_tasks = rebuilt;
        proof {
            let w = self.workflow_tasks@;
            assert forall|a: int, b: int| 0 <= a < b < w.len() implies (#[trigger] w[a]).0@ != (
            #[trigger] w[b]).0@ by {
                assert(v[a].0@ != v[b].0@);
            }
            assert forall|k: Seq<char>| true implies #[trigger] has_key(w, k) == has_key(v, k)
                && lookup(w, k) == if has_key(v, k) { without(lookup(v, k), task_id@) } else {
                Seq::<Seq<char>>::empty() } by {
                lemma_lookup_filtered(v, w, task_id@, k);
            }
            assert(self@.tasks =~= old(self)@.tasks.remove(task_id@));
            assert(self@.ids =~= old(self)@.after_remove(task_id@).ids);
            let after = self@;
            assert forall|wid: Seq<char>, i: int| 0 <= i < after.tasks_of(wid).len() implies (
            #[trigger] after.tasks_of(wid)[i]).id != task_id@ by {
                lemma_listed_stored(after.tasks, after.ids_of(wid), i);
                let k = choose|k: Seq<char>|
                    after.tasks.contains_key(k) && after.tasks_of(wid)[i] == #[trigger] after.tasks[k];
                assert(old(self)@.tasks.contains_key(k));
                assert(old(self)@.tasks[k].id == k);
            }
        }
        true
    }

    /// Assigns a pending task to an agent.
    pub fn assign(&mut self, task_id: &str, agent: &str) -> (r: Result<Task, String>)
        requires
            old(self).wf(),
        ensures
            final(self).wf(),
            !old(self)@.tasks.contains_key(task_id@) ==> (r matches Err(e) && e@ == not_found_error(task_id@)
                && final(self)@ == old(self)@),
            old(self)@.tasks.contains_key(task_id@) && old(self)@.tasks[task_id@].status
                != TaskStatus::Pending ==> (r matches Err(e) && e@ == not_pending_error(
                task_id@,
                old(self)@.tasks[task_id@].status,
            ) && final(self)@ == old(self)@),
            old(self)@.tasks.contains_key(task_id@) && old(self)@.tasks[task_id@].status
                == TaskStatus::Pending ==> ({
                let t = old(self)@.tasks[task_id@].assigned(agent@);
                outcome_ok(r, t) && final(self)@ == old(self)@.after_put(t)
            }),
    {
        let mut task = match self.tasks.get(task_id) {
            Some(t) => t.copy(),
            None => return Err(concat(concat("Task ", task_id).as_str(), " not found")),
        };
        if task.status != TaskStatus::Pending {
            let m = concat(concat("Task ", task_id).as_str(), " is not pending (current: ");
            return Err(concat(concat(m.as_str(), task.status.name()).as_str(), ")"));
        }
        task.assign(agent);
        let out = task.copy();
        self.put(task);
        Ok(out)
    }

    /// Starts a pending or assigned task.
    pub fn start(&mut self, task_id: &str) -> (r: Result<Task, String>)
        requires
            old(self).wf(),
        ensures
            final(self).wf(),
            !old(self)@.tasks.contains_key(task_id@) ==> (r matches Err(e) && e@ == not_found_error(task_id@)
                && final(self)@ == old(self)@),
            old(self)@.tasks.contains_key(task_id@) && !old(self)@.tasks[task_id@].can_start() ==> (
            r matches Err(e) && e@ == start_error(task_id@, old(self)@.tasks[task_id@].status)
                && final(self)@ == old(self)@),
            old(self)@.tasks.contains_key(task_id@) && old(self)@.tasks[task_id@].can_start() ==> (
            r matches Ok(x) && x@ == old(self)@.tasks[task_id@].started(x.started_at->0)
                && final(self)@ == old(self)@.after_put(x@)),
    {
        let mut task = match self.tasks.get(task_id) {
            Some(t) => t.copy(),
            None => return Err(concat(concat("Task ", task_id).as_str(), " not found")),
        };
        match task.start() {
            Ok(()) => {},
            Err(e) => return Err(e),
        }
        let out = task.copy();
        self.put(task);
        Ok(out)
    }

    /// Completes a task that is in progress.
    pub fn complete(&mut self, task_id: &str, result: &str) -> (r: Result<Task, String>)
        requires
            old(self).wf(),
        ensures
            final(self).wf(),
            !old(self)@.tasks.contains_key(task_id@) ==> (r matches Err(e) && e@ == not_found_error(task_id@)
                && final(self)@ == old(self)@),
            old(self)@.tasks.contains_key(task_id@) && old(self)@.tasks[task_id@].status
                != TaskStatus::InProgress ==> (r matches Err(e) && e@ == not_in_progress_error(task_id@)
                && final(self)@ == old(self)@),
            old(self)@.tasks.contains_key(task_id@) && old(self)@.tasks[task_id@].status
                == TaskStatus::InProgress ==> (r matches Ok(x)
                && x@ == old(self)@.tasks[task_id@].completed(result@, x.completed_at->0)
                && final(self)@ == old(self)@.after_put(x@)
                && final(self)@.tasks.contains_key(task_id@) && final(self)@.tasks[task_id@] == x@),
    {
        proof {
            self.lemma_keyed_by_id();
        }
        let mut task = match self.tasks.get(task_id) {
            Some(t) => t.copy(),
            None => return Err(concat(concat("Task ", task_id).as_str(), " not found")),
        };
        if task.status != TaskStatus::InProgress {
            return Err(concat(concat("Task ", task_id).as_str(), " is not in progress"));
        }
        task.complete(result);
        let out = task.copy();
        self.put(task);
        Ok(out)
    }

    /// Marks a task failed, unless it has already finished: a completed,
    /// failed, interrupted or skipped task has no way out.
    pub fn fail(&mut self, task_id: &str, reason: &str) -> (r: Result<Task, String>)
        requires
            old(self).wf(),
        ensures
            final(self).wf(),
            !old(self)@.tasks.contains_key(task_id@) ==> (r matches Err(e) && e@ == not_found_error(task_id@)
                && final(self)@ == old(self)@),
            old(self)@.tasks.contains_key(task_id@) && old(self)@.tasks[task_id@].status.spec_is_terminal()
                ==> (r matches Err(e) && e@ == already_terminal_error(
                task_id@,
                old(self)@.tasks[task_id@].status,
            ) && final(self)@ == old(self)@),
            old(self)@.tasks.contains_key(task_id@) && !old(self)@.tasks[task_id@].status.spec_is_terminal()
                ==> (r matches Ok(x)
                && x@ == old(self)@.tasks[task_id@].failed(reason@, x.completed_at->0)
                && final(self)@ == old(self)@.after_put(x@)
                && final(self)@.tasks.contains_key(task_id@) && final(self)@.tasks[task_id@] == x@),
    {
        proof {
            self.lemma_keyed_by_id();
        }
        let mut task = match self.tasks.get(task_id) {
            Some(t) => t.copy(),
            None => return Err(concat(concat("Task ", task_id).as_str(), " not found")),
        };
        if task.status.is_terminal() {
            let m = concat(concat("Task ", task_id).as_str(), " is already terminal (");
            return Err(concat(concat(m.as_str(), task.status.name()).as_str(), ")"));
        }
        task.fail(reason);
        let out = task.copy();
        self.put(task);
        Ok(out)
    }

    /// Records how a dispatched task's run ended: its output completes the
    /// task, an error fails it (as `complete` and `fail` do).
    pub fn settle(&mut self, task_id: &str, outcome: Result<String, String>) -> (r: Result<Task, String>)
        requires
            old(self).wf(),
        ensures
            final(self).wf(),
            !old(self)@.tasks.contains_key(task_id@) ==> (r matches Err(e) && e@ == not_found_error(task_id@)
                && final(self)@ == old(self)@),
            match outcome {
                Ok(c) => {
                    &&& old(self)@.tasks.contains_key(task_id@) && old(self)@.tasks[task_id@].status
                        != TaskStatus::InProgress ==> (r matches Err(e) && e@ == not_in_progress_error(task_id@)
                        && final(self)@ == old(self)@)
                    &&& old(self)@.tasks.contains_key(task_id@) && old(self)@.tasks[task_id@].status
                        == TaskStatus::InProgress ==> (r matches Ok(x)
                        && x@ == old(self)@.tasks[task_id@].completed(c@, x.completed_at->0)
                        && final(self)@ == old(self)@.after_put(x@))
                },
                Err(m) => {
                    &&& old(self)@.tasks.contains_key(task_id@) && old(self)@.tasks[task_id@].status.spec_is_terminal()
                        ==> (r matches Err(e) && e@ == already_terminal_error(
                        task_id@,
                        old(self)@.tasks[task_id@].status,
                    ) && final(self)@ == old(self)@)
                    &&& old(self)@.tasks.contains_key(task_id@) && !old(self)@.tasks[task_id@].status.spec_is_terminal()
                        ==> (r matches Ok(x)
                        && x@ == old(self)@.tasks[task_id@].failed(m@, x.completed_at->0)
                        && final(self)@ == old(self)@.after_put(x@))
                },
            },
    {
        match outcome {
            Ok(c) => self.complete(task_id, c.as_str()),
            Err(m) => self.fail(task_id, m.as_str()),
        }
    }

    /// Interrupts a task that has not finished.
    pub fn interrupt(&mut self, task_id: &str, reason: &str) -> (r: Result<Task, String>)
        requires
            old(self).wf(),
        ensures
            final(self).wf(),
            !old(self)@.tasks.contains_key(task_id@) ==> (r matches Err(e) && e@ == not_found_error(task_id@)
                && final(self)@ == old(self)@),
            old(self)@.tasks.contains_key(task_id@) && old(self)@.tasks[task_id@].status.spec_is_terminal()
                ==> (r matches Err(e) && e@ == already_terminal_error(
                task_id@,
                old(self)@.tasks[task_id@].status,
            ) && final(self)@ == old(self)@),
            old(self)@.tasks.contains_key(task_id@) && !old(self)@.tasks[task_id@].status.spec_is_terminal()
                ==> (r matches Ok(x)
                && x@ == old(self)@.tasks[task_id@].interrupted(reason@, x.completed_at->0)
                && final(self)@ == old(self)@.after_put(x@)),
    {
        let mut task = match self.tasks.get(task_id) {
            Some(t) => t.copy(),
            None => return Err(concat(concat("Task ", task_id).as_str(), " not found")),
        };
        if task.status.is_terminal() {
            let m = concat(concat("Task ", task_id).as_str(), " is already terminal (");
            return Err(concat(concat(m.as_str(), task.status.name()).as_str(), ")"));
        }
        task.interrupt(reason);
        let out = task.copy();
        self.put(task);
        Ok(out)
    }

}



// ── Laws ────────────────────────────────────────────────────────────────

proof fn lemma_without_absent(ids: Seq<Seq<char>>, x: Seq<char>)
    ensures
        !without(ids, x).contains(x),
        without(ids, x).len() <= ids.len(),
    decreases ids.len(),
{
    if ids.len() > 0 {
        lemma_without_absent(ids.drop_last(), x);
        if ids.last() != x {
            let w = without(ids.drop_last(), x);
            assert forall|i: int| 0 <= i < w.push(ids.last()).len() implies w.push(ids.last())[i] != x by {
                if i < w.len() {
                    assert(!w.contains(x));
                    assert(w.push(ids.last())[i] == w[i]);
                }
            }
        }
    }
}

/// A removed task is gone: the store no longer holds it and no workflow
/// lists it.
pub proof fn law_removed_task_is_gone(m: TaskManagerView, id: Seq<char>, w: Seq<char>)
    ensures
        !m.after_remove(id).tasks.contains_key(id),
        !m.after_remove(id).ids_of(w).contains(id),
{
    if m.ids.contains_key(w) {
        lemma_without_absent(m.ids[w], id);
    }
}

/// A created task is the last task of its workflow, and is stored under
/// its id.
pub proof fn law_created_task_listed_last(m: TaskManagerView, t: TaskView)
    ensures
        m.after_create(t).tasks.contains_key(t.id),
        m.after_create(t).tasks[t.id] == t,
        m.after_create(t).tasks_of(t.workflow_id).last() == t,
        m.after_create(t).tasks_of(t.workflow_id).len() > 0,
{
    let m2 = m.after_create(t);
    lemma_listed_push(m2.tasks, m.ids_of(t.workflow_id), t.id);
    assert(m2.ids_of(t.workflow_id) == m.ids_of(t.workflow_id).push(t.id));
}

/// The task `next_ready` finds is pending and every dependency of it is
/// finished or unknown.
pub proof fn law_ready_task_is_pending(tasks: Map<Seq<char>, TaskView>, ids: Seq<Seq<char>>)
    ensures
        first_ready(tasks, ids) matches Some(t) ==> t.status == TaskStatus::Pending && t.deps_met(tasks),
    decreases ids.len(),
{
    if ids.len() > 0 && !is_ready(tasks, ids[0]) {
        law_ready_task_is_pending(tasks, ids.drop_first());
    }
}

proof fn lemma_partition(ts: Seq<TaskView>)
    ensures
        count_where(ts, |s: TaskStatus| is_completed(s)) + count_where(ts, |s: TaskStatus| is_failed(s))
            + count_where(ts, |s: TaskStatus| is_interrupted(s)) + count_where(
            ts,
            |s: TaskStatus| is_in_progress(s),
        ) + count_where(ts, |s: TaskStatus| is_waiting(s)) + count_where(ts, |s: TaskStatus| is_skipped(s))
            == ts.len(),
    decreases ts.len(),
{
    if ts.len() > 0 {
        lemma_partition(ts.drop_last());
    }
}

/// A workflow summary partitions the tasks: the completed, failed,
/// interrupted, running and waiting counts, with the skipped tasks, add up
/// to the total, and the progress never exceeds 100 percent.
pub proof fn law_summary_partitions(workflow_id: Seq<char>, ts: Seq<TaskView>)
    ensures
        ({
            let s = summary_of(workflow_id, ts);
            &&& s.2 + s.3 + s.4 + s.5 + s.6 + count_where(ts, |x: TaskStatus| is_skipped(x)) == s.1
            &&& s.7 <= 100
        }),
{
    lemma_partition(ts);
    lemma_count_le(ts, |s: TaskStatus| is_completed(s));
    let c = count_where(ts, |s: TaskStatus| is_completed(s)) as int;
    let t = ts.len() as int;
    if t > 0 {
        assert((c * 100) / t <= 100) by (nonlinear_arith)
            requires
                0 <= c <= t,
                t > 0,
        ;
    }
}

proof fn lemma_count_is_filter(ts: Seq<TaskView>, p: spec_fn(TaskStatus) -> bool, q: spec_fn(TaskView) -> bool)
    requires
        forall|t: TaskView| #[trigger] q(t) == p(t.status),
    ensures
        count_where(ts, p) == ts.filter(q).len(),
    decreases ts.len(),
{
    reveal(Seq::filter);
    if ts.len() > 0 {
        lemma_count_is_filter(ts.drop_last(), p, q);
        assert(q(ts.last()) == p(ts.last().status));
    }
}

/// A workflow summary counts each status on its own: the completed, failed,
/// interrupted and in-progress counts are the numbers of tasks with exactly
/// that status, the pending count those that are Pending or Assigned, and
/// the total all of them.
pub proof fn law_summary_counts_by_status(workflow_id: Seq<char>, ts: Seq<TaskView>)
    ensures
        summary_of(workflow_id, ts).1 == ts.len(),
        summary_of(workflow_id, ts).2 == ts.filter(|t: TaskView| t.status == TaskStatus::Completed).len(),
        summary_of(workflow_id, ts).3 == ts.filter(|t: TaskView| t.status == TaskStatus::Failed).len(),
        summary_of(workflow_id, ts).4 == ts.filter(|t: TaskView| t.status == TaskStatus::Interrupted).len(),
        summary_of(workflow_id, ts).5 == ts.filter(|t: TaskView| t.status == TaskStatus::InProgress).len(),
        summary_of(workflow_id, ts).6 == ts.filter(
            |t: TaskView| t.status == TaskStatus::Pending || t.status == TaskStatus::Assigned,
        ).len(),
{
    lemma_count_is_filter(ts, |s: TaskStatus| is_completed(s), |t: TaskView| t.status == TaskStatus::Completed);
    lemma_count_is_filter(ts, |s: TaskStatus| is_failed(s), |t: TaskView| t.status == TaskStatus::Failed);
    lemma_count_is_filter(ts, |s: TaskStatus| is_interrupted(s), |t: TaskView| t.status == TaskStatus::Interrupted);
    lemma_count_is_filter(ts, |s: TaskStatus| is_in_progress(s), |t: TaskView| t.status == TaskStatus::InProgress);
    lemma_count_is_filter(
        ts,
        |s: TaskStatus| is_waiting(s),
        |t: TaskView| t.status == TaskStatus::Pending || t.status == TaskStatus::Assigned,
    );
}

/// Finished tasks stay finished: a terminal task cannot be started.
pub proof fn law_terminal_cannot_start(t: TaskView)
    requires
        t.status.spec_is_terminal(),
    ensures
        !t.can_start(),
{
}

} // verus!
