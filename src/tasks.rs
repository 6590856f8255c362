//! Shared task list for coordinating work between agents.
//!
//! A `TaskList` is one namespace of tasks with its id counter. Tasks are
//! created, read, updated and claimed through the operations below; a claim
//! is the dependency-gated move of a pending task to `in_progress`.

use vstd::prelude::*;
use vstd::string::*;

use crate::numbers::{decimal, decimal_string, lemma_decimal_injective, parse_decimal};
use crate::text::{clone_strings, join_with, lemma_filter_take_step, str_eq, strings_view};

verus! {

/// Status of a task in the shared list.
#[derive(Debug, Clone, Copy, PartialEq, Eq, Structural)]
pub enum TaskStatus {
    Pending,
    InProgress,
    Completed,
}

/// The wire name of a status.
pub open spec fn status_name(s: TaskStatus) -> Seq<char> {
    match s {
        TaskStatus::Pending => "pending"@,
        TaskStatus::InProgress => "in_progress"@,
        TaskStatus::Completed => "completed"@,
    }
}

/// The status whose wire name is `s`, if any.
pub open spec fn status_from_name(s: Seq<char>) -> Option<TaskStatus> {
    if s == "pending"@ {
        Some(TaskStatus::Pending)
    } else if s == "in_progress"@ {
        Some(TaskStatus::InProgress)
    } else if s == "completed"@ {
        Some(TaskStatus::Completed)
    } else {
        None
    }
}

impl TaskStatus {
    /// The wire name: `pending`, `in_progress` or `completed`.
    pub fn as_str(&self) -> (r: &'static str)
        ensures
            r@ == status_name(*self),
    {
        match self {
            TaskStatus::Pending => "pending",
            TaskStatus::InProgress => "in_progress",
            TaskStatus::Completed => "completed",
        }
    }

    /// Parse a wire name; any other text is `UnknownStatus`.
    pub fn parse(s: &str) -> (r: Result<TaskStatus, TaskError>)
        ensures
            match status_from_name(s@) {
                Some(st) => r == Ok::<TaskStatus, TaskError>(st),
                None => r is Err && r->Err_0@ == (TaskErrorView::UnknownStatus { value: s@ }),
            },
    {
        if str_eq(s, "pending") {
            Ok(TaskStatus::Pending)
        } else if str_eq(s, "in_progress") {
            Ok(TaskStatus::InProgress)
        } else if str_eq(s, "completed") {
            Ok(TaskStatus::Completed)
        } else {
            Err(TaskError::UnknownStatus { value: String::from_str(s) })
        }
    }
}

/// The operations of the action interface.
#[derive(Debug, Clone, Copy, PartialEq, Eq, Structural)]
pub enum Action {
    Create,
    List,
    Get,
    Update,
    Claim,
}

/// Request fields that an action may require.
#[derive(Debug, Clone, Copy, PartialEq, Eq, Structural)]
pub enum Field {
    TaskId,
    Subject,
    Owner,
}

pub open spec fn action_name(a: Action) -> Seq<char> {
    match a {
        Action::Create => "create"@,
        Action::List => "list"@,
        Action::Get => "get"@,
        Action::Update => "update"@,
        Action::Claim => "claim"@,
    }
}

pub open spec fn field_name(f: Field) -> Seq<char> {
    match f {
        Field::TaskId => "task_id"@,
        Field::Subject => "subject"@,
        Field::Owner => "owner"@,
    }
}

impl Action {
    pub fn as_str(&self) -> (r: &'static str)
        ensures
            r@ == action_name(*self),
    {
        match self {
            Action::Create => "create",
            Action::List => "list",
            Action::Get => "get",
            Action::Update => "update",
            Action::Claim => "claim",
        }
    }
}

impl Field {
    pub fn as_str(&self) -> (r: &'static str)
        ensures
            r@ == field_name(*self),
    {
        match self {
            Field::TaskId => "task_id",
            Field::Subject => "subject",
            Field::Owner => "owner",
        }
    }
}

/// Errors of the task operations and of the action interface.
#[derive(Debug, Clone)]
pub enum TaskError {
    /// The task id is not in the list.
    NotFound { task_id: String },
    /// The request names no action.
    MissingAction,
    /// The action needs a field that the request lacks.
    MissingField { action: Action, field: Field },
    /// A status string that is not a wire name.
    UnknownStatus { value: String },
    /// The request names an action that does not exist.
    UnknownAction { action: String },
    /// A claim on a task that is not pending.
    InvalidTransition { task_id: String, status: TaskStatus },
    /// A claim on a task with prerequisites that are not completed.
    BlockedByIncomplete { task_id: String, blocked: Vec<String> },
    /// The list's id counter cannot grow any further.
    IdsExhausted,
}

/// An error as its contents' characters.
pub enum TaskErrorView {
    NotFound { task_id: Seq<char> },
    MissingAction,
    MissingField { action: Action, field: Field },
    UnknownStatus { value: Seq<char> },
    UnknownAction { action: Seq<char> },
    InvalidTransition { task_id: Seq<char>, status: TaskStatus },
    BlockedByIncomplete { task_id: Seq<char>, blocked: Seq<Seq<char>> },
    IdsExhausted,
}

/// The characters of an optional string.
pub open spec fn opt_view(o: Option<String>) -> Option<Seq<char>> {
    match o {
        Some(s) => Some(s@),
        None => None,
    }
}

impl View for TaskError {
    type V = TaskErrorView;

    open spec fn view(&self) -> TaskErrorView {
        match self {
            TaskError::NotFound { task_id } => TaskErrorView::NotFound { task_id: task_id@ },
            TaskError::MissingAction => TaskErrorView::MissingAction,
            TaskError::MissingField { action, field } => TaskErrorView::MissingField {
                action: *action,
                field: *field,
            },
            TaskError::UnknownStatus { value } => TaskErrorView::UnknownStatus { value: value@ },
            TaskError::UnknownAction { action } => TaskErrorView::UnknownAction {
                action: action@,
            },
            TaskError::InvalidTransition { task_id, status } => TaskErrorView::InvalidTransition {
                task_id: task_id@,
                status: *status,
            },
            TaskError::BlockedByIncomplete { task_id, blocked } =>
                TaskErrorView::BlockedByIncomplete {
                task_id: task_id@,
                blocked: strings_view(blocked@),
            },
            TaskError::IdsExhausted => TaskErrorView::IdsExhausted,
        }
    }
}

/// The text a caller sees for an error.
pub open spec fn error_message(e: TaskErrorView) -> Seq<char> {
    match e {
        TaskErrorView::NotFound { task_id } => "task not found: "@ + task_id,
        TaskErrorView::MissingAction => "missing required parameter: action"@,
        TaskErrorView::MissingField { action, field } => action_name(action) + " requires '"@
            + field_name(field) + "'"@,
        TaskErrorView::UnknownStatus { value } => "unknown task status: "@ + value,
        TaskErrorView::UnknownAction { action } => "unknown action: "@ + action,
        TaskErrorView::InvalidTransition { task_id, status } => "task "@ + task_id
            + " cannot be claimed: current status is "@ + status_name(status),
        TaskErrorView::BlockedByIncomplete { task_id, blocked } => "task "@ + task_id
            + " is blocked by incomplete tasks: "@ + crate::text::joined(blocked, ", "@),
        TaskErrorView::IdsExhausted => "task id counter exhausted"@,
    }
}

impl TaskError {
    /// The descriptive text of the error.
    pub fn message(&self) -> (r: String)
        ensures
            r@ == error_message(self@),
    {
        match self {
            TaskError::NotFound { task_id } => {
                let mut s = String::from_str("task not found: ");
                s.append(task_id.as_str());
                s
            },
            TaskError::MissingAction => String::from_str("missing required parameter: action"),
            TaskError::MissingField { action, field } => {
                let mut s = String::from_str(action.as_str());
                s.append(" requires '");
                s.append(field.as_str());
                s.append("'");
                s
            },
            TaskError::UnknownStatus { value } => {
                let mut s = String::from_str("unknown task status: ");
                s.append(value.as_str());
                s
            },
            TaskError::UnknownAction { action } => {
                let mut s = String::from_str("unknown action: ");
                s.append(action.as_str());
                s
            },
            TaskError::InvalidTransition { task_id, status } => {
                let mut s = String::from_str("task ");
                s.append(task_id.as_str());
                s.append(" cannot be claimed: current status is ");
                s.append(status.as_str());
                s
            },
            TaskError::BlockedByIncomplete { task_id, blocked } => {
                let mut s = String::from_str("task ");
                s.append(task_id.as_str());
                s.append(" is blocked by incomplete tasks: ");
                let list = join_with(blocked, ", ");
                s.append(list.as_str());
                s
            },
            TaskError::IdsExhausted => String::from_str("task id counter exhausted"),
        }
    }
}

/// A single task in the shared list.
#[derive(Debug, Clone)]
pub struct Task {
    pub id: String,
    pub subject: String,
    pub description: String,
    pub status: TaskStatus,
    pub owner: Option<String>,
    /// Ids of the tasks that this one is said to block; no operation reads them.
    pub blocks: Vec<String>,
    /// Ids of the tasks that must be completed before this one is claimed.
    pub blocked_by: Vec<String>,
    pub created_at: u64,
    pub updated_at: u64,
}

/// A task as plain values: strings as their characters.
pub struct TaskView {
    pub id: Seq<char>,
    pub subject: Seq<char>,
    pub description: Seq<char>,
    pub status: TaskStatus,
    pub owner: Option<Seq<char>>,
    pub blocks: Seq<Seq<char>>,
    pub blocked_by: Seq<Seq<char>>,
    pub created_at: u64,
    pub updated_at: u64,
}

impl View for Task {
    type V = TaskView;

    open spec fn view(&self) -> TaskView {
        TaskView {
            id: self.id@,
            subject: self.subject@,
            description: self.description@,
            status: self.status,
            owner: opt_view(self.owner),
            blocks: strings_view(self.blocks@),
            blocked_by: strings_view(self.blocked_by@),
            created_at: self.created_at,
            updated_at: self.updated_at,
        }
    }
}

fn clone_opt(o: &Option<String>) -> (r: Option<String>)
    ensures
        r == *o,
{
    match o {
        Some(s) => Some(s.clone()),
        None => None,
    }
}

impl Task {
    /// A copy equal in every field.
    pub fn duplicate(&self) -> (r: Task)
        ensures
            r@ == self@,
    {
        Task {
            id: self.id.clone(),
            subject: self.subject.clone(),
            description: self.description.clone(),
            status: self.status,
            owner: clone_opt(&self.owner),
            blocks: clone_strings(&self.blocks),
            blocked_by: clone_strings(&self.blocked_by),
            created_at: self.created_at,
            updated_at: self.updated_at,
        }
    }
}

/// All tasks of one list and its id counter.
///
/// Task ids are unique within the list; the tasks are kept in the order in
/// which their ids first entered the list.
#[derive(Debug, Clone)]
pub struct TaskList {
    pub next_id: u64,
    pub tasks: Vec<Task>,
}

/// A list as plain values.
pub struct TaskListView {
    pub next_id: u64,
    pub tasks: Seq<TaskView>,
}

/// Each task as plain values.
pub open spec fn tasks_view(v: Seq<Task>) -> Seq<TaskView> {
    v.map_values(|t: Task| t@)
}

impl View for TaskList {
    type V = TaskListView;

    open spec fn view(&self) -> TaskListView {
        TaskListView { next_id: self.next_id, tasks: tasks_view(self.tasks@) }
    }
}

/// No two tasks share an id.
pub open spec fn ids_unique(tasks: Seq<TaskView>) -> bool {
    forall|i: int, j: int|
        #![trigger tasks[i], tasks[j]]
        0 <= i < j < tasks.len() ==> tasks[i].id != tasks[j].id
}

/// The position of the task with id `id`, or -1.
pub open spec fn find_index(tasks: Seq<TaskView>, id: Seq<char>) -> int {
    if exists|i: int| 0 <= i < tasks.len() && tasks[i].id == id {
        choose|i: int| 0 <= i < tasks.len() && tasks[i].id == id
    } else {
        -1
    }
}

/// The timestamp a mutation leaves: the clock's reading, never below the
/// previous one.
pub open spec fn refreshed(prev: u64, now: u64) -> u64 {
    if now >= prev {
        now
    } else {
        prev
    }
}

impl TaskListView {
    /// Well formed: task ids are unique.
    pub open spec fn wf(self) -> bool {
        ids_unique(self.tasks)
    }

    /// The list a fresh namespace starts with.
    pub open spec fn empty() -> TaskListView {
        TaskListView { next_id: 1, tasks: Seq::empty() }
    }
}

/// The task that `create` makes.
pub open spec fn fresh_task(
    id: Seq<char>,
    subject: Seq<char>,
    description: Seq<char>,
    now: u64,
) -> TaskView {
    TaskView {
        id,
        subject,
        description,
        status: TaskStatus::Pending,
        owner: None,
        blocks: Seq::empty(),
        blocked_by: Seq::empty(),
        created_at: now,
        updated_at: now,
    }
}

/// The list with `t` stored under its id: replacing a task with that id,
/// else appended.
pub open spec fn put_task(tasks: Seq<TaskView>, t: TaskView) -> Seq<TaskView> {
    let i = find_index(tasks, t.id);
    if i < 0 {
        tasks.push(t)
    } else {
        tasks.update(i, t)
    }
}

/// What `create` leaves and returns.
pub open spec fn create_spec(
    l: TaskListView,
    subject: Seq<char>,
    description: Seq<char>,
    now: u64,
) -> (TaskListView, TaskView) {
    let t = fresh_task(decimal(l.next_id as nat), subject, description, now);
    (TaskListView { next_id: (l.next_id + 1) as u64, tasks: put_task(l.tasks, t) }, t)
}

pub open spec fn opt_strings_view(o: Option<Vec<String>>) -> Option<Seq<Seq<char>>> {
    match o {
        Some(v) => Some(strings_view(v@)),
        None => None,
    }
}

/// The new value if one is given, else the current one.
pub open spec fn or_keep<T>(new: Option<T>, cur: T) -> T {
    match new {
        Some(v) => v,
        None => cur,
    }
}

/// What `update` leaves and returns.
pub open spec fn update_spec(
    l: TaskListView,
    id: Seq<char>,
    status: Option<TaskStatus>,
    subject: Option<Seq<char>>,
    description: Option<Seq<char>>,
    owner: Option<Seq<char>>,
    blocked_by: Option<Seq<Seq<char>>>,
    now: u64,
) -> Result<(TaskListView, TaskView), TaskErrorView> {
    let i = find_index(l.tasks, id);
    if i < 0 {
        Err(TaskErrorView::NotFound { task_id: id })
    } else {
        let t = l.tasks[i];
        let n = TaskView {
            id: t.id,
            subject: or_keep(subject, t.subject),
            description: or_keep(description, t.description),
            status: or_keep(status, t.status),
            owner: if owner is Some {
                owner
            } else {
                t.owner
            },
            blocks: t.blocks,
            blocked_by: or_keep(blocked_by, t.blocked_by),
            created_at: t.created_at,
            updated_at: refreshed(t.updated_at, now),
        };
        Ok((TaskListView { next_id: l.next_id, tasks: l.tasks.update(i, n) }, n))
    }
}

/// Whether `dep` names a completed task of the list.
pub open spec fn dep_completed(tasks: Seq<TaskView>, dep: Seq<char>) -> bool {
    exists|j: int| 0 <= j < tasks.len() && tasks[j].id == dep && tasks[j].status == TaskStatus::Completed
}

/// The prerequisites that are not yet completed, in their order.
pub open spec fn incomplete_deps(tasks: Seq<TaskView>, deps: Seq<Seq<char>>) -> Seq<Seq<char>> {
    deps.filter(|d: Seq<char>| !dep_completed(tasks, d))
}

/// What `claim` leaves and returns.
pub open spec fn claim_spec(
    l: TaskListView,
    id: Seq<char>,
    owner: Seq<char>,
    now: u64,
) -> Result<(TaskListView, TaskView), TaskErrorView> {
    let i = find_index(l.tasks, id);
    if i < 0 {
        Err(TaskErrorView::NotFound { task_id: id })
    } else {
        let t = l.tasks[i];
        let blocked = incomplete_deps(l.tasks, t.blocked_by);
        if t.status != TaskStatus::Pending {
            Err(TaskErrorView::InvalidTransition { task_id: id, status: t.status })
        } else if blocked.len() > 0 {
            Err(TaskErrorView::BlockedByIncomplete { task_id: id, blocked })
        } else {
            let n = TaskView {
                owner: Some(owner),
                status: TaskStatus::InProgress,
                updated_at: refreshed(t.updated_at, now),
                ..t
            };
            Ok((TaskListView { next_id: l.next_id, tasks: l.tasks.update(i, n) }, n))
        }
    }
}

/// Whether a task passes a status filter.
pub open spec fn passes(t: TaskView, filter: Option<TaskStatus>) -> bool {
    match filter {
        Some(s) => t.status == s,
        None => true,
    }
}

/// The tasks that pass the filter, in list order.
pub open spec fn selected(tasks: Seq<TaskView>, filter: Option<TaskStatus>) -> Seq<TaskView> {
    tasks.filter(|t: TaskView| passes(t, filter))
}

/// Ascending by numeric id.
pub open spec fn sorted_by_id(tasks: Seq<TaskView>) -> bool {
    forall|a: int, b: int| 0 <= a < b < tasks.len() ==> id_key(tasks[a].id) <= id_key(tasks[b].id)
}

/// What `list_tasks` returns: exactly the tasks that pass the filter,
/// ascending by numeric id.
pub open spec fn listing(tasks: Seq<TaskView>, filter: Option<TaskStatus>, r: Seq<TaskView>) -> bool {
    &&& r.len() == selected(tasks, filter).len()
    &&& forall|t: TaskView| r.contains(t) <==> selected(tasks, filter).contains(t)
    &&& sorted_by_id(r)
}

/// The task with id `id`, if any.
pub open spec fn lookup(tasks: Seq<TaskView>, id: Seq<char>) -> Option<TaskView> {
    let i = find_index(tasks, id);
    if i < 0 {
        None
    } else {
        Some(tasks[i])
    }
}

pub open spec fn opt_task_view(o: Option<Task>) -> Option<TaskView> {
    match o {
        Some(t) => Some(t@),
        None => None,
    }
}

/// The tasks with the first task of each id kept, in order.
pub open spec fn first_of_each_id(s: Seq<TaskView>) -> Seq<TaskView>
    decreases s.len(),
{
    if s.len() == 0 {
        Seq::empty()
    } else {
        let d = first_of_each_id(s.drop_last());
        if find_index(d, s.last().id) >= 0 {
            d
        } else {
            d.push(s.last())
        }
    }
}

/// The number a task id sorts by: its value as a `u64`, or 0.
pub open spec fn id_key(id: Seq<char>) -> nat {
    match crate::numbers::parse_u64(id) {
        Some(v) => v as nat,
        None => 0,
    }
}

impl TaskList {
    /// An empty list whose first id is `1`.
    pub fn new() -> (r: TaskList)
        ensures
            r@ == TaskListView::empty(),
    {
        let r = TaskList { next_id: 1, tasks: Vec::new() };
        assert(r@.tasks =~= Seq::<TaskView>::empty());
        r
    }

    /// The position of the task `id`.
    pub fn position(&self, id: &str) -> (r: Option<usize>)
        requires
            self@.wf(),
        ensures
            match r {
                Some(i) => i < self.tasks.len() && find_index(self@.tasks, id@) == i,
                None => find_index(self@.tasks, id@) == -1,
            },
    {
        let mut i: usize = 0;
        while i < self.tasks.len()
            invariant
                self@.wf(),
                i <= self.tasks.len(),
                forall|j: int| 0 <= j < i ==> self@.tasks[j].id != id@,
            decreases self.tasks.len() - i,
        {
            if str_eq(self.tasks[i].id.as_str(), id) {
                assert(self@.tasks[i as int].id == id@);
                proof {
                    let k = find_index(self@.tasks, id@);
                    assert(0 <= k < self@.tasks.len() && self@.tasks[k].id == id@);
                    if k > i as int {
                        assert(self@.tasks[i as int].id != self@.tasks[k].id);
                    }
                }
                return Some(i);
            }
            i = i + 1;
        }
        None
    }

    /// Allocate the next id and store a new pending task under it. A task
    /// already stored under that id (possible only in a list read back with
    /// a counter behind its ids) is replaced, as a map insert would.
    pub fn create(&mut self, subject: String, description: String, now: u64) -> (r: Task)
        requires
            old(self)@.wf(),
            old(self).next_id < u64::MAX,
        ensures
            final(self)@.wf(),
            create_spec(old(self)@, subject@, description@, now) == (final(self)@, r@),
    {
        let id = decimal_string(self.next_id);
        self.next_id = self.next_id + 1;
        let task = Task {
            id,
            subject,
            description,
            status: TaskStatus::Pending,
            owner: None,
            blocks: Vec::new(),
            blocked_by: Vec::new(),
            created_at: now,
            updated_at: now,
        };
        let copy = task.duplicate();
        assert(task@.blocks =~= Seq::<Seq<char>>::empty());
        assert(task@.blocked_by =~= Seq::<Seq<char>>::empty());
        let ghost before = self@.tasks;
        match self.position(task.id.as_str()) {
            Some(i) => {
                self.tasks.set(i, task);
                assert(self@.tasks =~= before.update(i as int, copy@));
            },
            None => {
                self.tasks.push(task);
                assert(self@.tasks =~= before.push(copy@));
            },
        }
        copy
    }

    /// A copy of the task `task_id`, if present.
    pub fn get(&self, task_id: &str) -> (r: Option<Task>)
        requires
            self@.wf(),
        ensures
            lookup(self@.tasks, task_id@) == opt_task_view(r),
    {
        match self.position(task_id) {
            Some(i) => Some(self.tasks[i].duplicate()),
            None => None,
        }
    }

    /// Overwrite the fields that are given, and refresh `updated_at`.
    pub fn update(
        &mut self,
        task_id: &str,
        status: Option<TaskStatus>,
        subject: Option<String>,
        description: Option<String>,
        owner: Option<String>,
        blocked_by: Option<Vec<String>>,
        now: u64,
    ) -> (r: Result<Task, TaskError>)
        requires
            old(self)@.wf(),
        ensures
            final(self)@.wf(),
            match r {
                Ok(t) => update_spec(
                    old(self)@,
                    task_id@,
                    status,
                    opt_view(subject),
                    opt_view(description),
                    opt_view(owner),
                    opt_strings_view(blocked_by),
                    now,
                ) == Ok::<(TaskListView, TaskView), TaskErrorView>((final(self)@, t@)),
                Err(e) => update_spec(
                    old(self)@,
                    task_id@,
                    status,
                    opt_view(subject),
                    opt_view(description),
                    opt_view(owner),
                    opt_strings_view(blocked_by),
                    now,
                ) == Err::<(TaskListView, TaskView), TaskErrorView>(e@) && final(self)@ == old(
                    self,
                )@,
            },
    {
        let i = match self.position(task_id) {
            Some(i) => i,
            None => {
                return Err(TaskError::NotFound { task_id: String::from_str(task_id) });
            },
        };
        let mut t = self.tasks[i].duplicate();
        if let Some(s) = status {
            t.status = s;
        }
        if let Some(s) = subject {
            t.subject = s;
        }
        if let Some(d) = description {
            t.description = d;
        }
        if let Some(o) = owner {
            t.owner = Some(o);
        }
        if let Some(deps) = blocked_by {
            t.blocked_by = deps;
        }
        if now >= t.updated_at {
            t.updated_at = now;
        }
        let copy = t.duplicate();
        let ghost before = self@.tasks;
        self.tasks.set(i, t);
        assert(self@.tasks =~= before.update(i as int, copy@));
        Ok(copy)
    }

    /// Whether `dep` names a completed task.
    fn is_completed(&self, dep: &str) -> (r: bool)
        requires
            self@.wf(),
        ensures
            r == dep_completed(self@.tasks, dep@),
    {
        match self.position(dep) {
            Some(j) => {
                let done = self.tasks[j].status == TaskStatus::Completed;
                proof {
                    if dep_completed(self@.tasks, dep@) {
                        let k = choose|k: int|
                            0 <= k < self@.tasks.len() && self@.tasks[k].id == dep@
                                && self@.tasks[k].status == TaskStatus::Completed;
                        if k < j as int {
                            assert(self@.tasks[k].id != self@.tasks[j as int].id);
                        } else if k > j as int {
                            assert(self@.tasks[j as int].id != self@.tasks[k].id);
                        }
                    }
                }
                done
            },
            None => false,
        }
    }

    /// The prerequisites of `deps` that are not completed, in order.
    fn incomplete(&self, deps: &Vec<String>) -> (r: Vec<String>)
        requires
            self@.wf(),
        ensures
            strings_view(r@) == incomplete_deps(self@.tasks, strings_view(deps@)),
    {
        let ghost p = |d: Seq<char>| !dep_completed(self@.tasks, d);
        let mut out: Vec<String> = Vec::new();
        let mut k: usize = 0;
        while k < deps.len()
            invariant
                self@.wf(),
                p == (|d: Seq<char>| !dep_completed(self@.tasks, d)),
                k <= deps.len(),
                strings_view(out@) == strings_view(deps@).take(k as int).filter(p),
            decreases deps.len() - k,
        {
            proof {
                lemma_filter_take_step(strings_view(deps@), p, k as int);
            }
            let ghost before = out@;
            assert(strings_view(deps@)[k as int] == deps@[k as int]@);
            if !self.is_completed(deps[k].as_str()) {
                assert(p(deps@[k as int]@));
                out.push(deps[k].clone());
                assert(strings_view(out@) =~= strings_view(before).push(deps@[k as int]@));
            } else {
                assert(!p(deps@[k as int]@));
            }
            k = k + 1;
        }
        assert(strings_view(deps@).take(deps@.len() as int) =~= strings_view(deps@));
        out
    }

    /// Claim a pending task whose prerequisites are all completed: it gets
    /// `owner` and `in_progress`. A prerequisite id that names no task counts
    /// as incomplete. Any other outcome leaves the list as it was; a blocked
    /// claim names every incomplete prerequisite, in order.
    pub fn claim(&mut self, task_id: &str, owner: &str, now: u64) -> (r: Result<Task, TaskError>)
        requires
            old(self)@.wf(),
        ensures
            final(self)@.wf(),
            match r {
                Ok(t) => claim_spec(old(self)@, task_id@, owner@, now) == Ok::<
                    (TaskListView, TaskView),
                    TaskErrorView,
                >((final(self)@, t@)),
                Err(e) => claim_spec(old(self)@, task_id@, owner@, now) == Err::<
                    (TaskListView, TaskView),
                    TaskErrorView,
                >(e@) && final(self)@ == old(self)@,
            },
    {
        let i = match self.position(task_id) {
            Some(i) => i,
            None => {
                return Err(TaskError::NotFound { task_id: String::from_str(task_id) });
            },
        };
        let status = self.tasks[i].status;
        if status != TaskStatus::Pending {
            return Err(TaskError::InvalidTransition { task_id: String::from_str(task_id), status });
        }
        let blocked = self.incomplete(&self.tasks[i].blocked_by);
        if blocked.len() > 0 {
            return Err(TaskError::BlockedByIncomplete { task_id: String::from_str(task_id), blocked });
        }
        let mut t = self.tasks[i].duplicate();
        t.owner = Some(String::from_str(owner));
        t.status = TaskStatus::InProgress;
        if now >= t.updated_at {
            t.updated_at = now;
        }
        let copy = t.duplicate();
        let ghost before = self@.tasks;
        self.tasks.set(i, t);
        assert(self@.tasks =~= before.update(i as int, copy@));
        Ok(copy)
    }

    /// The tasks that pass the filter, ascending by numeric id.
    pub fn list_tasks(&self, status_filter: Option<TaskStatus>) -> (r: Vec<Task>)
        requires
            self@.wf(),
        ensures
            listing(self@.tasks, status_filter, tasks_view(r@)),
    {
        let ghost p = |t: TaskView| passes(t, status_filter);
        let mut out: Vec<Task> = Vec::new();
        let mut keys: Vec<u64> = Vec::new();
        let mut i: usize = 0;
        while i < self.tasks.len()
            invariant
                p == (|t: TaskView| passes(t, status_filter)),
                i <= self.tasks.len(),
                keys.len() == out.len(),
                forall|k: int| 0 <= k < out.len() ==> keys@[k] as nat == id_key(#[trigger] out@[k].id@),
                forall|a: int, b: int| 0 <= a < b < keys.len() ==> keys@[a] <= keys@[b],
                tasks_view(out@).len() == self@.tasks.take(i as int).filter(p).len(),
                forall|t: TaskView|
                    tasks_view(out@).contains(t) <==> self@.tasks.take(i as int).filter(p).contains(t),
            decreases self.tasks.len() - i,
        {
            proof {
                lemma_filter_take_step(self@.tasks, p, i as int);
            }
            let ghost vbefore = tasks_view(out@);
            let ghost tv = self.tasks@[i as int]@;
            let keep = match status_filter {
                Some(s) => self.tasks[i].status == s,
                None => true,
            };
            assert(keep == p(tv));
            assert(self@.tasks[i as int] == tv);
            if keep {
                let key = match parse_decimal(self.tasks[i].id.as_str()) {
                    Some(v) => v,
                    None => 0,
                };
                let mut pos: usize = 0;
                while pos < keys.len() && keys[pos] <= key
                    invariant
                        pos <= keys.len(),
                        forall|a: int| 0 <= a < pos ==> keys@[a] <= key,
                    decreases keys.len() - pos,
                {
                    pos = pos + 1;
                }
                let ghost kbefore = keys@;
                let ghost obefore = out@;
                let t = self.tasks[i].duplicate();
                out.insert(pos, t);
                keys.insert(pos, key);
                proof {
                    kbefore.insert_ensures(pos as int, key);
                    obefore.insert_ensures(pos as int, out@[pos as int]);
                    vbefore.insert_ensures(pos as int, tv);
                    assert(tasks_view(out@) =~= vbefore.insert(pos as int, tv));
                    assert forall|a: int, b: int| 0 <= a < b < keys.len() implies keys@[a] <= keys@[b] by {
                        if b < pos {
                        } else if b == pos {
                        } else if a < pos {
                            assert(pos < kbefore.len() ==> kbefore[pos as int] > key);
                        } else if a == pos {
                            assert(kbefore[pos as int] > key);
                            assert(kbefore[pos as int] <= kbefore[b - 1]);
                        } else {
                            assert(keys@[a] == kbefore[a - 1]);
                        }
                    }
                    assert forall|k: int| 0 <= k < out.len() implies keys@[k] as nat == id_key(#[trigger] out@[k].id@) by {
                        if k < pos {
                            assert(out@[k] == obefore[k]);
                            assert(keys@[k] == kbefore[k]);
                        } else if k == pos {
                            assert(out@[k].id@ == self.tasks@[i as int].id@);
                        } else {
                            assert(out@[k] == obefore[k - 1]);
                            assert(keys@[k] == kbefore[k - 1]);
                            assert(kbefore[k - 1] as nat == id_key(obefore[k - 1].id@));
                        }
                    }
                    assert forall|x: TaskView| tasks_view(out@).contains(x) <==> vbefore.contains(x) || x == tv by {
                        if tasks_view(out@).contains(x) {
                            let k = choose|k: int| 0 <= k < tasks_view(out@).len() && tasks_view(out@)[k] == x;
                            if k < pos {
                                assert(vbefore[k] == x);
                            } else if k > pos {
                                assert(vbefore[k - 1] == x);
                            }
                        }
                        if vbefore.contains(x) {
                            let k = choose|k: int| 0 <= k < vbefore.len() && vbefore[k] == x;
                            if k < pos {
                                assert(tasks_view(out@)[k] == x);
                            } else {
                                assert(tasks_view(out@)[k + 1] == x);
                            }
                        }
                        if x == tv {
                            assert(tasks_view(out@)[pos as int] == x);
                        }
                    }
                    let f0 = self@.tasks.take(i as int).filter(p);
                    let f1 = f0.push(tv);
                    assert forall|x: TaskView| f1.contains(x) <==> f0.contains(x) || x == tv by {
                        if f1.contains(x) {
                            let k = choose|k: int| 0 <= k < f1.len() && f1[k] == x;
                            if k < f0.len() {
                                assert(f0[k] == x);
                            }
                        }
                        if f0.contains(x) {
                            let k = choose|k: int| 0 <= k < f0.len() && f0[k] == x;
                            assert(f1[k] == x);
                        }
                        if x == tv {
                            assert(f1[f0.len() as int] == x);
                        }
                    }
                    assert(self@.tasks.take(i as int + 1).filter(p) == f1);
                    assert forall|x: TaskView|
                        tasks_view(out@).contains(x) <==> self@.tasks.take(i as int + 1).filter(p).contains(x) by {
                        assert(vbefore.contains(x) <==> f0.contains(x));
                    }
                }
            }
            i = i + 1;
        }
        assert(self@.tasks.take(self@.tasks.len() as int) =~= self@.tasks);
        proof {
            assert forall|a: int, b: int| 0 <= a < b < out.len() implies id_key(tasks_view(out@)[a].id) <= id_key(tasks_view(out@)[b].id) by {
                assert(keys@[a] as nat == id_key(out@[a].id@));
                assert(keys@[b] as nat == id_key(out@[b].id@));
            }
        }
        out
    }

    /// A list rebuilt from stored parts; of tasks that share an id only the
    /// first is kept.
    pub fn from_parts(next_id: u64, tasks: Vec<Task>) -> (r: TaskList)
        ensures
            r@.wf(),
            r@.next_id == next_id,
            r@.tasks == first_of_each_id(tasks_view(tasks@)),
    {
        let mut out = TaskList { next_id, tasks: Vec::new() };
        assert(out@.tasks =~= Seq::<TaskView>::empty());
        let mut i: usize = 0;
        while i < tasks.len()
            invariant
                i <= tasks.len(),
                out@.wf(),
                out@.next_id == next_id,
                out@.tasks == first_of_each_id(tasks_view(tasks@).take(i as int)),
            decreases tasks.len() - i,
        {
            let ghost s = tasks_view(tasks@);
            assert(s.take(i as int + 1).drop_last() =~= s.take(i as int));
            assert(s.take(i as int + 1).last() == tasks@[i as int]@);
            let ghost before = out@.tasks;
            if out.position(tasks[i].id.as_str()).is_none() {
                out.tasks.push(tasks[i].duplicate());
                assert(out@.tasks =~= before.push(tasks@[i as int]@));
            }
            i = i + 1;
        }
        assert(tasks_view(tasks@).take(tasks@.len() as int) =~= tasks_view(tasks@));
        out
    }

    /// A copy equal in every field.
    pub fn duplicate(&self) -> (r: TaskList)
        ensures
            r@ == self@,
    {
        let mut tasks: Vec<Task> = Vec::new();
        let mut i: usize = 0;
        while i < self.tasks.len()
            invariant
                i <= self.tasks.len(),
                tasks_view(tasks@) == self@.tasks.take(i as int),
            decreases self.tasks.len() - i,
        {
            let ghost before = tasks_view(tasks@);
            tasks.push(self.tasks[i].duplicate());
            assert(tasks_view(tasks@) =~= before.push(self@.tasks[i as int]));
            assert(self@.tasks.take(i as int + 1) =~= self@.tasks.take(i as int).push(self@.tasks[i as int]));
            i = i + 1;
        }
        assert(self@.tasks.take(self@.tasks.len() as int) =~= self@.tasks);
        TaskList { next_id: self.next_id, tasks }
    }
}

proof fn lemma_fresh_ids_upto(
    lists: Seq<TaskListView>,
    created: Seq<TaskView>,
    subjects: Seq<Seq<char>>,
    descriptions: Seq<Seq<char>>,
    times: Seq<u64>,
    n: int,
)
    requires
        lists.len() == created.len() + 1,
        subjects.len() == created.len(),
        descriptions.len() == created.len(),
        times.len() == created.len(),
        lists[0] == TaskListView::empty(),
        forall|k: int| 0 <= k < created.len() ==> #[trigger] lists[k].next_id < u64::MAX,
        forall|k: int|
            0 <= k < created.len() ==> create_spec(
                #[trigger] lists[k],
                subjects[k],
                descriptions[k],
                times[k],
            ) == (lists[k + 1], created[k]),
        0 <= n <= created.len(),
    ensures
        lists[n].next_id == n + 1,
        lists[n].tasks.len() == n,
        forall|j: int| 0 <= j < n ==> #[trigger] lists[n].tasks[j].id == decimal((j + 1) as nat),
        forall|j: int| 0 <= j < n ==> created[j].id == decimal((j + 1) as nat),
    decreases n,
{
    if n > 0 {
        lemma_fresh_ids_upto(lists, created, subjects, descriptions, times, n - 1);
        let k = n - 1;
        let l = lists[k];
        assert(create_spec(lists[k], subjects[k], descriptions[k], times[k]) == (lists[k + 1], created[k]));
        let id = decimal(n as nat);
        assert(created[k].id == id);
        if exists|i: int| 0 <= i < l.tasks.len() && l.tasks[i].id == id {
            let i = choose|i: int| 0 <= i < l.tasks.len() && l.tasks[i].id == id;
            assert(l.tasks[i].id == decimal((i + 1) as nat));
            lemma_decimal_injective((i + 1) as nat, n as nat);
        }
        assert(find_index(l.tasks, id) == -1);
        assert(lists[n].tasks == l.tasks.push(created[k]));
    }
}

/// On a fresh list, consecutive creates hand out the ids "1", "2", ... in
/// call order.
pub proof fn lemma_fresh_list_ids(
    lists: Seq<TaskListView>,
    created: Seq<TaskView>,
    subjects: Seq<Seq<char>>,
    descriptions: Seq<Seq<char>>,
    times: Seq<u64>,
)
    requires
        lists.len() == created.len() + 1,
        subjects.len() == created.len(),
        descriptions.len() == created.len(),
        times.len() == created.len(),
        lists[0] == TaskListView::empty(),
        forall|k: int| 0 <= k < created.len() ==> #[trigger] lists[k].next_id < u64::MAX,
        forall|k: int|
            0 <= k < created.len() ==> create_spec(
                #[trigger] lists[k],
                subjects[k],
                descriptions[k],
                times[k],
            ) == (lists[k + 1], created[k]),
    ensures
        forall|k: int| 0 <= k < created.len() ==> #[trigger] created[k].id == decimal((k + 1) as nat),
{
    lemma_fresh_ids_upto(lists, created, subjects, descriptions, times, created.len() as int);
}

/// A successful update keeps `created_at` and never moves `updated_at`
/// backwards.
pub proof fn lemma_update_timestamps(
    l: TaskListView,
    id: Seq<char>,
    status: Option<TaskStatus>,
    subject: Option<Seq<char>>,
    description: Option<Seq<char>>,
    owner: Option<Seq<char>>,
    blocked_by: Option<Seq<Seq<char>>>,
    now: u64,
)
    ensures
        update_spec(l, id, status, subject, description, owner, blocked_by, now) is Ok ==> {
            let prev = l.tasks[find_index(l.tasks, id)];
            let t = update_spec(l, id, status, subject, description, owner, blocked_by, now)->Ok_0.1;
            &&& t.updated_at >= prev.updated_at
            &&& t.created_at == prev.created_at
        },
{
}

/// A successful claim keeps `created_at` and never moves `updated_at`
/// backwards.
pub proof fn lemma_claim_timestamps(l: TaskListView, id: Seq<char>, owner: Seq<char>, now: u64)
    ensures
        claim_spec(l, id, owner, now) is Ok ==> {
            let prev = l.tasks[find_index(l.tasks, id)];
            let t = claim_spec(l, id, owner, now)->Ok_0.1;
            &&& t.updated_at >= prev.updated_at
            &&& t.created_at == prev.created_at
        },
{
}

/// A list with unique ids comes back unchanged when rebuilt from its
/// tasks.
pub proof fn lemma_first_of_each_id_unique(s: Seq<TaskView>)
    requires
        ids_unique(s),
    ensures
        first_of_each_id(s) == s,
    decreases s.len(),
{
    if s.len() > 0 {
        let p = s.drop_last();
        assert(ids_unique(p));
        lemma_first_of_each_id_unique(p);
        if exists|i: int| 0 <= i < p.len() && p[i].id == s.last().id {
            let i = choose|i: int| 0 <= i < p.len() && p[i].id == s.last().id;
            assert(s[i].id != s[s.len() - 1].id);
        }
        assert(p.push(s.last()) =~= s);
    }
}

/// Writing a list out and rebuilding it from its counter and tasks gives
/// back the same list.
pub proof fn lemma_rebuild_round_trip(l: TaskListView)
    requires
        l.wf(),
    ensures
        (TaskListView { next_id: l.next_id, tasks: first_of_each_id(l.tasks) }) == l,
{
    lemma_first_of_each_id_unique(l.tasks);
}

} // verus!
