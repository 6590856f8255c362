//! The action interface over the store: a request names one of `create`,
//! `list`, `get`, `update` or `claim`, a list id (else `default`) and the
//! fields the action needs.

use vstd::prelude::*;
use vstd::string::*;

use crate::store::{create_outcome, mutation, resident, TaskStore};
use crate::tasks::{
    claim_spec, listing, lookup, opt_strings_view, opt_view, status_from_name, tasks_view, update_spec,
    Action, Field, Task, TaskError, TaskErrorView, TaskListView, TaskStatus, TaskView,
};
use crate::text::str_eq;

verus! {

/// A request as it arrives; every field may be absent.
#[derive(Debug)]
pub struct TaskRequest {
    pub action: Option<String>,
    pub list_id: Option<String>,
    pub task_id: Option<String>,
    pub subject: Option<String>,
    pub description: Option<String>,
    pub status: Option<String>,
    pub owner: Option<String>,
    pub blocked_by: Option<Vec<String>>,
}

/// A request as plain values.
pub struct TaskRequestView {
    pub action: Option<Seq<char>>,
    pub list_id: Option<Seq<char>>,
    pub task_id: Option<Seq<char>>,
    pub subject: Option<Seq<char>>,
    pub description: Option<Seq<char>>,
    pub status: Option<Seq<char>>,
    pub owner: Option<Seq<char>>,
    pub blocked_by: Option<Seq<Seq<char>>>,
}

impl View for TaskRequest {
    type V = TaskRequestView;

    open spec fn view(&self) -> TaskRequestView {
        TaskRequestView {
            action: opt_view(self.action),
            list_id: opt_view(self.list_id),
            task_id: opt_view(self.task_id),
            subject: opt_view(self.subject),
            description: opt_view(self.description),
            status: opt_view(self.status),
            owner: opt_view(self.owner),
            blocked_by: opt_strings_view(self.blocked_by),
        }
    }
}

/// A decoded request.
#[derive(Debug)]
pub enum TaskCall {
    Create { subject: String, description: String },
    List { status: Option<TaskStatus> },
    Get { task_id: String },
    Update {
        task_id: String,
        status: Option<TaskStatus>,
        subject: Option<String>,
        description: Option<String>,
        owner: Option<String>,
        blocked_by: Option<Vec<String>>,
    },
    Claim { task_id: String, owner: String },
}

/// A decoded request as plain values.
pub enum TaskCallView {
    Create { subject: Seq<char>, description: Seq<char> },
    List { status: Option<TaskStatus> },
    Get { task_id: Seq<char> },
    Update {
        task_id: Seq<char>,
        status: Option<TaskStatus>,
        subject: Option<Seq<char>>,
        description: Option<Seq<char>>,
        owner: Option<Seq<char>>,
        blocked_by: Option<Seq<Seq<char>>>,
    },
    Claim { task_id: Seq<char>, owner: Seq<char> },
}

impl View for TaskCall {
    type V = TaskCallView;

    open spec fn view(&self) -> TaskCallView {
        match self {
            TaskCall::Create { subject, description } => TaskCallView::Create {
                subject: subject@,
                description: description@,
            },
            TaskCall::List { status } => TaskCallView::List { status: *status },
            TaskCall::Get { task_id } => TaskCallView::Get { task_id: task_id@ },
            TaskCall::Update { task_id, status, subject, description, owner, blocked_by } =>
                TaskCallView::Update {
                task_id: task_id@,
                status: *status,
                subject: opt_view(*subject),
                description: opt_view(*description),
                owner: opt_view(*owner),
                blocked_by: opt_strings_view(*blocked_by),
            },
            TaskCall::Claim { task_id, owner } => TaskCallView::Claim {
                task_id: task_id@,
                owner: owner@,
            },
        }
    }
}

/// The list a request acts on.
pub open spec fn request_list_id(req: TaskRequestView) -> Seq<char> {
    match req.list_id {
        Some(l) => l,
        None => "default"@,
    }
}

/// A status field read as a filter or a new status.
pub open spec fn decode_status(s: Option<Seq<char>>) -> Result<Option<TaskStatus>, TaskErrorView> {
    match s {
        None => Ok(None),
        Some(v) => match status_from_name(v) {
            Some(st) => Ok(Some(st)),
            None => Err(TaskErrorView::UnknownStatus { value: v }),
        },
    }
}

/// The error for a field that an action needs and the request lacks.
pub open spec fn missing(action: Action, field: Field) -> TaskErrorView {
    TaskErrorView::MissingField { action, field }
}

/// What a request asks for, or why it cannot be served.
pub open spec fn decode_spec(req: TaskRequestView) -> Result<TaskCallView, TaskErrorView> {
    match req.action {
        None => Err(TaskErrorView::MissingAction),
        Some(a) => if a == "create"@ {
            match req.subject {
                None => Err(missing(Action::Create, Field::Subject)),
                Some(subject) => Ok(
                    TaskCallView::Create {
                        subject,
                        description: match req.description {
                            Some(d) => d,
                            None => Seq::empty(),
                        },
                    },
                ),
            }
        } else if a == "list"@ {
            match decode_status(req.status) {
                Err(e) => Err(e),
                Ok(status) => Ok(TaskCallView::List { status }),
            }
        } else if a == "get"@ {
            match req.task_id {
                None => Err(missing(Action::Get, Field::TaskId)),
                Some(task_id) => Ok(TaskCallView::Get { task_id }),
            }
        } else if a == "update"@ {
            match req.task_id {
                None => Err(missing(Action::Update, Field::TaskId)),
                Some(task_id) => match decode_status(req.status) {
                    Err(e) => Err(e),
                    Ok(status) => Ok(
                        TaskCallView::Update {
                            task_id,
                            status,
                            subject: req.subject,
                            description: req.description,
                            owner: req.owner,
                            blocked_by: req.blocked_by,
                        },
                    ),
                },
            }
        } else if a == "claim"@ {
            match req.task_id {
                None => Err(missing(Action::Claim, Field::TaskId)),
                Some(task_id) => match req.owner {
                    None => Err(missing(Action::Claim, Field::Owner)),
                    Some(owner) => Ok(TaskCallView::Claim { task_id, owner }),
                },
            }
        } else {
            Err(TaskErrorView::UnknownAction { action: a })
        },
    }
}

/// What an action hands back: one task, or the tasks of a listing.
#[derive(Debug)]
pub enum ActionOutput {
    One(Task),
    Many(Vec<Task>),
}

/// An action's output as plain values.
pub enum ActionOutputView {
    One(TaskView),
    Many(Seq<TaskView>),
}

impl View for ActionOutput {
    type V = ActionOutputView;

    open spec fn view(&self) -> ActionOutputView {
        match self {
            ActionOutput::One(t) => ActionOutputView::One(t@),
            ActionOutput::Many(v) => ActionOutputView::Many(tasks_view(v@)),
        }
    }
}

/// An action's result as plain values.
pub open spec fn output_view(r: Result<ActionOutput, TaskError>) -> Result<
    ActionOutputView,
    TaskErrorView,
> {
    match r {
        Ok(o) => Ok(o@),
        Err(e) => Err(e@),
    }
}

/// A mutation whose result is a single task: `mutation`, with the task
/// handed back as `One`.
pub open spec fn mutated_one(
    before: Map<Seq<char>, TaskListView>,
    k: Seq<char>,
    outcome: Result<(TaskListView, TaskView), TaskErrorView>,
    after: Map<Seq<char>, TaskListView>,
    r: Result<ActionOutputView, TaskErrorView>,
) -> bool {
    match r {
        Ok(ActionOutputView::One(t)) => mutation(before, k, outcome, after, Ok(t)),
        Ok(ActionOutputView::Many(_)) => false,
        Err(e) => mutation(before, k, outcome, after, Err(e)),
    }
}

/// How a decoded call on list `k` leaves the store and what it returns.
pub open spec fn performed(
    before: Map<Seq<char>, TaskListView>,
    k: Seq<char>,
    call: TaskCallView,
    now: u64,
    after: Map<Seq<char>, TaskListView>,
    r: Result<ActionOutputView, TaskErrorView>,
) -> bool {
    let l = resident(before, k);
    match call {
        TaskCallView::Create { subject, description } => mutated_one(
            before,
            k,
            create_outcome(before, k, subject, description, now),
            after,
            r,
        ),
        TaskCallView::List { status } => after == before.insert(k, l) && r is Ok && r->Ok_0 is Many
            && listing(l.tasks, status, r->Ok_0->Many_0),
        TaskCallView::Get { task_id } => after == before.insert(k, l) && match lookup(
            l.tasks,
            task_id,
        ) {
            Some(t) => r == Ok::<ActionOutputView, TaskErrorView>(ActionOutputView::One(t)),
            None => r == Err::<ActionOutputView, TaskErrorView>(
                TaskErrorView::NotFound { task_id },
            ),
        },
        TaskCallView::Update { task_id, status, subject, description, owner, blocked_by } =>
            mutated_one(
            before,
            k,
            update_spec(l, task_id, status, subject, description, owner, blocked_by, now),
            after,
            r,
        ),
        TaskCallView::Claim { task_id, owner } => mutated_one(
            before,
            k,
            claim_spec(l, task_id, owner, now),
            after,
            r,
        ),
    }
}

fn parse_status_field(s: &Option<String>) -> (r: Result<Option<TaskStatus>, TaskError>)
    ensures
        match decode_status(opt_view(*s)) {
            Ok(v) => r == Ok::<Option<TaskStatus>, TaskError>(v),
            Err(e) => r is Err && r->Err_0@ == e,
        },
{
    match s {
        None => Ok(None),
        Some(v) => match TaskStatus::parse(v.as_str()) {
            Ok(st) => Ok(Some(st)),
            Err(e) => Err(e),
        },
    }
}

impl TaskRequest {
    /// The list the request acts on.
    pub fn list_id(&self) -> (r: String)
        ensures
            r@ == request_list_id(self@),
    {
        match &self.list_id {
            Some(l) => l.clone(),
            None => String::from_str("default"),
        }
    }

    /// Check the request's fields and decode it into a call.
    pub fn decode(self) -> (r: Result<TaskCall, TaskError>)
        ensures
            match decode_spec(self@) {
                Ok(c) => r is Ok && r->Ok_0@ == c,
                Err(e) => r is Err && r->Err_0@ == e,
            },
    {
        let ghost v = self@;
        let TaskRequest { action, list_id: _, task_id, subject, description, status, owner, blocked_by } =
            self;
        let a = match action {
            None => {
                return Err(TaskError::MissingAction);
            },
            Some(a) => a,
        };
        if str_eq(a.as_str(), "create") {
            match subject {
                None => Err(TaskError::MissingField { action: Action::Create, field: Field::Subject }),
                Some(subject) => {
                    let description = match description {
                        Some(d) => d,
                        None => String::new(),
                    };
                    Ok(TaskCall::Create { subject, description })
                },
            }
        } else if str_eq(a.as_str(), "list") {
            match parse_status_field(&status) {
                Err(e) => Err(e),
                Ok(status) => Ok(TaskCall::List { status }),
            }
        } else if str_eq(a.as_str(), "get") {
            match task_id {
                None => Err(TaskError::MissingField { action: Action::Get, field: Field::TaskId }),
                Some(task_id) => Ok(TaskCall::Get { task_id }),
            }
        } else if str_eq(a.as_str(), "update") {
            match task_id {
                None => Err(TaskError::MissingField { action: Action::Update, field: Field::TaskId }),
                Some(task_id) => match parse_status_field(&status) {
                    Err(e) => Err(e),
                    Ok(status) => Ok(
                        TaskCall::Update { task_id, status, subject, description, owner, blocked_by },
                    ),
                },
            }
        } else if str_eq(a.as_str(), "claim") {
            match task_id {
                None => Err(TaskError::MissingField { action: Action::Claim, field: Field::TaskId }),
                Some(task_id) => match owner {
                    None => Err(TaskError::MissingField { action: Action::Claim, field: Field::Owner }),
                    Some(owner) => Ok(TaskCall::Claim { task_id, owner }),
                },
            }
        } else {
            Err(TaskError::UnknownAction { action: a })
        }
    }
}

impl TaskStore {
    /// Carry out a decoded call on list `list_id`.
    pub fn perform(&mut self, list_id: &str, call: TaskCall, now: u64) -> (r: Result<
        ActionOutput,
        TaskError,
    >)
        requires
            old(self).wf(),
        ensures
            final(self).wf(),
            performed(old(self)@, list_id@, call@, now, final(self)@, output_view(r)),
    {
        match call {
            TaskCall::Create { subject, description } => match self.create(
                list_id,
                subject,
                description,
                now,
            ) {
                Ok(t) => Ok(ActionOutput::One(t)),
                Err(e) => Err(e),
            },
            TaskCall::List { status } => Ok(ActionOutput::Many(self.list_tasks(list_id, status))),
            TaskCall::Get { task_id } => match self.get(list_id, task_id.as_str()) {
                Some(t) => Ok(ActionOutput::One(t)),
                None => Err(TaskError::NotFound { task_id }),
            },
            TaskCall::Update { task_id, status, subject, description, owner, blocked_by } =>
                match self.update(
                list_id,
                task_id.as_str(),
                status,
                subject,
                description,
                owner,
                blocked_by,
                now,
            ) {
                Ok(t) => Ok(ActionOutput::One(t)),
                Err(e) => Err(e),
            },
            TaskCall::Claim { task_id, owner } => match self.claim(
                list_id,
                task_id.as_str(),
                owner.as_str(),
                now,
            ) {
                Ok(t) => Ok(ActionOutput::One(t)),
                Err(e) => Err(e),
            },
        }
    }

    /// Serve a request: decode it, then carry it out on its list. A request
    /// that cannot be decoded leaves the store as it was.
    pub fn execute(&mut self, req: TaskRequest, now: u64) -> (r: Result<ActionOutput, TaskError>)
        requires
            old(self).wf(),
        ensures
            final(self).wf(),
            match decode_spec(req@) {
                Err(e) => output_view(r) == Err::<ActionOutputView, TaskErrorView>(e)
                    && final(self)@ == old(self)@,
                Ok(call) => performed(
                    old(self)@,
                    request_list_id(req@),
                    call,
                    now,
                    final(self)@,
                    output_view(r),
                ),
            },
    {
        let list_id = req.list_id();
        match req.decode() {
            Err(e) => Err(e),
            Ok(call) => self.perform(list_id.as_str(), call, now),
        }
    }
}

} // verus!
