use moltis::store::TaskStore;
use moltis::tasks::{Task, TaskError, TaskList, TaskStatus};
use moltis::tool::{ActionOutput, TaskRequest};

fn request(action: Option<&str>) -> TaskRequest {
    TaskRequest {
        action: action.map(|a| a.to_string()),
        list_id: None,
        task_id: None,
        subject: None,
        description: None,
        status: None,
        owner: None,
        blocked_by: None,
    }
}

fn one(out: ActionOutput) -> Task {
    match out {
        ActionOutput::One(t) => t,
        ActionOutput::Many(_) => panic!("expected one task"),
    }
}

#[test]
fn scenario_create_in_demo() {
    let mut store = TaskStore::new();
    let t = store.create("demo", "Fix bug".into(), "It crashes".into(), 10).unwrap();
    assert_eq!(t.id, "1");
    assert_eq!(t.status.as_str(), "pending");
    assert!(t.owner.is_none());
    assert_eq!(t.created_at, 10);
    assert_eq!(t.updated_at, 10);
    assert!(t.blocks.is_empty());
    assert!(t.blocked_by.is_empty());
}

#[test]
fn scenario_second_claim_is_refused() {
    let mut store = TaskStore::new();
    store.create("demo", "Task".into(), String::new(), 1).unwrap();
    let t = store.claim("demo", "1", "agent-a", 2).unwrap();
    assert_eq!(t.status.as_str(), "in_progress");
    assert_eq!(t.owner.as_deref(), Some("agent-a"));
    let err = store.claim("demo", "1", "agent-b", 3).unwrap_err();
    assert!(err.message().contains("cannot be claimed"));
    assert_eq!(
        err.message(),
        "task 1 cannot be claimed: current status is in_progress"
    );
    let still = store.get("demo", "1").unwrap();
    assert_eq!(still.owner.as_deref(), Some("agent-a"));
    assert_eq!(still.updated_at, 2);
}

#[test]
fn scenario_dependency_gates_claim() {
    let mut store = TaskStore::new();
    store.create("demo", "A".into(), String::new(), 1).unwrap();
    store.create("demo", "B".into(), String::new(), 1).unwrap();
    store
        .update("demo", "2", None, None, None, None, Some(vec!["1".into()]), 2)
        .unwrap();
    let err = store.claim("demo", "2", "x", 3).unwrap_err();
    assert!(err.message().contains("blocked by"));
    assert_eq!(err.message(), "task 2 is blocked by incomplete tasks: 1");
    store
        .update("demo", "1", Some(TaskStatus::Completed), None, None, None, None, 4)
        .unwrap();
    let t = store.claim("demo", "2", "x", 5).unwrap();
    assert_eq!(t.status.as_str(), "in_progress");
}

#[test]
fn scenario_reload_keeps_fields() {
    let mut first = TaskStore::new();
    first.create("p", "Persisted".into(), "kept".into(), 7).unwrap();
    let saved = first.snapshot("p").unwrap();
    let mut second = TaskStore::new();
    assert!(!second.is_loaded("p"));
    second.load("p", TaskList::from_parts(saved.next_id, saved.tasks));
    assert!(second.is_loaded("p"));
    let t = second.get("p", "1").unwrap();
    assert_eq!(t.subject, "Persisted");
    assert_eq!(t.description, "kept");
    assert_eq!(t.created_at, 7);
    let next = second.create("p", "Next".into(), String::new(), 8).unwrap();
    assert_eq!(next.id, "2");
}

#[test]
fn missing_dependency_blocks_claim() {
    let mut store = TaskStore::new();
    store.create("d", "A".into(), String::new(), 1).unwrap();
    store
        .update("d", "1", None, None, None, None, Some(vec!["9".into(), "8".into()]), 1)
        .unwrap();
    let err = store.claim("d", "1", "x", 2).unwrap_err();
    assert_eq!(err.message(), "task 1 is blocked by incomplete tasks: 9, 8");
}

#[test]
fn dependency_cycle_never_claims() {
    let mut store = TaskStore::new();
    store.create("c", "A".into(), String::new(), 1).unwrap();
    store.create("c", "B".into(), String::new(), 1).unwrap();
    store.update("c", "1", None, None, None, None, Some(vec!["2".into()]), 1).unwrap();
    store.update("c", "2", None, None, None, None, Some(vec!["1".into()]), 1).unwrap();
    assert!(store.claim("c", "1", "x", 2).is_err());
    assert!(store.claim("c", "2", "x", 2).is_err());
}

#[test]
fn updated_at_never_goes_back() {
    let mut store = TaskStore::new();
    let t = store.create("t", "A".into(), String::new(), 100).unwrap();
    assert_eq!(t.created_at, 100);
    let u = store.update("t", "1", None, Some("B".into()), None, None, None, 50).unwrap();
    assert_eq!(u.updated_at, 100);
    assert_eq!(u.created_at, 100);
    let c = store.claim("t", "1", "o", 200).unwrap();
    assert_eq!(c.updated_at, 200);
    assert_eq!(c.created_at, 100);
}

#[test]
fn update_of_missing_task_is_not_found() {
    let mut store = TaskStore::new();
    let err = store.update("t", "5", None, None, None, None, None, 1).unwrap_err();
    assert_eq!(err.message(), "task not found: 5");
    let err = store.claim("t", "5", "o", 1).unwrap_err();
    assert_eq!(err.message(), "task not found: 5");
}

#[test]
fn listing_sorts_by_numeric_id() {
    let mut store = TaskStore::new();
    for i in 0..12 {
        store.create("n", format!("t{i}"), String::new(), 1).unwrap();
    }
    let ids: Vec<String> = store.list_tasks("n", None).into_iter().map(|t| t.id).collect();
    let want: Vec<String> = (1..=12).map(|i| i.to_string()).collect();
    assert_eq!(ids, want);
}

#[test]
fn rebuilt_list_is_sorted_on_listing() {
    let mut store = TaskStore::new();
    for _ in 0..3 {
        store.create("s", "x".into(), String::new(), 1).unwrap();
    }
    let mut saved = store.snapshot("s").unwrap();
    saved.tasks.reverse();
    let mut fresh = TaskStore::new();
    fresh.load("s", TaskList::from_parts(saved.next_id, saved.tasks));
    let ids: Vec<String> = fresh.list_tasks("s", None).into_iter().map(|t| t.id).collect();
    assert_eq!(ids, vec!["1", "2", "3"]);
}

#[test]
fn status_names_round_trip() {
    for st in [TaskStatus::Pending, TaskStatus::InProgress, TaskStatus::Completed] {
        assert_eq!(TaskStatus::parse(st.as_str()).unwrap(), st);
    }
    let err = TaskStatus::parse("done").unwrap_err();
    assert_eq!(err.message(), "unknown task status: done");
}

#[test]
fn request_errors() {
    let mut store = TaskStore::new();
    let e = store.execute(request(None), 1).unwrap_err();
    assert_eq!(e.message(), "missing required parameter: action");
    let e = store.execute(request(Some("create")), 1).unwrap_err();
    assert_eq!(e.message(), "create requires 'subject'");
    let e = store.execute(request(Some("get")), 1).unwrap_err();
    assert_eq!(e.message(), "get requires 'task_id'");
    let e = store.execute(request(Some("update")), 1).unwrap_err();
    assert_eq!(e.message(), "update requires 'task_id'");
    let mut claim = request(Some("claim"));
    claim.task_id = Some("1".into());
    let e = store.execute(claim, 1).unwrap_err();
    assert_eq!(e.message(), "claim requires 'owner'");
    let e = store.execute(request(Some("delete")), 1).unwrap_err();
    assert_eq!(e.message(), "unknown action: delete");
    let mut bad = request(Some("list"));
    bad.status = Some("done".into());
    let e = store.execute(bad, 1).unwrap_err();
    assert_eq!(e.message(), "unknown task status: done");
    let mut get = request(Some("get"));
    get.task_id = Some("4".into());
    let e = store.execute(get, 1).unwrap_err();
    assert_eq!(e.message(), "task not found: 4");
    assert!(matches!(TaskError::IdsExhausted, TaskError::IdsExhausted));
}

#[test]
fn request_update_and_claim_in_named_list() {
    let mut store = TaskStore::new();
    let mut create = request(Some("create"));
    create.list_id = Some("team".into());
    create.subject = Some("Ship".into());
    let t = one(store.execute(create, 1).unwrap());
    assert_eq!(t.description, "");
    let mut update = request(Some("update"));
    update.list_id = Some("team".into());
    update.task_id = Some("1".into());
    update.status = Some("completed".into());
    let u = one(store.execute(update, 2).unwrap());
    assert_eq!(u.status, TaskStatus::Completed);
    let mut claim = request(Some("claim"));
    claim.list_id = Some("team".into());
    claim.task_id = Some("1".into());
    claim.owner = Some("me".into());
    let e = store.execute(claim, 3).unwrap_err();
    assert_eq!(e.message(), "task 1 cannot be claimed: current status is completed");
    assert!(store.get("default", "1").is_none());
    let mut list = request(Some("list"));
    list.list_id = Some("team".into());
    list.status = Some("completed".into());
    match store.execute(list, 4).unwrap() {
        ActionOutput::Many(v) => assert_eq!(v.len(), 1),
        ActionOutput::One(_) => panic!("expected a listing"),
    }
}
