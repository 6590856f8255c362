use moltis::store::TaskStore;
use moltis::tasks::{TaskList, TaskStatus};
use moltis::tool::{ActionOutput, TaskRequest};

const NOW: u64 = 1_700_000_000;

fn test_store() -> TaskStore {
    TaskStore::new()
}

fn request(action: &str) -> TaskRequest {
    TaskRequest {
        action: Some(action.to_string()),
        list_id: None,
        task_id: None,
        subject: None,
        description: None,
        status: None,
        owner: None,
        blocked_by: None,
    }
}

#[test]
fn test_create_and_get() {
    let mut store = test_store();
    let task = store
        .create("test", "Fix bug".into(), "It crashes".into(), NOW)
        .unwrap();

    assert_eq!(task.id, "1");
    assert_eq!(task.subject, "Fix bug");
    assert_eq!(task.description, "It crashes");
    assert_eq!(task.status, TaskStatus::Pending);
    assert!(task.owner.is_none());

    let fetched = store.get("test", "1").unwrap();
    assert_eq!(fetched.subject, "Fix bug");
}

#[test]
fn test_list_with_status_filter() {
    let mut store = test_store();
    store.create("test", "Task 1".into(), String::new(), NOW).unwrap();
    store.create("test", "Task 2".into(), String::new(), NOW).unwrap();
    store.claim("test", "1", "agent-a", NOW).unwrap();

    let all = store.list_tasks("test", None);
    assert_eq!(all.len(), 2);

    let pending = store.list_tasks("test", Some(TaskStatus::Pending));
    assert_eq!(pending.len(), 1);
    assert_eq!(pending[0].id, "2");

    let in_progress = store.list_tasks("test", Some(TaskStatus::InProgress));
    assert_eq!(in_progress.len(), 1);
    assert_eq!(in_progress[0].id, "1");
}

#[test]
fn test_claim_atomicity() {
    let mut store = test_store();
    store.create("test", "Task".into(), String::new(), NOW).unwrap();

    // First claim succeeds.
    let task = store.claim("test", "1", "agent-a", NOW).unwrap();
    assert_eq!(task.status, TaskStatus::InProgress);
    assert_eq!(task.owner.as_deref(), Some("agent-a"));

    // Second claim fails (not pending).
    let err = store.claim("test", "1", "agent-b", NOW).unwrap_err();
    assert!(err.message().contains("cannot be claimed"));
}

#[test]
fn test_blocked_by_prevents_claim() {
    let mut store = test_store();
    store.create("test", "Task 1".into(), String::new(), NOW).unwrap();
    store.create("test", "Task 2".into(), String::new(), NOW).unwrap();

    // Set task 2 as blocked by task 1.
    store
        .update("test", "2", None, None, None, None, Some(vec!["1".into()]), NOW)
        .unwrap();

    // Claiming task 2 should fail.
    let err = store.claim("test", "2", "agent-a", NOW).unwrap_err();
    assert!(err.message().contains("blocked by"));

    // Complete task 1, then claim task 2.
    store
        .update("test", "1", Some(TaskStatus::Completed), None, None, None, None, NOW)
        .unwrap();
    let task = store.claim("test", "2", "agent-a", NOW).unwrap();
    assert_eq!(task.status, TaskStatus::InProgress);
}

#[test]
fn test_update() {
    let mut store = test_store();
    store.create("test", "Original".into(), String::new(), NOW).unwrap();

    let updated = store
        .update(
            "test",
            "1",
            Some(TaskStatus::InProgress),
            Some("Updated".into()),
            Some("New desc".into()),
            Some("agent-a".into()),
            None,
            NOW,
        )
        .unwrap();

    assert_eq!(updated.subject, "Updated");
    assert_eq!(updated.description, "New desc");
    assert_eq!(updated.status, TaskStatus::InProgress);
    assert_eq!(updated.owner.as_deref(), Some("agent-a"));
}

#[test]
fn test_persistence_across_reload() {
    // Create with a first store instance and take what would be written out.
    let saved = {
        let mut store = TaskStore::new();
        store
            .create("test", "Persisted".into(), "should survive".into(), NOW)
            .unwrap();
        store.snapshot("test").unwrap()
    };

    // Read with a fresh store instance.
    {
        let mut store = TaskStore::new();
        store.load("test", TaskList::from_parts(saved.next_id, saved.tasks));
        let task = store.get("test", "1").unwrap();
        assert_eq!(task.subject, "Persisted");
        assert_eq!(task.description, "should survive");
    }
}

#[test]
fn test_get_nonexistent() {
    let mut store = test_store();
    let result = store.get("test", "999");
    assert!(result.is_none());
}

#[test]
fn test_tool_create_and_list() {
    let mut store = test_store();

    // Create via the action interface.
    let mut create = request("create");
    create.subject = Some("Test task".to_string());
    create.description = Some("A test".to_string());
    match store.execute(create, NOW).unwrap() {
        ActionOutput::One(task) => {
            assert_eq!(task.id, "1");
            assert_eq!(task.status.as_str(), "pending");
        },
        ActionOutput::Many(_) => panic!("expected one task"),
    }

    // List via the action interface.
    match store.execute(request("list"), NOW).unwrap() {
        ActionOutput::Many(tasks) => assert_eq!(tasks.len(), 1),
        ActionOutput::One(_) => panic!("expected a listing"),
    }
}

#[test]
fn test_auto_incrementing_ids() {
    let mut store = test_store();
    let t1 = store.create("test", "First".into(), String::new(), NOW).unwrap();
    let t2 = store.create("test", "Second".into(), String::new(), NOW).unwrap();
    let t3 = store.create("test", "Third".into(), String::new(), NOW).unwrap();

    assert_eq!(t1.id, "1");
    assert_eq!(t2.id, "2");
    assert_eq!(t3.id, "3");
}
