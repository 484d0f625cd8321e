use web_core::model::{CommonIden, Task, TaskBmc, TaskForUpdate, TimestampIden};
use web_core::state::RpcState;

#[test]
fn task_update_applies_set_fields() {
    let task = Task { id: 1, title: "old".to_string(), done: false };
    let updated = TaskForUpdate { title: Some("new".to_string()), done: None }.apply(task.clone());
    assert_eq!(updated.id, 1);
    assert_eq!(updated.title, "new");
    assert!(!updated.done);
    let unchanged = TaskForUpdate::default().apply(task);
    assert_eq!(unchanged.title, "old");
    let done = TaskForUpdate { title: None, done: Some(true) }.apply(unchanged);
    assert!(done.done);
}

#[test]
fn column_and_table_names() {
    assert_eq!(CommonIden::Id.column_name(), "id");
    assert_eq!(TimestampIden::Cid.column_name(), "cid");
    assert_eq!(TimestampIden::Ctime.column_name(), "ctime");
    assert_eq!(TimestampIden::Mid.column_name(), "mid");
    assert_eq!(TimestampIden::Mtime.column_name(), "mtime");
    assert_eq!(TaskBmc.table(), "task");
}

#[test]
fn rpc_state_hands_out_store() {
    let state = RpcState::new(42u32);
    assert_eq!(state.mm, 42);
    assert_eq!(state.into_mm(), 42);
}
