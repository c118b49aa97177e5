use cvapi::{Checklist, CheckvistDate, SqliteStore, Task};

fn now() -> CheckvistDate {
    CheckvistDate {
        year: 2024,
        month: 12,
        day: 31,
        hour: 23,
        minute: 59,
        second: 59,
        offset_negative: true,
        offset_hours: 5,
        offset_minutes: 30,
    }
}

#[test]
fn persistence_save_and_retrieve_one_list() {
    let list = Checklist {
        id: 1,
        name: "test".to_string(),
        updated_at: now(),
        task_count: 42,
    };
    let mut store = SqliteStore::init_in_memory().unwrap();

    let number_stored = store.save_list(&list).unwrap();
    let retrieved_lists: Vec<Checklist> = store.fetch_all_lists().unwrap();

    assert_eq!(number_stored, 1);
    assert_eq!(retrieved_lists.len(), 1);
    assert_eq!(retrieved_lists[0], list);
}

#[test]
fn persistence_save_and_retrieve_one_task() {
    let task = Task {
        id: Some(1),
        content: "content".to_string(),
        position: 1,
        parent_id: None,
    };
    let mut store = SqliteStore::init_in_memory().unwrap();

    let saved_count = store.save_task(1, &task).unwrap();
    let retrieved = store.fetch_all_tasks().unwrap();

    assert_eq!(saved_count, 1);
    assert_eq!(retrieved[0], task);
}
