use std::path::Path;

use cvapi::{Checklist, CheckvistDate, SqliteStore, Task};
use temp_dir::TempDir;

fn now() -> CheckvistDate {
    CheckvistDate {
        year: 2023,
        month: 3,
        day: 15,
        hour: 7,
        minute: 5,
        second: 30,
        offset_negative: false,
        offset_hours: 2,
        offset_minutes: 0,
    }
}

#[test]
fn sqlite_store_save_and_retrieve_one_list() {
    let list = Checklist {
        id: 1,
        name: "test".to_string(),
        updated_at: now(),
        task_count: 42,
    };
    let mut store = SqliteStore::init_in_memory().unwrap();

    let number_stored = store.save_list(&list).unwrap();
    let retrieved_lists: Vec<Checklist> = store.fetch_all_lists().unwrap();

    assert_eq!(number_stored, 1);
    assert_eq!(retrieved_lists.len(), 1);
    assert_eq!(retrieved_lists[0], list);
}

#[test]
fn sqlite_store_save_and_retrieve_one_task() {
    let task = Task {
        id: Some(1),
        content: "content".to_string(),
        position: 1,
        parent_id: None,
    };
    let mut store = SqliteStore::init_in_memory().unwrap();

    let saved_count = store.save_task(1, &task).unwrap();
    let retrieved = store.fetch_all_tasks().unwrap();

    assert_eq!(saved_count, 1);
    assert_eq!(retrieved[0], task);
}

#[test]
fn sqlite_file_is_created_if_not_existing() {
    let temp_dir = TempDir::new().unwrap();
    let f = temp_dir.child("sqlite.db");

    let _store = SqliteStore::init_with_file(f.to_str().unwrap());

    assert!(Path::new(&f).exists());
}

#[test]
fn sqlite_file_is_read_if_exists() {
    let list = Checklist {
        id: 1,
        name: "test".to_string(),
        updated_at: now(),
        task_count: 42,
    };
    let temp_dir = TempDir::new().unwrap();
    let f = temp_dir.child("sqlite.db");

    let mut store = SqliteStore::init_with_file(f.to_str().unwrap()).unwrap();
    store.save_list(&list).unwrap();
    std::mem::drop(store);

    let store = SqliteStore::init_with_file(f.to_str().unwrap()).unwrap();
    let retrieved_lists = store.fetch_all_lists().unwrap();

    assert_eq!(retrieved_lists.first().unwrap(), &list);
}

#[test]
fn second_save_of_same_list_id_fails_and_keeps_one_row() {
    let list = Checklist {
        id: 7,
        name: "solo".to_string(),
        updated_at: now(),
        task_count: 3,
    };
    let mut store = SqliteStore::init_in_memory().unwrap();

    store.save_list(&list).unwrap();
    let second = store.save_list(&list);

    assert!(second.is_err());
    let retrieved = store.fetch_all_lists().unwrap();
    assert_eq!(retrieved.len(), 1);
    assert_eq!(retrieved[0], list);
}

#[test]
fn delete_lists_leaves_tasks() {
    let list = Checklist {
        id: 1,
        name: "l".to_string(),
        updated_at: now(),
        task_count: 0,
    };
    let task = Task {
        id: Some(4),
        content: "t".to_string(),
        position: 1,
        parent_id: Some(2),
    };
    let mut store = SqliteStore::init_in_memory().unwrap();
    store.save_list(&list).unwrap();
    store.save_task(1, &task).unwrap();

    store.temp_delete_lists().unwrap();

    assert_eq!(store.fetch_all_lists().unwrap().len(), 0);
    assert_eq!(store.fetch_tasks_for_list(1).unwrap(), vec![task]);
}
