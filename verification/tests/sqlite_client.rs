use cvapi::{
    replace_lists, replace_tasks, ApiClient, Checklist, CheckvistDate, DiscardToken, SqliteStore,
    SqliteSyncClient, Task,
};

fn stamp() -> CheckvistDate {
    CheckvistDate {
        year: 2023,
        month: 6,
        day: 10,
        hour: 9,
        minute: 0,
        second: 1,
        offset_negative: false,
        offset_hours: 10,
        offset_minutes: 0,
    }
}

// The client below points at a closed port: every test here reads from
// the cache alone, so the network is never touched.
fn offline_client() -> ApiClient<DiscardToken> {
    ApiClient::new("http://127.0.0.1:1", "token", DiscardToken)
}

#[test]
fn save_and_fetch_lists() {
    let lists: Vec<Checklist> = (1..50)
        .map(|i| Checklist {
            id: i,
            name: format!("Checklist {}", i),
            task_count: 10,
            updated_at: stamp(),
        })
        .collect();
    let mut sqlite_store = SqliteStore::init_in_memory().unwrap();
    replace_lists(&mut sqlite_store, &lists).unwrap();
    let client = SqliteSyncClient::new(offline_client(), sqlite_store);

    let stored_lists = client.get_lists().unwrap();

    assert_eq!(stored_lists, lists);
}

#[test]
fn save_and_fetch_tasks() {
    let tasks: Vec<Task> = (1..50)
        .map(|id| Task {
            id: Some(id),
            content: "a task".to_string(),
            position: id as u16,
            parent_id: None,
        })
        .collect();
    let mut sqlite_store = SqliteStore::init_in_memory().unwrap();
    replace_tasks(&mut sqlite_store, 1, &tasks).unwrap();
    let client = SqliteSyncClient::new(offline_client(), sqlite_store);

    let stored_tasks = client.get_tasks(1).unwrap();

    assert_eq!(stored_tasks, tasks);
}

#[test]
fn second_replace_leaves_only_the_new_lists() {
    let first: Vec<Checklist> = (1..4)
        .map(|i| Checklist {
            id: i,
            name: format!("Old {}", i),
            task_count: 1,
            updated_at: stamp(),
        })
        .collect();
    let second: Vec<Checklist> = (10..12)
        .map(|i| Checklist {
            id: i,
            name: format!("New {}", i),
            task_count: 2,
            updated_at: stamp(),
        })
        .collect();
    let mut store = SqliteStore::init_in_memory().unwrap();

    replace_lists(&mut store, &first).unwrap();
    replace_lists(&mut store, &second).unwrap();

    assert_eq!(store.fetch_all_lists().unwrap(), second);
}

#[test]
fn replacing_tasks_of_one_list_spares_the_others() {
    let mine = vec![Task {
        id: Some(1),
        content: "mine".to_string(),
        position: 1,
        parent_id: None,
    }];
    let other = vec![Task {
        id: Some(2),
        content: "other".to_string(),
        position: 1,
        parent_id: None,
    }];
    let newer = vec![Task {
        id: Some(3),
        content: "newer".to_string(),
        position: 1,
        parent_id: None,
    }];
    let mut store = SqliteStore::init_in_memory().unwrap();
    replace_tasks(&mut store, 1, &mine).unwrap();
    replace_tasks(&mut store, 2, &other).unwrap();

    replace_tasks(&mut store, 1, &newer).unwrap();

    assert_eq!(store.fetch_tasks_for_list(1).unwrap(), newer);
    assert_eq!(store.fetch_tasks_for_list(2).unwrap(), other);
}
