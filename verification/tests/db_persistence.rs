use cvapi::{Checklist, CheckvistDate, SqliteStore};

#[test]
fn simplest_persist_retrieve() {
    let now = CheckvistDate {
        year: 2022,
        month: 10,
        day: 2,
        hour: 14,
        minute: 30,
        second: 0,
        offset_negative: false,
        offset_hours: 0,
        offset_minutes: 0,
    };
    let list = Checklist {
        id: 1,
        name: "test".to_string(),
        updated_at: now,
        task_count: 42,
    };
    let mut store = SqliteStore::init_in_memory().unwrap();

    let number_stored = store.save_list(&list).unwrap();
    let retrieved_lists: Vec<Checklist> = store.fetch_all_lists().unwrap();

    assert_eq!(1, number_stored);
    assert_eq!(1, retrieved_lists.len());
    assert_eq!(list, retrieved_lists[0]);
}
