use cvapi::{
    Checklist, CheckvistClient, CheckvistDate, DiscardToken, PersistentCheckvistClient, SqliteStore,
};

#[test]
fn try_get_list_without_mockall() {
    let stamp = CheckvistDate {
        year: 2023,
        month: 1,
        day: 2,
        hour: 3,
        minute: 4,
        second: 5,
        offset_negative: false,
        offset_hours: 0,
        offset_minutes: 0,
    };
    let lists: Vec<Checklist> = (1..50)
        .map(|i| Checklist {
            id: i,
            name: format!("Checklist {}", i),
            task_count: 10,
            updated_at: stamp,
        })
        .collect();
    let mut sqlite_store = SqliteStore::init_in_memory().unwrap();
    sqlite_store.save_lists(&lists).unwrap();
    // The client below points at a closed port: the read comes from the
    // cache alone, so the network is never touched.
    let checkvist_client = CheckvistClient::new("http://127.0.0.1:1", "token", DiscardToken);
    let client = PersistentCheckvistClient::new(checkvist_client, sqlite_store);

    let stored_lists = client.fetch_all_lists().unwrap();

    assert_eq!(stored_lists, lists);
}
