use cvapi::{Bookmark, CheckvistLocation, Config};

#[test]
fn add_bookmarks() {
    let bookmark = Bookmark {
        name: "bm1".to_string(),
        location: CheckvistLocation {
            list_id: 1,
            parent_task_id: None,
        },
    };
    let mut config = Config {
        list_id: 1,
        list_name: "list".to_string(),
        bookmarks: None,
    };

    config.add_bookmark(bookmark, false).unwrap();
    {
        let bookmarks = config.bookmarks.as_ref().unwrap();

        assert_eq!(bookmarks.len(), 1usize);
        assert_eq!(bookmarks[0].location.list_id, 1);
    }

    let bookmark2 = Bookmark {
        name: "bm2".to_string(),
        location: CheckvistLocation {
            list_id: 2,
            parent_task_id: None,
        },
    };

    config.add_bookmark(bookmark2, false).unwrap();

    {
        let bookmarks = config.bookmarks.as_ref().unwrap();

        assert_eq!(bookmarks.len(), 2usize);
        assert_eq!(bookmarks[1].location.list_id, 2);
    }
}

#[test]
fn add_existing_bookmark_errors_if_replace_not_specified() {
    let bookmark = Bookmark {
        name: "bm1".to_string(),
        location: CheckvistLocation {
            list_id: 1,
            parent_task_id: None,
        },
    };
    let bookmarks = vec![bookmark.clone()];
    let mut new_bookmark = bookmark;
    new_bookmark.name = "bm2".to_string();
    let mut config = Config {
        list_id: 1,
        list_name: "list".to_string(),
        bookmarks: Some(bookmarks),
    };

    let result = config.add_bookmark(new_bookmark, false);

    assert!(result.is_err());
}

#[test]
fn add_can_replace_bookmark_with_same_name() {
    let existing = Bookmark {
        name: "bm1".to_string(),
        location: CheckvistLocation {
            list_id: 1,
            parent_task_id: None,
        },
    };
    let mut new = existing.clone();
    let new_location = CheckvistLocation {
        list_id: 2,
        parent_task_id: None,
    };
    new.location = new_location.clone();

    let bookmarks = vec![existing.clone()];
    let mut config = Config {
        list_id: 1,
        list_name: "list".to_string(),
        bookmarks: Some(bookmarks),
    };

    config.add_bookmark(new, true).unwrap();

    assert!(config.find_bookmark_by_location(&new_location).is_some());
}

#[test]
fn bookmark_lookup_by_name() {
    let config = Config {
        list_id: 1,
        list_name: "test_list".to_string(),
        bookmarks: Some(vec![
            Bookmark {
                name: "bm1".to_string(),
                location: CheckvistLocation {
                    list_id: 1,
                    parent_task_id: None,
                },
            },
            Bookmark {
                name: "bm2".to_string(),
                location: CheckvistLocation {
                    list_id: 1,
                    parent_task_id: Some(1),
                },
            },
        ]),
    };

    let no_bookmark = config.bookmark("none");
    let list_bookmark = config.bookmark("bm1").unwrap();
    let task_bookmark = config.bookmark("bm2").unwrap();

    assert!(no_bookmark.is_none());
    assert_eq!(list_bookmark.location.list_id, 1);
    assert_eq!(task_bookmark.location.parent_task_id.unwrap(), 1);
}
