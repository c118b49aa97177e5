use cvapi::{
    login_body, refresh_body, resolve_checklist, resolve_checklists, resolve_task, resolve_tasks,
    resolve_token, Checklist, CheckvistDate, CheckvistError, Task,
};

const DATE_TEXT: &str = "2022/09/01 10:58:52 +1000";

fn a_date() -> CheckvistDate {
    CheckvistDate {
        year: 2022,
        month: 9,
        day: 1,
        hour: 10,
        minute: 58,
        second: 52,
        offset_negative: false,
        offset_hours: 10,
        offset_minutes: 0,
    }
}

#[test]
fn login_and_refresh_bodies_carry_the_wire_fields() {
    assert_eq!(
        String::from_utf8(login_body("user@test.com", "anything")).unwrap(),
        r#"{"username":"user@test.com","remote_key":"anything"}"#
    );
    assert_eq!(
        String::from_utf8(refresh_body("old token")).unwrap(),
        r#"{"old_token":"old token"}"#
    );
}

#[test]
fn token_response_resolves_to_the_token() {
    let body = r#"{"token":"test token"}"#.to_string().into_bytes();
    assert_eq!(resolve_token(&body).unwrap(), "test token");
}

#[test]
fn token_response_without_token_is_a_decode_failure() {
    let body = r#"{"something":"else"}"#.to_string().into_bytes();
    assert!(std::matches!(
        resolve_token(&body).unwrap_err(),
        CheckvistError::DecodeError { .. }
    ));
}

#[test]
fn get_list_body_resolves_to_the_list() {
    let expected = Checklist {
        id: 1,
        name: "list1".to_string(),
        updated_at: a_date(),
        task_count: 1,
    };
    let body = format!(
        r#"{{"id":1,"name":"list1","updated_at":"{}","task_count":1}}"#,
        DATE_TEXT
    )
    .into_bytes();

    assert_eq!(resolve_checklist(&body).unwrap(), expected);
}

#[test]
fn get_lists_body_resolves_in_order() {
    let body = format!(
        r#"[{{"id":1,"name":"a","updated_at":"{0}","task_count":1}},
            {{"id":2,"name":"b","updated_at":"{0}","task_count":2}}]"#,
        DATE_TEXT
    )
    .into_bytes();

    let lists = resolve_checklists(&body).unwrap();
    assert_eq!(lists.len(), 2);
    assert_eq!(lists[0].name, "a");
    assert_eq!(lists[1].id, 2);
}

#[test]
fn get_tasks_body_resolves() {
    let tasks = vec![Task {
        id: Some(1),
        position: 1,
        content: "content".to_string(),
        parent_id: None,
    }];
    let body = r#"[{"id":1,"content":"content","position":1,"parent_id":null}]"#
        .to_string()
        .into_bytes();

    assert_eq!(resolve_tasks(&body).unwrap(), tasks);
}

#[test]
fn gibberish_body_is_a_decode_failure() {
    let body = b"any old gibberish".to_vec();
    assert!(std::matches!(
        resolve_checklist(&body).unwrap_err(),
        CheckvistError::DecodeError { .. }
    ));
}

#[test]
fn add_task_checkvist_api_error() {
    let body = r#"{"message": "error detail"}"#.to_string().into_bytes();

    let returned = resolve_task(&body).unwrap_err();

    assert!(
        std::matches!(returned, CheckvistError::UnknownError { message: msg } if msg == "error detail")
    );
}
