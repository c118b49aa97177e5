use cvapi::{checklist_from_json, checklist_to_json, Checklist, CheckvistDate};

fn list_date() -> CheckvistDate {
    // 2022-09-01T10:58:52+10:00
    CheckvistDate {
        year: 2022,
        month: 9,
        day: 1,
        hour: 10,
        minute: 58,
        second: 52,
        offset_negative: false,
        offset_hours: 10,
        offset_minutes: 0,
    }
}

fn get_list() -> Checklist {
    Checklist {
        id: 1,
        name: "checklist".to_string(),
        task_count: 2,
        updated_at: list_date(),
    }
}

#[test]
fn checklist_de() {
    let expected = get_list();
    let json = format!(
        r#"
     {{
        "id": 1,
        "name": "checklist",
        "task_count": 2,
        "updated_at":  "{}"
     }}
    "#,
        "2022/09/01 10:58:52 +1000"
    );
    let actual: Checklist = checklist_from_json(&json.into_bytes()).unwrap();

    assert_eq!(actual, expected);
}

#[test]
fn checklist_se() {
    let list = get_list();
    let actual = String::from_utf8(checklist_to_json(&list)).unwrap();
    let expected =
        r#"{"id":1,"name":"checklist","updated_at":"2022/09/01 10:58:52 +1000","task_count":2}"#;

    assert_eq!(actual, expected);
}
