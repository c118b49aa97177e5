use cvapi::{
    checklists_from_json, format_date, message_from_json, parse_date, parse_u32_str, str_contains,
    task_from_json, task_to_json, tasks_from_json, token_from_json, u32_to_string, CheckvistDate,
    Task,
};

#[test]
fn date_formats_to_the_wire_form() {
    let d = CheckvistDate {
        year: 2022,
        month: 9,
        day: 1,
        hour: 10,
        minute: 58,
        second: 52,
        offset_negative: false,
        offset_hours: 10,
        offset_minutes: 0,
    };
    assert_eq!(
        String::from_utf8(format_date(&d)).unwrap(),
        "2022/09/01 10:58:52 +1000"
    );
}

#[test]
fn date_round_trips() {
    let d = CheckvistDate {
        year: 1999,
        month: 2,
        day: 28,
        hour: 23,
        minute: 0,
        second: 59,
        offset_negative: true,
        offset_hours: 11,
        offset_minutes: 30,
    };
    let text = format_date(&d);
    assert_eq!(parse_date(&text), Some(d));
}

#[test]
fn date_rejects_bad_calendar_values() {
    assert_eq!(parse_date(&b"2023/02/29 10:00:00 +0000".to_vec()), None);
    assert_eq!(parse_date(&b"2023/13/01 10:00:00 +0000".to_vec()), None);
    assert_eq!(parse_date(&b"2023/01/01 24:00:00 +0000".to_vec()), None);
    assert_eq!(parse_date(&b"2023-01-01 10:00:00 +0000".to_vec()), None);
    assert_eq!(parse_date(&b"short".to_vec()), None);
    // leap year: February 29th of 2024 is a real day
    assert!(parse_date(&b"2024/02/29 10:00:00 +0000".to_vec()).is_some());
}

#[test]
fn task_serializes_with_id_omitted_when_absent() {
    let t = Task {
        id: None,
        content: "buy milk".to_string(),
        position: 1,
        parent_id: None,
    };
    assert_eq!(
        String::from_utf8(task_to_json(&t)).unwrap(),
        r#"{"content":"buy milk","position":1,"parent_id":null}"#
    );
    let t2 = Task {
        id: Some(7),
        content: "x".to_string(),
        position: 2,
        parent_id: Some(9),
    };
    assert_eq!(
        String::from_utf8(task_to_json(&t2)).unwrap(),
        r#"{"id":7,"content":"x","position":2,"parent_id":9}"#
    );
}

#[test]
fn task_content_is_escaped() {
    let t = Task {
        id: None,
        content: "say \"hi\"\\now".to_string(),
        position: 1,
        parent_id: None,
    };
    let out = String::from_utf8(task_to_json(&t)).unwrap();
    assert_eq!(
        out,
        r#"{"content":"say \"hi\"\\now","position":1,"parent_id":null}"#
    );
}

#[test]
fn task_parses_with_unknown_fields_and_escapes() {
    let body = r#" {"note":{"deep":[1,2,{"x":null}]},"content":"a\tbA\u00e9","position":3,"id":12,"extra":true} "#
        .to_string()
        .into_bytes();
    let t = task_from_json(&body).unwrap();
    assert_eq!(t.id, Some(12));
    assert_eq!(t.content, "a\tbA\u{e9}");
    assert_eq!(t.position, 3);
    assert_eq!(t.parent_id, None);
}

#[test]
fn task_parses_surrogate_pair_escapes() {
    let body = r#"{"content":"\ud83d\ude00","position":1}"#.to_string().into_bytes();
    let t = task_from_json(&body).unwrap();
    assert_eq!(t.content, "\u{1F600}");
}

#[test]
fn task_rejects_missing_required_fields() {
    assert!(task_from_json(&br#"{"content":"a"}"#.to_vec()).is_none());
    assert!(task_from_json(&br#"{"position":1}"#.to_vec()).is_none());
    assert!(task_from_json(&br#"{"content":"a","position":1,"content":"b"}"#.to_vec()).is_none());
    assert!(task_from_json(&br#"not json"#.to_vec()).is_none());
}

#[test]
fn tasks_array_parses() {
    let body = br#"[{"id":1,"content":"a","position":1,"parent_id":null},
                    {"id":2,"content":"b","position":2,"parent_id":1}]"#
        .to_vec();
    let ts = tasks_from_json(&body).unwrap();
    assert_eq!(ts.len(), 2);
    assert_eq!(ts[1].parent_id, Some(1));
    assert!(tasks_from_json(&br#"[]"#.to_vec()).unwrap().is_empty());
}

#[test]
fn checklists_array_parses() {
    let body = br#"[{"id":1,"name":"a","updated_at":"2022/09/01 10:58:52 +1000","task_count":2}]"#
        .to_vec();
    let ls = checklists_from_json(&body).unwrap();
    assert_eq!(ls.len(), 1);
    let expected = CheckvistDate {
        year: 2022,
        month: 9,
        day: 1,
        hour: 10,
        minute: 58,
        second: 52,
        offset_negative: false,
        offset_hours: 10,
        offset_minutes: 0,
    };
    assert_eq!(ls[0].updated_at, expected);
}

#[test]
fn token_and_message_envelopes_parse() {
    assert_eq!(
        token_from_json(&br#"{"token":"abc"}"#.to_vec()).unwrap(),
        "abc"
    );
    assert_eq!(
        message_from_json(&br#"{"message":"oh no"}"#.to_vec()).unwrap(),
        "oh no"
    );
    assert!(token_from_json(&br#"{"nope":"abc"}"#.to_vec()).is_none());
    assert!(message_from_json(&br#"{"message":5}"#.to_vec()).is_none());
}

#[test]
fn decimal_helpers() {
    assert_eq!(u32_to_string(0), "0");
    assert_eq!(u32_to_string(4294967295), "4294967295");
    assert_eq!(parse_u32_str("123"), Some(123));
    assert_eq!(parse_u32_str(""), None);
    assert_eq!(parse_u32_str("12a"), None);
    assert_eq!(parse_u32_str("4294967295"), Some(u32::MAX));
    assert_eq!(parse_u32_str("4294967296"), None);
}

#[test]
fn substring_search() {
    assert!(str_contains("Invalid parent_id: 5", "Invalid parent_id"));
    assert!(!str_contains("some other text", "Invalid parent_id"));
    assert!(str_contains("anything", ""));
}
