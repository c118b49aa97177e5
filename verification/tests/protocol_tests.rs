use cvapi::{
    classify_message, location_outcome, resolve_checklist, resolve_task, settle_response,
    task_from_json, task_to_json, CheckvistError, HttpOutcome, Task,
};

const LIST_MISSING: &str = "The list doesn't exist or is not available to you";

#[test]
fn classification_of_known_messages() {
    assert_eq!(
        classify_message(LIST_MISSING.to_string()),
        CheckvistError::InvalidListError
    );
    assert_eq!(
        classify_message("Invalid parent_id: 5".to_string()),
        CheckvistError::InvalidParentIdError
    );
    assert_eq!(
        classify_message("something else".to_string()),
        CheckvistError::UnknownError {
            message: "something else".to_string()
        }
    );
}

#[test]
fn error_envelope_on_success_status_classifies() {
    // the list-not-found wording, from a body that was expected to hold a list
    let body = format!(r#"{{"message": "{}"}}"#, LIST_MISSING).into_bytes();
    assert_eq!(
        resolve_checklist(&body).unwrap_err(),
        CheckvistError::InvalidListError
    );
}

#[test]
fn error_envelope_with_parent_wording_classifies() {
    // the invalid-parent wording, from a body that was expected to hold a task
    let body = r#"{"message": "Invalid parent_id: 5"}"#.to_string().into_bytes();
    assert_eq!(
        resolve_task(&body).unwrap_err(),
        CheckvistError::InvalidParentIdError
    );
}

#[test]
fn add_task_scenario_round_trips_through_the_wire() {
    // what goes out for a fresh "buy milk" task...
    let task = Task {
        id: None,
        content: "buy milk".to_string(),
        position: 1,
        parent_id: None,
    };
    let request = String::from_utf8(task_to_json(&task)).unwrap();
    assert!(request.contains(r#""content":"buy milk""#));

    // ...and what the server's reply resolves to
    let response = r#"{"id":42,"content":"buy milk","position":1,"parent_id":null}"#
        .to_string()
        .into_bytes();
    let returned = task_from_json(&response).unwrap();
    assert_eq!(returned.id, Some(42));
    assert_eq!(returned.content, "buy milk");
}

#[test]
fn settle_hands_on_success_bodies_and_classifies_failures() {
    let ok = settle_response(HttpOutcome::Response {
        status: 200,
        body: b"xyz".to_vec(),
    });
    assert_eq!(ok.unwrap(), b"xyz".to_vec());

    let not_found = settle_response(HttpOutcome::Response {
        status: 404,
        body: Vec::new(),
    });
    assert_eq!(
        not_found.unwrap_err(),
        CheckvistError::NetworkError {
            message: "HTTP status 404".to_string()
        }
    );

    let classified = settle_response(HttpOutcome::Response {
        status: 403,
        body: format!(r#"{{"message":"{}"}}"#, LIST_MISSING).into_bytes(),
    });
    assert_eq!(classified.unwrap_err(), CheckvistError::InvalidListError);

    let transport = settle_response(HttpOutcome::Failure {
        message: "no route".to_string(),
    });
    assert_eq!(
        transport.unwrap_err(),
        CheckvistError::NetworkError {
            message: "no route".to_string()
        }
    );
}

#[test]
fn location_outcome_maps_missing_resources_to_false() {
    assert_eq!(location_outcome::<u32>(Ok(5)), Ok(true));
    assert_eq!(
        location_outcome::<u32>(Err(CheckvistError::InvalidListError)),
        Ok(false)
    );
    assert_eq!(
        location_outcome::<u32>(Err(CheckvistError::InvalidTaskError)),
        Ok(false)
    );
    assert_eq!(
        location_outcome::<u32>(Err(CheckvistError::TokenRefreshFailedError)),
        Err(CheckvistError::TokenRefreshFailedError)
    );
}
