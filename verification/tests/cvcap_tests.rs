use cvapi::{
    location_from_segments, Add, AddTask, CheckvistLocation, Chunk, Cli, Command, ConfigAbsentError,
    Context, ContentSource, DestinationSource, InteractivityLevel, ShowStatus, Style,
};

#[test]
fn add_new_sets_content_and_no_options() {
    let add = Add::new("a task");
    assert_eq!(add.task_content, Some("a task".to_string()));
    assert!(!add.choose_list);
    assert!(!add.from_clipboard);
    assert!(!add.from_stdin);
}

#[test]
fn command_default_adds_to_default_list() {
    let cmd = Command::default("buy milk");
    match cmd {
        Command::Add(a) => {
            assert_eq!(a.content_source, ContentSource::Arg("buy milk".to_string()));
            assert_eq!(a.destination_source, DestinationSource::Config);
        }
        other => panic!("unexpected command: {:?}", other),
    }
}

#[test]
fn quiet_and_choose_list_flags_conflict() {
    let conflicted = Cli {
        interactivity_level: InteractivityLevel::Silent,
        subcommand: Command::Add(AddTask {
            content_source: ContentSource::Arg("x".to_string()),
            destination_source: DestinationSource::PromptUser,
        }),
    };
    assert!(!Cli::reject_q_and_l_flags(&conflicted));

    let fine = Cli {
        interactivity_level: InteractivityLevel::Normal,
        subcommand: Command::Add(AddTask {
            content_source: ContentSource::Arg("x".to_string()),
            destination_source: DestinationSource::PromptUser,
        }),
    };
    assert!(Cli::reject_q_and_l_flags(&fine));
}

#[test]
fn bookmark_location_parses_from_url_segments() {
    let segs = vec!["checklists".to_string(), "1".to_string()];
    assert_eq!(
        location_from_segments(&segs),
        Some(CheckvistLocation {
            list_id: 1,
            parent_task_id: None
        })
    );

    let segs = vec![
        "checklists".to_string(),
        "1".to_string(),
        "tasks".to_string(),
        "2".to_string(),
    ];
    assert_eq!(
        location_from_segments(&segs),
        Some(CheckvistLocation {
            list_id: 1,
            parent_task_id: Some(2)
        })
    );

    let segs = vec!["boards".to_string(), "1".to_string()];
    assert_eq!(location_from_segments(&segs), None);
    let segs = vec!["checklists".to_string(), "x".to_string()];
    assert_eq!(location_from_segments(&segs), None);
}

#[test]
fn bold_styles_are_the_attention_drawing_ones() {
    assert!(Chunk::new("a".to_string(), Style::TaskContent).is_bold());
    assert!(Chunk::new("a".to_string(), Style::Error).is_bold());
    assert!(Chunk::new("a".to_string(), Style::ListName).is_bold());
    assert!(Chunk::new("a".to_string(), Style::Warning).is_bold());
    assert!(!Chunk::new("a".to_string(), Style::Normal).is_bold());
    assert!(!Chunk::new("a".to_string(), Style::Link).is_bold());
}

#[test]
fn status_reports_login_and_list() {
    let context = Context {
        config: Err(ConfigAbsentError::InteractionDisallowed),
        config_file_path: "/tmp/none".to_string(),
        allow_interaction: false,
        api_token: Some("tok".to_string()),
        checkvist_base_url: "https://example.test".to_string(),
        keychain_service_name: "svc".to_string(),
    };
    let status = ShowStatus.get_status(&context);
    assert!(status.contains("logged in to Checkvist: \tyes"));
    assert!(status.contains("default list: \t\tnone"));
}
