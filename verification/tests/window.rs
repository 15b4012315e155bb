use stmux::commands::MuxCommand;
use stmux::model::{PaneWindowName, TmuxPane, TmuxSession, TmuxWindow};
use stmux::window::WindowImpl;

fn pane(index: usize, path: &str, startup: Option<&str>, shell: Option<&str>) -> TmuxPane {
    TmuxPane {
        index,
        path: path.to_string(),
        active: true,
        startup_command: startup.map(|s| s.to_string()),
        shell_command: shell.map(|s| s.to_string()),
        environment: vec![],
    }
}

fn stored_session(first_pane: TmuxPane) -> TmuxSession {
    TmuxSession {
        background: None,
        no_recent_tracking: None,
        windows: vec![TmuxWindow {
            index: 1,
            name: "main".to_string(),
            layout: "even".to_string(),
            panes: vec![first_pane],
            active: None,
        }],
        options: vec![],
    }
}

fn strings(list: &[&str]) -> Vec<String> {
    list.iter().map(|s| s.to_string()).collect()
}

#[test]
fn smart_split_splits_a_single_pane_window_and_tags_the_new_pane() {
    let component = WindowImpl::new();
    let session = stored_session(pane(1, "/home/u/notes", None, None));
    let panes = vec![PaneWindowName { index: 1, window_name: None }];

    let cmds = component.smart_split("notes", &session, &panes, &strings(&[]), "current");

    assert_eq!(
        cmds,
        vec![
            MuxCommand::SplitCurrentWindow {
                horizontal: true,
                path: "/home/u/notes".to_string(),
                startup_command: None,
            },
            MuxCommand::SetPaneOptionForCurrentWindow {
                pane_index: 2,
                name: "@window-name".to_string(),
                value: "notes".to_string(),
            },
        ]
    );
}

#[test]
fn smart_split_reports_when_a_pane_is_already_tagged_for_the_target() {
    let component = WindowImpl::new();
    let session = stored_session(pane(1, "/home/u/notes", None, None));
    let panes = vec![
        PaneWindowName { index: 1, window_name: None },
        PaneWindowName { index: 2, window_name: Some("notes".to_string()) },
    ];

    let cmds = component.smart_split("notes", &session, &panes, &strings(&[]), "current");

    assert_eq!(cmds.len(), 1);
    match &cmds[0] {
        MuxCommand::DisplayMessage { message } => {
            assert!(message.contains("2"));
            assert!(message.contains("notes"));
        }
        other => panic!("expected an informational message, got {:?}", other),
    }
}

#[test]
fn smart_split_joins_when_the_target_window_exists_and_one_pane_shows() {
    let component = WindowImpl::new();
    let session = stored_session(pane(1, "/home/u/notes", None, None));
    let panes = vec![PaneWindowName { index: 1, window_name: None }];

    let cmds = component.smart_split("notes", &session, &panes, &strings(&["notes"]), "current");

    assert_eq!(
        cmds,
        vec![
            MuxCommand::JoinPaneToCurrentWindow {
                window_name: "notes".to_string(),
                pane_index: 1,
            },
            MuxCommand::RefreshClient,
        ]
    );
}

#[test]
fn smart_split_swaps_into_a_new_background_window_when_none_is_named_after_the_target() {
    let component = WindowImpl::new();
    let session = stored_session(pane(1, "/home/u/notes", None, Some("ls")));
    let panes = vec![
        PaneWindowName { index: 1, window_name: None },
        PaneWindowName { index: 2, window_name: Some("mail".to_string()) },
    ];

    let cmds = component.smart_split("notes", &session, &panes, &strings(&["other"]), "current");

    assert_eq!(
        cmds,
        vec![
            MuxCommand::NewWindowInCurrentSession {
                window_name: "mail".to_string(),
                path: "/home/u/notes".to_string(),
                environment: vec![],
                startup_command: None,
                background: true,
            },
            MuxCommand::SendKeys {
                session_name: "current".to_string(),
                window_name: "mail".to_string(),
                pane_index: 1,
                keys: "ls".to_string(),
            },
            MuxCommand::SwapPanes {
                current_window_pane_index: 2,
                source_window_name: "mail".to_string(),
                source_pane_index: 1,
            },
            MuxCommand::SetPaneOptionForCurrentWindow {
                pane_index: 2,
                name: "@window-name".to_string(),
                value: "notes".to_string(),
            },
        ]
    );
}

#[test]
fn smart_split_swaps_directly_and_renames_when_the_target_window_exists() {
    let component = WindowImpl::new();
    let session = stored_session(pane(1, "/home/u/notes", None, None));
    let panes = vec![
        PaneWindowName { index: 1, window_name: None },
        PaneWindowName { index: 3, window_name: None },
    ];

    let cmds = component.smart_split("notes", &session, &panes, &strings(&["notes"]), "current");

    assert_eq!(
        cmds,
        vec![
            MuxCommand::SwapPanes {
                current_window_pane_index: 3,
                source_window_name: "notes".to_string(),
                source_pane_index: 1,
            },
            MuxCommand::RenameWindowInCurrentSession {
                old_name: "notes".to_string(),
                new_name: "princess_kenny".to_string(),
            },
            MuxCommand::SetPaneOptionForCurrentWindow {
                pane_index: 3,
                name: "@window-name".to_string(),
                value: "notes".to_string(),
            },
        ]
    );
}

#[test]
fn smart_split_does_nothing_for_a_stored_session_without_panes() {
    let component = WindowImpl::new();
    let empty = TmuxSession {
        background: None,
        no_recent_tracking: None,
        windows: vec![],
        options: vec![],
    };
    let panes = vec![PaneWindowName { index: 1, window_name: None }];

    assert!(component.smart_split("notes", &empty, &panes, &strings(&[]), "c").is_empty());
}

#[test]
fn split_window_sends_the_shell_command_only_without_a_startup_command() {
    let component = WindowImpl::new();

    let with_startup = component.split_window(&pane(1, "/a", Some("nvim"), Some("ls")), 2);
    assert_eq!(with_startup.len(), 1);

    let with_shell = component.split_window(&pane(1, "/a", None, Some("ls")), 2);
    assert_eq!(
        with_shell[1],
        MuxCommand::SendKeysToCurrentWindow { pane_index: 2, keys: "ls".to_string() }
    );
}

#[test]
fn pane_window_names_read_index_and_optional_tag() {
    let component = WindowImpl::new();
    let lines = strings(&["1:", "2:work", "x:extra:ignored"]);

    let records = component.get_pane_window_names(&lines);

    assert_eq!(records.len(), 3);
    assert_eq!(records[0], PaneWindowName { index: 1, window_name: None });
    assert_eq!(records[1], PaneWindowName { index: 2, window_name: Some("work".to_string()) });
    // An unreadable index counts as zero; a tag ends at the next colon.
    assert_eq!(records[2], PaneWindowName { index: 0, window_name: Some("extra".to_string()) });
}

#[test]
fn pane_details_group_panes_under_their_windows() {
    let component = WindowImpl::new();
    let lines = strings(&[
        "1:editor:main-vertical:1:1:/home/u/src",
        "1:editor:main-vertical:2:0:/home/u",
        "2:logs:even-horizontal:1:1:/var/log",
    ]);

    let windows = component.list_with_pane_details(&lines);

    assert_eq!(windows.len(), 2);
    assert_eq!(windows[0].name, "editor");
    assert_eq!(windows[0].index, 1);
    assert_eq!(windows[0].layout, "main-vertical");
    assert_eq!(windows[0].panes.len(), 2);
    assert!(windows[0].panes[0].active);
    assert!(!windows[0].panes[1].active);
    assert_eq!(windows[0].panes[1].path, "/home/u");
    assert_eq!(windows[1].name, "logs");
    assert_eq!(windows[1].panes.len(), 1);
}

#[test]
fn status_windows_come_out_grouped_and_ordered_by_ordinal() {
    let component = WindowImpl::new();
    let lines = strings(&[
        "2:0:logs:1::1",
        "1:1:editor:1:work:1",
        "1:1:editor:2::0",
        "short:line",
    ]);

    let windows = component.list_names_for_status(&lines);

    assert_eq!(windows.len(), 2);
    assert_eq!(windows[0].index, 1);
    assert_eq!(windows[0].name, "editor");
    assert!(windows[0].active);
    assert_eq!(windows[0].panes.len(), 2);
    assert_eq!(windows[0].panes[0].window_name.as_deref(), Some("work"));
    assert_eq!(windows[0].panes[1].window_name, None);
    assert_eq!(windows[1].index, 2);
    assert_eq!(windows[1].panes.len(), 1);
}
