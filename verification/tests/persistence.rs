use stmux::commands::MuxCommand;
use stmux::model::{NameValue, TmuxPane, TmuxSession, TmuxSessions, TmuxWindow};
use stmux::session::SessionImpl;
use stmux::sessions::SessionStorageImpl;
use stmux::utils::merge;

fn pane(index: usize, path: &str, startup: Option<&str>, shell: Option<&str>) -> TmuxPane {
    TmuxPane {
        index,
        path: path.to_string(),
        active: index == 1,
        startup_command: startup.map(|s| s.to_string()),
        shell_command: shell.map(|s| s.to_string()),
        environment: vec![NameValue { name: "NO_CD".to_string(), value: "1".to_string() }],
    }
}

fn window(index: usize, name: &str, layout: &str, panes: Vec<TmuxPane>) -> TmuxWindow {
    TmuxWindow { index, name: name.to_string(), layout: layout.to_string(), panes, active: None }
}

fn session(windows: Vec<TmuxWindow>) -> TmuxSession {
    TmuxSession { background: None, no_recent_tracking: None, windows, options: vec![] }
}

fn map_of(entries: Vec<(&str, TmuxSession)>) -> TmuxSessions {
    TmuxSessions { entries: entries.into_iter().map(|(n, s)| (n.to_string(), s)).collect() }
}

#[test]
fn merge_is_left_biased() {
    let stored_work = session(vec![window(1, "w", "even", vec![pane(1, "/a", None, None)])]);
    let live_work = session(vec![]);
    let live_other = session(vec![window(1, "x", "even", vec![pane(1, "/b", None, None)])]);

    let stored = map_of(vec![("work", stored_work.clone())]);
    let live = map_of(vec![("work", live_work), ("other", live_other.clone())]);

    let merged = merge(stored, live);

    assert_eq!(merged.entries.len(), 2);
    let work = merged.get("work").unwrap();
    assert_eq!(work, &stored_work);
    let other = merged.get("other").unwrap();
    assert_eq!(other, &live_other);
    assert!(merged.get("absent").is_none());
}

#[test]
fn topology_round_trips_through_the_codec() {
    let full = TmuxSession {
        background: Some(true),
        no_recent_tracking: Some(false),
        windows: vec![
            window(
                1,
                "editor",
                "main-vertical",
                vec![pane(1, "/home/u/src", Some("nvim"), None), pane(2, "/home/u", None, Some("ls -la"))],
            ),
            window(2, "logs", "even-horizontal", vec![pane(1, "/var/log", None, None)]),
        ],
        options: vec![NameValue { name: "status".to_string(), value: "off".to_string() }],
    };
    let bare = session(vec![]);
    let sessions = map_of(vec![("work", full), ("empty", bare)]);

    let storage = SessionStorageImpl::new("sessions.stmux");
    let lines = storage.save(&sessions);
    let parsed = storage.load(Some(&lines)).expect("the written document parses back");

    assert_eq!(parsed.entries, sessions.entries);
}

#[test]
fn values_that_look_like_markers_or_counts_still_round_trip() {
    let tricky = TmuxSession {
        background: Some(false),
        no_recent_tracking: None,
        windows: vec![window(
            7,
            "t",
            "3",
            vec![pane(1, "n", None, Some("s")), pane(2, "0", Some("f"), None)],
        )],
        options: vec![NameValue { name: "2".to_string(), value: "".to_string() }],
    };
    let sessions = map_of(vec![("19", tricky)]);
    let storage = SessionStorageImpl::new("sessions.stmux");

    let parsed = storage.load(Some(&storage.save(&sessions))).unwrap();

    assert_eq!(parsed.entries, sessions.entries);
}

#[test]
fn an_empty_mapping_round_trips() {
    let storage = SessionStorageImpl::new("sessions.stmux");
    let empty = TmuxSessions::new();
    let parsed = storage.load(Some(&storage.save(&empty))).unwrap();
    assert!(parsed.entries.is_empty());
}

#[test]
fn merge_with_an_empty_side_keeps_the_other() {
    let only = session(vec![window(1, "w", "even", vec![pane(1, "/a", None, None)])]);

    let kept = merge(map_of(vec![("work", only.clone())]), TmuxSessions::new());
    assert_eq!(kept.entries.len(), 1);

    let taken = merge(TmuxSessions::new(), map_of(vec![("work", only)]));
    assert_eq!(taken.entries.len(), 1);
    assert!(taken.get("work").is_some());
}

#[test]
fn load_of_an_absent_file_is_an_empty_mapping() {
    let storage = SessionStorageImpl::new("sessions.stmux");
    let loaded = storage.load(None).unwrap();
    assert!(loaded.entries.is_empty());
}

#[test]
fn load_rejects_malformed_content() {
    let storage = SessionStorageImpl::new("sessions.stmux");
    assert!(storage.load(Some(&vec!["not a count".to_string()])).is_none());
    assert!(storage.load(Some(&vec!["2".to_string(), "lonely".to_string()])).is_none());
    // Trailing lines after the counted entries are refused too.
    let mut lines = storage.save(&map_of(vec![]));
    lines.push("stray".to_string());
    assert!(storage.load(Some(&lines)).is_none());
}

#[test]
fn load_rejects_a_name_stored_twice() {
    let one = map_of(vec![("work", session(vec![]))]);
    let storage = SessionStorageImpl::new("sessions.stmux");
    let mut lines = storage.save(&one);
    // Duplicate the single entry by hand: same body appended, count doubled.
    let body: Vec<String> = lines[1..].to_vec();
    lines.extend(body);
    lines[0] = "2".to_string();
    assert!(storage.load(Some(&lines)).is_none());
}

#[test]
fn restore_all_replays_work_with_one_create_one_split_one_window_one_layout() {
    let work = session(vec![
        window(
            1,
            "editor",
            "main-vertical",
            vec![pane(1, "/home/u/src", None, None), pane(2, "/home/u", None, None)],
        ),
        window(2, "logs", "even-horizontal", vec![pane(1, "/var/log", None, None)]),
    ]);
    let sessions = map_of(vec![("work", work)]);
    let storage = SessionStorageImpl::new("sessions.stmux");

    let cmds = storage.restore_all(&sessions, &vec![]);

    let creates = cmds.iter().filter(|c| matches!(c, MuxCommand::NewSession { .. })).count();
    let splits = cmds.iter().filter(|c| matches!(c, MuxCommand::SplitWindow { .. })).count();
    let windows = cmds.iter().filter(|c| matches!(c, MuxCommand::NewWindow { .. })).count();
    let layouts: Vec<&MuxCommand> =
        cmds.iter().filter(|c| matches!(c, MuxCommand::SelectLayout { .. })).collect();
    assert_eq!(creates, 1);
    assert_eq!(splits, 1);
    assert_eq!(windows, 1);
    assert_eq!(layouts.len(), 1);
    match layouts[0] {
        MuxCommand::SelectLayout { session_name, window_name, layout } => {
            assert_eq!(session_name, "work");
            assert_eq!(window_name, "editor");
            assert_eq!(layout, "main-vertical");
        }
        _ => unreachable!(),
    }
}

#[test]
fn restore_all_skips_numeric_windowless_and_live_sessions() {
    let good = session(vec![window(1, "w", "even", vec![pane(1, "/a", None, None)])]);
    let numeric = session(vec![window(1, "w", "even", vec![pane(1, "/b", None, None)])]);
    let windowless = session(vec![]);
    let live_one = session(vec![window(1, "w", "even", vec![pane(1, "/c", None, None)])]);
    let sessions = map_of(vec![
        ("7", numeric),
        ("bare", windowless),
        ("running", live_one),
        ("fresh", good),
    ]);
    let storage = SessionStorageImpl::new("sessions.stmux");

    let cmds = storage.restore_all(&sessions, &vec!["running".to_string()]);

    for cmd in &cmds {
        if let MuxCommand::NewSession { session_name, .. } = cmd {
            assert_eq!(session_name, "fresh");
        }
    }
    let creates = cmds.iter().filter(|c| matches!(c, MuxCommand::NewSession { .. })).count();
    assert_eq!(creates, 1);
}

#[test]
fn live_enumeration_filters_reserved_and_windowless_sessions() {
    let with_window = session(vec![window(1, "w", "even", vec![pane(1, "/a", None, None)])]);
    let raw = vec![
        ("3".to_string(), with_window.clone()),
        ("bare".to_string(), session(vec![])),
        ("ok".to_string(), with_window.clone()),
    ];

    let live = SessionImpl::new().list(raw);

    assert_eq!(live.entries.len(), 1);
    assert!(live.get("ok").is_some());
    assert!(live.get("3").is_none());
    assert!(live.get("bare").is_none());
}

#[test]
fn merge_takes_no_reserved_entries_from_a_filtered_live_enumeration() {
    let with_window = session(vec![window(1, "w", "even", vec![pane(1, "/a", None, None)])]);
    let raw = vec![
        ("42".to_string(), with_window.clone()),
        ("new".to_string(), with_window.clone()),
    ];
    let stored = map_of(vec![("work", with_window)]);

    let merged = merge(stored, SessionImpl::new().list(raw));

    assert_eq!(merged.entries.len(), 2);
    assert!(merged.get("work").is_some());
    assert!(merged.get("new").is_some());
    assert!(merged.get("42").is_none());
}

#[test]
fn restore_reports_background_and_plans_the_replay() {
    let bg = TmuxSession {
        background: Some(true),
        no_recent_tracking: None,
        windows: vec![window(1, "w", "even", vec![pane(1, "/a", Some("top"), None)])],
        options: vec![],
    };
    let sessions = map_of(vec![("work", bg)]);
    let storage = SessionStorageImpl::new("sessions.stmux");

    let (background, cmds) = storage.restore(&sessions, "work");
    assert_eq!(background, Some(true));
    assert!(matches!(cmds[0], MuxCommand::NewSession { .. }));
    assert!(matches!(cmds[cmds.len() - 1], MuxCommand::SelectWindow { .. }));

    let (missing, none_cmds) = storage.restore(&sessions, "absent");
    assert_eq!(missing, None);
    assert!(none_cmds.is_empty());
}

#[test]
fn select_switches_to_a_live_session_and_into_a_restored_foreground_one() {
    let fg = session(vec![window(1, "w", "even", vec![pane(1, "/a", None, None)])]);
    let sessions = map_of(vec![("work", fg)]);
    let storage = SessionStorageImpl::new("sessions.stmux");
    let component = SessionImpl::new();

    let live_plan = component.select("work", true, &sessions, &storage);
    assert_eq!(
        live_plan,
        vec![MuxCommand::SelectSession { session_name: "work".to_string() }]
    );

    let restore_plan = component.select("work", false, &sessions, &storage);
    assert!(matches!(restore_plan[0], MuxCommand::NewSession { .. }));
    assert!(matches!(
        restore_plan[restore_plan.len() - 1],
        MuxCommand::SelectSession { .. }
    ));

    let unknown_plan = component.select("ghost", false, &sessions, &storage);
    assert!(unknown_plan.is_empty());
}

#[test]
fn select_does_not_switch_into_a_background_restore() {
    let bg = TmuxSession {
        background: Some(true),
        no_recent_tracking: None,
        windows: vec![window(1, "w", "even", vec![pane(1, "/a", None, None)])],
        options: vec![],
    };
    let sessions = map_of(vec![("work", bg)]);
    let storage = SessionStorageImpl::new("sessions.stmux");

    let plan = SessionImpl::new().select("work", false, &sessions, &storage);
    assert!(!plan.iter().any(|c| matches!(c, MuxCommand::SelectSession { .. })));
}

#[test]
fn delete_and_update_edit_the_single_named_entry() {
    let a = session(vec![window(1, "w", "even", vec![pane(1, "/a", None, None)])]);
    let b = session(vec![]);
    let sessions = map_of(vec![("a", a.clone()), ("b", b.clone())]);
    let component = SessionImpl::new();

    let without_a = component.delete("a", sessions);
    assert_eq!(without_a.entries.len(), 1);
    assert!(without_a.get("a").is_none());

    let replaced = component.update("b", a.clone(), without_a);
    assert_eq!(replaced.get("b").unwrap(), &a);
}

#[test]
fn convert_rewrites_the_old_shape_with_flags_absent() {
    // The old shape: an entry count, then per entry its name followed by a
    // window list (no session-level flags or options).
    let w = window(1, "main", "even", vec![pane(1, "/a", None, None)]);
    let new_shape = map_of(vec![("work", session(vec![w]))]);
    let storage = SessionStorageImpl::new("sessions.stmux");
    let new_lines = storage.save(&new_shape);
    // Strip each session body down to the old shape: drop the two flag
    // lines and the option count that follow each name line.
    let mut old_lines: Vec<String> = Vec::new();
    old_lines.push(new_lines[0].clone());
    old_lines.push(new_lines[1].clone());
    old_lines.extend(new_lines[5..].iter().cloned());

    let converted = storage.convert(&old_lines).expect("the old shape converts");
    let parsed = storage.load(Some(&converted)).expect("the converted shape parses");

    assert_eq!(parsed.entries, new_shape.entries);
}

#[test]
fn list_returns_the_stored_names_in_order() {
    let sessions = map_of(vec![("b", session(vec![])), ("a", session(vec![]))]);
    let storage = SessionStorageImpl::new("sessions.stmux");
    assert_eq!(storage.list(&sessions), vec!["b".to_string(), "a".to_string()]);
}
