use stmux::model::TmuxSession;
use stmux::recent::RecentImpl;

fn names(list: &[&str]) -> Vec<String> {
    list.iter().map(|s| s.to_string()).collect()
}

#[test]
fn should_return_the_next_session() {
    let recent = RecentImpl::new(names(&["a", "b"]), names(&["a", "b"]));

    let result = recent.next("a");

    assert_eq!(result.as_deref(), Some("b"));
}

#[test]
fn should_return_the_next_available_session() {
    let recent = RecentImpl::new(names(&["a", "b", "c"]), names(&["a", "c"]));

    let result = recent.next("a");

    assert_eq!(result.as_deref(), Some("c"));
}

#[test]
fn should_return_none_if_the_session_is_the_last_one() {
    let recent = RecentImpl::new(names(&["a", "b", "c"]), names(&["a", "b", "c"]));

    let result = recent.next("c");

    assert_eq!(result.as_deref(), None);
}

#[test]
fn should_return_the_previous_session() {
    let recent = RecentImpl::new(names(&["a", "b", "c"]), names(&["a", "b", "c"]));

    let result = recent.previous("c");

    assert_eq!(result.as_deref(), Some("b"));
}

#[test]
fn should_return_the_previous_available_session() {
    let recent = RecentImpl::new(names(&["a", "b", "c"]), names(&["a", "c"]));

    let result = recent.previous("c");

    assert_eq!(result.as_deref(), Some("a"));
}

#[test]
fn should_return_none_if_the_session_is_the_first_one() {
    let recent = RecentImpl::new(names(&["a", "b", "c"]), names(&["a", "b", "c"]));

    let result = recent.previous("a");

    assert_eq!(result.as_deref(), None);
}

#[test]
fn next_returns_none_for_a_session_absent_from_the_list() {
    let recent = RecentImpl::new(names(&["a", "b"]), names(&["a", "b"]));

    assert_eq!(recent.next("z"), None);
}

#[test]
fn next_and_previous_are_inverses_on_the_filtered_list() {
    let recent = RecentImpl::new(names(&["a", "b", "c", "d"]), names(&["a", "c", "d"]));

    let b = recent.next("a").unwrap();
    assert_eq!(b, "c");
    assert_eq!(recent.previous(&b).as_deref(), Some("a"));

    let c = recent.next("c").unwrap();
    assert_eq!(c, "d");
    assert_eq!(recent.previous(&c).as_deref(), Some("c"));
}

#[test]
fn add_moves_the_name_to_the_front_without_duplicates() {
    let recent = RecentImpl::new(names(&["a", "b", "c"]), names(&[]));

    let written = recent.add(None, "b").unwrap();

    assert_eq!(written, names(&["b", "a", "c"]));
}

#[test]
fn add_twice_leaves_the_name_at_the_front_exactly_once() {
    let recent = RecentImpl::new(names(&["a", "b", "c"]), names(&[]));
    let once = recent.add(None, "b").unwrap();

    let again = RecentImpl::new(once.clone(), names(&[]));
    let twice = again.add(None, "b").unwrap();

    assert_eq!(twice, once);
    assert_eq!(twice.iter().filter(|n| n.as_str() == "b").count(), 1);
}

#[test]
fn add_skips_numeric_names_and_untracked_sessions() {
    let recent = RecentImpl::new(names(&["a"]), names(&[]));

    assert_eq!(recent.add(None, "42"), None);

    let untracked = TmuxSession {
        background: None,
        no_recent_tracking: Some(true),
        windows: vec![],
        options: vec![],
    };
    assert_eq!(recent.add(Some(&untracked), "work"), None);

    let kept = TmuxSession {
        background: None,
        no_recent_tracking: Some(false),
        windows: vec![],
        options: vec![],
    };
    assert_eq!(recent.add(Some(&kept), "work").unwrap(), names(&["work", "a"]));
}
