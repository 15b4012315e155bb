use stmux::bookmarks::BookmarksImpl;
use stmux::config::ConfigImpl;
use stmux::numtext::{parse_usize, parse_usize_or_zero, usize_to_string};
use stmux::utils::{is_numeric, non_blank_lines, random_window_name, str_eq};

fn strings(list: &[&str]) -> Vec<String> {
    list.iter().map(|s| s.to_string()).collect()
}

#[test]
fn numbers_render_and_parse_back() {
    assert_eq!(usize_to_string(0), "0");
    assert_eq!(usize_to_string(42), "42");
    assert_eq!(usize_to_string(usize::MAX), usize::MAX.to_string());
    assert_eq!(parse_usize("0"), Some(0));
    assert_eq!(parse_usize("00742"), Some(742));
    assert_eq!(parse_usize(&usize_to_string(usize::MAX)), Some(usize::MAX));
    assert_eq!(parse_usize(""), None);
    assert_eq!(parse_usize("12x"), None);
    assert_eq!(parse_usize("999999999999999999999999999999"), None);
    assert_eq!(parse_usize_or_zero("bad"), 0);
    assert_eq!(parse_usize_or_zero("17"), 17);
}

#[test]
fn numeric_names_are_recognized() {
    assert!(is_numeric("123"));
    assert!(is_numeric(""));
    assert!(!is_numeric("12a"));
    assert!(!is_numeric("work"));
}

#[test]
fn string_equality_goes_by_characters() {
    assert!(str_eq("abc", "abc"));
    assert!(!str_eq("abc", "abd"));
    assert!(!str_eq("abc", "ab"));
}

#[test]
fn fallback_window_names_stay_in_range() {
    assert_eq!(random_window_name(0), "win_1");
    assert_eq!(random_window_name(97), "win_98");
    assert_eq!(random_window_name(98), "win_1");
    assert_eq!(random_window_name(1_000_000_007), "win_70");
}

#[test]
fn blank_lines_are_dropped_from_name_lists() {
    let lines = strings(&["work", "", "  ", "\t", "mail ", "notes"]);
    assert_eq!(non_blank_lines(lines), strings(&["work", "mail ", "notes"]));
}

#[test]
fn bookmarks_select_by_one_based_position() {
    let bookmarks = BookmarksImpl::new(strings(&["work", "mail"]));
    assert_eq!(bookmarks.select(1).as_deref(), Some("work"));
    assert_eq!(bookmarks.select(2).as_deref(), Some("mail"));
    assert_eq!(bookmarks.select(3), None);
}

#[test]
fn bookmarks_set_appends_only_new_names() {
    let bookmarks = BookmarksImpl::new(strings(&["work"]));
    assert!(!bookmarks.set("work"));
    assert!(bookmarks.set("mail"));
}

#[test]
fn configuration_paths_sit_under_the_home_directory() {
    let config = ConfigImpl::new("/home/u");
    assert_eq!(config.config_location(), "/home/u/.config/stmux");
    assert_eq!(config.sessions_filename(), "/home/u/.config/stmux/sessions.stmux");
    assert_eq!(config.recent_sessions_filename(), "/home/u/.config/stmux/recent_sessions");
    assert_eq!(config.bookmarks_filename(), "/home/u/.config/stmux/bookmarks");
}
