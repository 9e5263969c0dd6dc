//! Tests for the directory model: sorting, cursor bounds, window
//! adjustment, searching, and the effects actions ask for.

use magic_school_bus::action::{Action, Key};
use magic_school_bus::app_state::{
    AppState, DirectoryListState, Effect, FileEntry, FileEntryKind, RawEntry,
};
use magic_school_bus::app_state::find_should_match;
use magic_school_bus::input_state::InputState;
use magic_school_bus::ui::{adjust_entry_window, render};
use magic_school_bus::virtual_screen::{Color, VirtualScreen};

fn raw(name: &str, is_dir: bool, dir: &str) -> RawEntry {
    RawEntry {
        name: name.to_string(),
        is_dir,
        path: format!("{}/{}", dir, name),
    }
}

fn listing(dir: &str, parent: Option<&str>, children: &[(&str, bool)]) -> DirectoryListState {
    let raws: Vec<RawEntry> = children.iter().map(|(n, d)| raw(n, *d, dir)).collect();
    DirectoryListState::read(dir.to_string(), parent.map(|p| p.to_string()), raws)
}

fn displays(state: &AppState) -> Vec<String> {
    state.entry_list.entries.iter().map(|e| e.display.clone()).collect()
}

#[test]
fn read_sorts_parent_directories_files() {
    let l = listing(
        "/root",
        Some("/"),
        &[("Zz", false), ("a.txt", false), ("sub", true), ("Bob", false)],
    );
    let names: Vec<&str> = l.entries.iter().map(|e| e.display.as_str()).collect();
    assert_eq!(names, vec!["..", "sub/", "a.txt", "Bob", "Zz"]);
    assert_eq!(l.entries[0].kind, FileEntryKind::Parent);
    assert_eq!(l.entries[1].kind, FileEntryKind::Directory);
    assert_eq!(l.cursor, 0);
    assert_eq!(l.window_start, 0);
}

#[test]
fn sort_is_idempotent() {
    let entry = |kind, display: &str| FileEntry {
        kind,
        display: display.to_string(),
        path: format!("/x/{}", display),
    };
    let mut v = vec![
        entry(FileEntryKind::File, "beta"),
        entry(FileEntryKind::Directory, "gamma/"),
        entry(FileEntryKind::File, "Alpha"),
    ];
    magic_school_bus::app_state::sort_entries(&mut v);
    let once: Vec<String> = v.iter().map(|e| e.display.clone()).collect();
    assert_eq!(once, vec!["gamma/", "Alpha", "beta"]);
    magic_school_bus::app_state::sort_entries(&mut v);
    let twice: Vec<String> = v.iter().map(|e| e.display.clone()).collect();
    assert_eq!(once, twice);
}

#[test]
fn cursor_steps_clamp_at_both_ends() {
    let mut l = listing("/d", None, &[("a", false), ("b", false)]);
    l.cursor_down();
    assert_eq!(l.cursor, 1);
    l.cursor_down();
    assert_eq!(l.cursor, 1);
    l.cursor_up();
    assert_eq!(l.cursor, 0);
    l.cursor_up();
    assert_eq!(l.cursor, 0);

    let mut empty = listing("/", None, &[]);
    empty.cursor_down();
    assert_eq!(empty.cursor, 0);
}

#[test]
fn cursor_stays_in_bounds_under_movement() {
    let mut state = AppState::new(listing(
        "/root",
        Some("/"),
        &[("a.txt", false), ("sub", true)],
    ));
    // three entries: "..", "sub/", "a.txt"
    assert_eq!(state.process_action(Action::Down(5)), Effect::Nothing);
    assert_eq!(state.entry_list.cursor, 2);
    assert_eq!(state.process_action(Action::Down(1)), Effect::Nothing);
    assert_eq!(state.entry_list.cursor, 2);
    assert_eq!(state.process_action(Action::Up(10)), Effect::Nothing);
    assert_eq!(state.entry_list.cursor, 0);
    assert_eq!(state.process_action(Action::Bottom), Effect::Nothing);
    assert_eq!(state.entry_list.cursor, 2);
    assert_eq!(state.process_action(Action::Top), Effect::Nothing);
    assert_eq!(state.entry_list.cursor, 0);
}

#[test]
fn empty_listing_keeps_cursor_at_zero() {
    let mut state = AppState::new(listing("/", None, &[]));
    state.process_action(Action::Down(3));
    assert_eq!(state.entry_list.cursor, 0);
    state.process_action(Action::Bottom);
    assert_eq!(state.entry_list.cursor, 0);
    assert_eq!(state.process_action(Action::Activate), Effect::Nothing);
    assert_eq!(state.process_action(Action::Delete), Effect::Nothing);
}

#[test]
fn find_scans_from_the_top_case_insensitively() {
    let mut state = AppState::new(listing(
        "/d",
        None,
        &[("A", false), ("Bob", false), ("bob2", false), ("Zz", false)],
    ));
    assert_eq!(displays(&state), vec!["A", "Bob", "bob2", "Zz"]);
    state.process_action(Action::Find("b".to_string()));
    assert_eq!(state.entry_list.cursor, 1);
    assert!(!state.no_find_match);
}

#[test]
fn find_next_wraps_around() {
    let mut state = AppState::new(listing(
        "/d",
        None,
        &[("A", false), ("Bob", false), ("bob2", false), ("Zz", false)],
    ));
    state.process_action(Action::Find("b".to_string()));
    assert_eq!(state.entry_list.cursor, 1);
    state.process_action(Action::FindNext);
    assert_eq!(state.entry_list.cursor, 2);
    // from "bob2" the scan passes "Zz", wraps to the top, and lands on "Bob"
    state.process_action(Action::FindNext);
    assert_eq!(state.entry_list.cursor, 1);
    assert!(!state.no_find_match);
}

#[test]
fn find_without_match_sets_the_flag() {
    let mut state = AppState::new(listing("/d", None, &[("alpha", false), ("beta", false)]));
    state.process_action(Action::Find("zzz".to_string()));
    assert!(state.no_find_match);
    assert_eq!(state.entry_list.cursor, 0);
    state.process_action(Action::Find("al".to_string()));
    assert!(!state.no_find_match);
    assert_eq!(state.entry_list.cursor, 0);
}

#[test]
fn round_trip_into_a_directory() {
    let mut state = AppState::new(listing("/root", Some("/"), &[("a.txt", false), ("sub", true)]));
    assert_eq!(displays(&state), vec!["..", "sub/", "a.txt"]);

    // the spec scenario speaks of the order ["..", "a.txt", "sub/"]; under
    // the listing order directories come before files, so "sub/" is index 1
    state.process_action(Action::Down(1));
    assert_eq!(state.entry_list.cursor, 1);
    let effect = state.process_action(Action::Activate);
    assert_eq!(effect, Effect::EnterDirectory("/root/sub".to_string()));

    state.set_working_directory(listing("/root/sub", Some("/root"), &[("inner.txt", false)]));
    assert_eq!(state.entry_list.cursor, 0);
    assert_eq!(displays(&state), vec!["..", "inner.txt"]);
}

#[test]
fn activate_on_file_asks_to_open_it() {
    let mut state = AppState::new(listing("/root", Some("/"), &[("a.txt", false)]));
    state.process_action(Action::Bottom);
    let effect = state.process_action(Action::Activate);
    assert_eq!(effect, Effect::OpenPath("/root/a.txt".to_string()));
}

#[test]
fn delete_names_the_object_and_refresh_clamps() {
    let mut state = AppState::new(listing(
        "/root",
        None,
        &[("a.txt", false), ("b.txt", false), ("sub", true)],
    ));
    state.process_action(Action::Bottom);
    assert_eq!(state.entry_list.cursor, 2);
    let effect = state.process_action(Action::Delete);
    assert_eq!(effect, Effect::RemoveFile("/root/b.txt".to_string()));

    state.refresh_working_directory(listing("/root", None, &[("a.txt", false), ("sub", true)]));
    assert_eq!(state.entry_list.cursor, 1);

    state.refresh_working_directory(listing("/root", None, &[]));
    assert_eq!(state.entry_list.cursor, 0);
}

#[test]
fn delete_on_parent_only_reloads() {
    let mut state = AppState::new(listing("/root", Some("/"), &[("a.txt", false)]));
    assert_eq!(state.entry_list.cursor, 0);
    let effect = state.process_action(Action::Delete);
    assert_eq!(effect, Effect::Reload);
}

#[test]
fn create_moves_cursor_to_the_new_entry() {
    let mut state = AppState::new(listing("/root", None, &[("a.txt", false), ("z.txt", false)]));
    let effect = state.process_action(Action::CreateFile("m.txt".to_string()));
    assert_eq!(effect, Effect::CreateFile("m.txt".to_string()));

    state.finish_create(
        "m.txt",
        listing("/root", None, &[("a.txt", false), ("m.txt", false), ("z.txt", false)]),
    );
    assert_eq!(state.entry_list.cursor, 1);
    assert_eq!(state.entry_list.entries[1].display, "m.txt");
}

#[test]
fn create_without_a_matching_entry_keeps_the_clamped_cursor() {
    let mut state = AppState::new(listing("/root", None, &[("a.txt", false)]));
    state.process_action(Action::CreateFile("gone.txt".to_string()));
    state.finish_create("gone.txt", listing("/root", None, &[("a.txt", false)]));
    assert_eq!(state.entry_list.cursor, 0);
}

#[test]
fn window_follows_the_cursor_both_ways() {
    // viewport of height 10 shows 6 entries
    let screen = VirtualScreen::new(40, 10);
    let children: Vec<(String, bool)> = (0..20).map(|i| (format!("f{:02}", i), false)).collect();
    let refs: Vec<(&str, bool)> = children.iter().map(|(n, d)| (n.as_str(), *d)).collect();
    let mut state = AppState::new(listing("/d", None, &refs));

    state.process_action(Action::Down(10));
    adjust_entry_window(&mut state, &screen);
    assert_eq!(state.entry_list.window_start, 5);
    let ws = state.entry_list.window_start;
    assert!(ws <= state.entry_list.cursor && state.entry_list.cursor < ws + 6);

    state.process_action(Action::Top);
    adjust_entry_window(&mut state, &screen);
    assert_eq!(state.entry_list.window_start, 0);
}

#[test]
fn file_name_lookup_uses_the_final_segment() {
    let state = AppState::new(listing("/root", None, &[("a.txt", false), ("b.txt", false)]));
    assert_eq!(state.find_entry_with_file_name("b.txt"), Some(1));
    assert_eq!(state.find_entry_with_file_name("txt"), None);
    assert_eq!(state.find_entry_with_file_name("root/a.txt"), None);
}

#[test]
fn find_should_match_ignores_case() {
    assert!(find_should_match("Bob", "b"));
    assert!(find_should_match("bob2", "B"));
    assert!(!find_should_match("Zz", "b"));
    assert!(find_should_match("anything", ""));
}

#[test]
fn render_paints_directory_entries_and_status() {
    let mut state = AppState::new(listing("/root", None, &[("a.txt", false)]));
    let input = InputState::new();
    let mut screen = VirtualScreen::new(30, 8);
    screen.render_prepare(30, 8);
    adjust_entry_window(&mut state, &screen);
    render(&state, &input, &mut screen);

    let shown = screen.show_current_buffer();
    let lines: Vec<&str> = shown.lines().collect();
    assert_eq!(lines[0], format!("{:<30}", "/root"));
    assert!(lines[2].starts_with("| a.txt"));
    assert!(lines[7].starts_with("Last action: None"));
}

#[test]
fn render_highlights_cursor_and_find_matches() {
    let mut state = AppState::new(listing(
        "/d",
        None,
        &[("A", false), ("Bob", false), ("bob2", false)],
    ));
    let mut input = InputState::new();
    for key in [Key::Char('f'), Key::Char('b')] {
        if let Some(action) = input.process_input(key) {
            state.process_action(action);
        }
    }
    assert_eq!(state.entry_list.cursor, 1);
    assert!(!state.no_find_match);

    let mut screen = VirtualScreen::new(30, 8);
    screen.render_prepare(30, 8);
    adjust_entry_window(&mut state, &screen);
    render(&state, &input, &mut screen);

    // row 2 shows "A" (no match), row 3 "Bob" (cursor), row 4 "bob2" (match)
    let plain = screen.current_buffer.get_block(2, 2);
    assert_eq!(plain.char, 'A');
    assert_eq!(plain.bg, Color::Reset);
    let cursor_cell = screen.current_buffer.get_block(2, 3);
    assert_eq!(cursor_cell.char, 'B');
    assert_eq!(cursor_cell.fg, Color::Black);
    assert_eq!(cursor_cell.bg, Color::White);
    let match_cell = screen.current_buffer.get_block(2, 4);
    assert_eq!(match_cell.char, 'b');
    assert_eq!(match_cell.bg, Color::Yellow);

    // the prompt line shows the search and parks the cursor after the text
    let status = screen.current_buffer.get_block(0, 7);
    assert_eq!(status.char, 'F');
    assert_eq!(status.bg, Color::White);
    let output = screen.commit();
    assert_eq!(output.cursor_position, Some((7, 7)));
}

#[test]
fn render_shows_failed_search_in_red() {
    let mut state = AppState::new(listing("/d", None, &[("alpha", false)]));
    let mut input = InputState::new();
    for key in [Key::Char('f'), Key::Char('z'), Key::Char('z')] {
        if let Some(action) = input.process_input(key) {
            state.process_action(action);
        }
    }
    assert!(state.no_find_match);

    let mut screen = VirtualScreen::new(30, 8);
    screen.render_prepare(30, 8);
    adjust_entry_window(&mut state, &screen);
    render(&state, &input, &mut screen);

    let status = screen.current_buffer.get_block(0, 7);
    assert_eq!(status.fg, Color::White);
    assert_eq!(status.bg, Color::Red);
}

#[test]
fn last_action_is_remembered() {
    let mut state = AppState::new(listing("/d", None, &[("a", false)]));
    assert_eq!(state.last_action, None);
    state.process_action(Action::Top);
    assert_eq!(state.last_action, Some(Action::Top));
    state.process_action(Action::RunCommand("ls".to_string()));
    assert_eq!(state.last_action, Some(Action::RunCommand("ls".to_string())));
}
