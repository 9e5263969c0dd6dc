//! Tests for the double-buffered screen: cell storage, bounded writes, the
//! diff pass, and the full-repaint path.

use magic_school_bus::virtual_screen::{Color, ScreenCell, VirtualScreen};
use magic_school_bus::ui::{pad_right_with_spaces, repeat_str};
use magic_school_bus::virtual_screen_buffer::VirtualScreenBuffer;

#[test]
fn get_and_set() {
    let (width, height) = (18, 18);
    let screen = VirtualScreenBuffer::new(width, height);
    let default_block = ScreenCell::default();

    assert_eq!(screen.get_block(0, 0), default_block);
    assert_eq!(screen.get_block(width - 1, 0), default_block);
    assert_eq!(screen.get_block(0, height - 1), default_block);
    assert_eq!(screen.get_block(width - 1, height - 1), default_block);
}

#[test]
fn write_str_places_cells() {
    let mut buffer = VirtualScreenBuffer::new(10, 4);
    buffer.write_str_color(5, 0, "ab\ncd", Color::Green, Color::Blue);

    assert_eq!(buffer.get_block(5, 0).char, 'a');
    assert_eq!(buffer.get_block(6, 0).char, 'b');
    assert_eq!(buffer.get_block(5, 1).char, 'c');
    assert_eq!(buffer.get_block(6, 1).char, 'd');
    assert_eq!(buffer.get_block(5, 0).fg, Color::Green);
    assert_eq!(buffer.get_block(5, 0).bg, Color::Blue);
    assert_eq!(buffer.get_block(7, 0), ScreenCell::default());
}

#[test]
fn write_str_truncates_at_edge() {
    let mut buffer = VirtualScreenBuffer::new(8, 3);
    buffer.write_str(6, 0, "abcdef");

    assert_eq!(buffer.get_block(6, 0).char, 'a');
    assert_eq!(buffer.get_block(7, 0).char, 'b');
    // the write stops at the edge: nothing wraps to the next row
    for x in 0..8 {
        assert_eq!(buffer.get_block(x, 1), ScreenCell::default());
    }
}

#[test]
fn show_lists_rows() {
    let mut buffer = VirtualScreenBuffer::new(3, 2);
    buffer.write_str(0, 0, "hi");
    assert_eq!(buffer.show(), "hi \n   \n");
}

#[test]
fn clean_screen_needs_no_writes() {
    let mut screen = VirtualScreen::new(20, 10);
    let output = screen.commit();
    assert!(!output.clear_screen);
    assert_eq!(output.changes.len(), 0);
}

#[test]
fn renderer_emits_one_write_per_colored_run() {
    let mut screen = VirtualScreen::new(80, 24);
    screen.write_str_color(3, 2, "abcde", Color::Black, Color::White);
    let output = screen.commit();

    assert!(!output.clear_screen);
    assert_eq!(output.changes.len(), 1);
    let change = &output.changes[0];
    assert_eq!(change.x, 3);
    assert_eq!(change.y, 2);
    assert_eq!(change.text, "abcde");
    assert_eq!(change.fg, Color::Black);
    assert_eq!(change.bg, Color::White);
}

#[test]
fn committed_cells_are_not_rewritten() {
    let mut screen = VirtualScreen::new(80, 24);
    screen.write_str_color(3, 2, "abcde", Color::Black, Color::White);
    screen.commit();
    // the same frame again: nothing changed, nothing to write
    screen.write_str_color(3, 2, "abcde", Color::Black, Color::White);
    let output = screen.commit();
    assert_eq!(output.changes.len(), 0);
}

#[test]
fn resize_forces_full_repaint() {
    let mut screen = VirtualScreen::new(80, 24);
    screen.commit();

    screen.render_prepare(100, 30);
    let output = screen.commit();

    assert!(output.clear_screen);
    let covered: usize = output.changes.iter().map(|c| c.text.chars().count()).sum();
    assert_eq!(covered, 100 * 30);
}

#[test]
fn unchanged_size_keeps_partial_repaint() {
    let mut screen = VirtualScreen::new(80, 24);
    screen.commit();
    screen.render_prepare(80, 24);
    let output = screen.commit();
    assert!(!output.clear_screen);
}

#[test]
fn text_helpers_build_exact_strings() {
    assert_eq!(repeat_str("-", 4), "----");
    assert_eq!(repeat_str("|\n", 2), "|\n|\n");
    assert_eq!(repeat_str("ab", 0), "");

    let mut text = "hi".to_string();
    pad_right_with_spaces(&mut text, 5);
    assert_eq!(text, "hi   ");
    let mut long = "hello".to_string();
    pad_right_with_spaces(&mut long, 3);
    assert_eq!(long, "hello");
}

#[test]
fn resize_discards_cursor_and_contents() {
    let mut screen = VirtualScreen::new(20, 10);
    screen.write_str(0, 0, "stale");
    screen.set_cursor_position(3, 3);
    screen.resize(25, 12);
    assert_eq!(screen.current_buffer.cursor_position, None);
    assert_eq!(screen.previous_buffer.cursor_position, None);
    assert!(screen.should_redraw_everything);
    assert_eq!(screen.current_buffer.get_block(0, 0), ScreenCell::default());
}

#[test]
fn cursor_position_travels_through_commit() {
    let mut screen = VirtualScreen::new(40, 12);
    let output = screen.commit();
    assert_eq!(output.cursor_position, None);

    screen.render_prepare(40, 12);
    screen.set_cursor_position(7, 11);
    let output = screen.commit();
    assert_eq!(output.cursor_position, Some((7, 11)));
}
