//! Tests for the modal input interpreter: repeat counts, mode transitions,
//! and the shared text-editing protocol of the prompts.

use magic_school_bus::action::{Action, Key};
use magic_school_bus::input_state::{InputMode, InputState};

fn type_chars(input: &mut InputState, text: &str) -> Vec<Option<Action>> {
    text.chars().map(|c| input.process_input(Key::Char(c))).collect()
}

#[test]
fn default_interpreter_is_fresh() {
    let input = InputState::default();
    assert_eq!(input.get_mode(), InputMode::Normal);
    assert_eq!(input.get_count_progress(), None);
    assert_eq!(input.get_text_buffer(), &[] as &[char]);
    assert_eq!(input.get_cursor_position(), 0);
}

#[test]
fn plain_commands_emit_actions() {
    let mut input = InputState::new();
    assert_eq!(input.process_input(Key::Char('q')), Some(Action::Quit));
    assert_eq!(input.process_input(Key::Char('g')), Some(Action::Top));
    assert_eq!(input.process_input(Key::Char('G')), Some(Action::Bottom));
    assert_eq!(input.process_input(Key::Char('r')), Some(Action::Refresh));
    assert_eq!(input.process_input(Key::Char('\n')), Some(Action::Activate));
    assert_eq!(input.process_input(Key::Char('[')), Some(Action::DebugDumpVisible));
}

#[test]
fn digits_accumulate_into_a_repeat_count() {
    let mut input = InputState::new();
    assert_eq!(input.process_input(Key::Char('1')), None);
    assert_eq!(input.process_input(Key::Char('2')), None);
    assert_eq!(input.get_count_progress(), Some("12".to_string()));
    assert_eq!(input.process_input(Key::Char('j')), Some(Action::Down(12)));
    assert_eq!(input.get_count_progress(), None);
}

#[test]
fn repeat_buffer_is_cleared_by_any_emitted_action() {
    let mut input = InputState::new();
    input.process_input(Key::Char('1'));
    input.process_input(Key::Char('2'));
    // Top does not repeat, but it still consumes the pending count
    assert_eq!(input.process_input(Key::Char('g')), Some(Action::Top));
    assert_eq!(input.get_count_progress(), None);
    assert_eq!(input.process_input(Key::Char('j')), Some(Action::Down(1)));
}

#[test]
fn arrow_keys_repeat_like_their_letters() {
    let mut input = InputState::new();
    input.process_input(Key::Char('3'));
    assert_eq!(input.process_input(Key::Down), Some(Action::Down(3)));
    input.process_input(Key::Char('4'));
    assert_eq!(input.process_input(Key::Up), Some(Action::Up(4)));
}

#[test]
fn overlong_repeat_count_falls_back_to_one() {
    let mut input = InputState::new();
    for _ in 0..21 {
        input.process_input(Key::Char('9'));
    }
    assert_eq!(input.process_input(Key::Char('j')), Some(Action::Down(1)));
}

#[test]
fn unknown_keys_are_reported() {
    let mut input = InputState::new();
    assert_eq!(input.process_input(Key::Home), Some(Action::Unknown(Key::Home)));
    assert_eq!(input.process_input(Key::Char('?')), Some(Action::Unknown(Key::Char('?'))));
}

#[test]
fn delete_prompt_swallows_everything_but_confirmation() {
    let mut input = InputState::new();
    assert_eq!(input.process_input(Key::Char('x')), None);
    assert_eq!(input.get_mode(), InputMode::DeletePrompt);
    assert_eq!(input.process_input(Key::Char('z')), None);
    assert_eq!(input.get_mode(), InputMode::DeletePrompt);
    assert_eq!(input.process_input(Key::Char('y')), Some(Action::Delete));
    assert_eq!(input.get_mode(), InputMode::Normal);
}

#[test]
fn escape_cancels_from_any_mode() {
    let mut input = InputState::new();
    input.process_input(Key::Char('x'));
    assert_eq!(input.process_input(Key::Escape), Some(Action::Cancel));
    assert_eq!(input.get_mode(), InputMode::Normal);

    input.process_input(Key::Char('f'));
    assert_eq!(input.process_input(Key::Escape), Some(Action::Cancel));
    assert_eq!(input.get_mode(), InputMode::Normal);
}

#[test]
fn find_prompt_reemits_the_search_on_every_edit() {
    let mut input = InputState::new();
    assert_eq!(input.process_input(Key::Char('f')), Some(Action::Find(String::new())));
    assert_eq!(input.get_mode(), InputMode::FindPrompt);
    assert_eq!(
        input.process_input(Key::Char('a')),
        Some(Action::Find("a".to_string()))
    );
    assert_eq!(
        input.process_input(Key::Char('b')),
        Some(Action::Find("ab".to_string()))
    );
    assert_eq!(
        input.process_input(Key::Backspace),
        Some(Action::Find("a".to_string()))
    );
    assert_eq!(input.process_input(Key::Char('\t')), Some(Action::FindNext));
    assert_eq!(input.process_input(Key::Char('\n')), None);
    assert_eq!(input.get_mode(), InputMode::Normal);
}

#[test]
fn text_cursor_moves_within_the_prompt() {
    let mut input = InputState::new();
    input.process_input(Key::Char(':'));
    type_chars(&mut input, "ls");
    assert_eq!(input.get_cursor_position(), 2);
    assert_eq!(input.process_input(Key::Left), None);
    assert_eq!(input.get_cursor_position(), 1);
    input.process_input(Key::Char('x'));
    assert_eq!(input.get_text_buffer(), &['l', 'x', 's']);
    assert_eq!(input.process_input(Key::Right), None);
    assert_eq!(input.get_cursor_position(), 3);
    assert_eq!(
        input.process_input(Key::Char('\n')),
        Some(Action::RunCommand("lxs".to_string()))
    );
    assert_eq!(input.get_mode(), InputMode::Normal);
}

#[test]
fn new_file_prompt_builds_the_name() {
    let mut input = InputState::new();
    assert_eq!(input.process_input(Key::Char('n')), None);
    assert_eq!(input.get_mode(), InputMode::NewFilePrompt);
    type_chars(&mut input, "a.txt");
    assert_eq!(
        input.process_input(Key::Char('\n')),
        Some(Action::CreateFile("a.txt".to_string()))
    );
    assert_eq!(input.get_mode(), InputMode::Normal);
}

#[test]
fn new_directory_prompt_builds_the_name() {
    let mut input = InputState::new();
    assert_eq!(input.process_input(Key::Char('N')), None);
    assert_eq!(input.get_mode(), InputMode::NewDirectoryPrompt);
    type_chars(&mut input, "sub");
    assert_eq!(
        input.process_input(Key::Char('\n')),
        Some(Action::CreateDirectory("sub".to_string()))
    );
}

#[test]
fn opening_a_prompt_resets_its_text() {
    let mut input = InputState::new();
    input.process_input(Key::Char('n'));
    type_chars(&mut input, "abc");
    input.process_input(Key::Escape);
    input.process_input(Key::Char('n'));
    assert_eq!(input.get_text_buffer(), &[] as &[char]);
    assert_eq!(input.get_cursor_position(), 0);
}
