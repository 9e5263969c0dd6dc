//! The modal input interpreter: consumes one key at a time and emits at most
//! one [`Action`] per key, buffering repeat counts and prompt text between
//! keys.

use vstd::prelude::*;

use crate::action::{Action, Key};
use crate::text::{all_digits, chars_to_string, is_digit, parse_repeat_count, spec_repeat_count};

verus! {

/// The browser is loosely modal. The mode determines what keys map to what
/// actions.
#[derive(Debug, Clone, Copy, PartialEq, Eq, Structural)]
pub enum InputMode {
    /// The mode from which most commands are started.
    Normal,
    /// The user is entering a search string to find files.
    FindPrompt,
    /// The user is being prompted to delete the selected entry.
    DeletePrompt,
    /// The user is entering a name for a new file.
    NewFilePrompt,
    /// The user is entering a name for a new directory.
    NewDirectoryPrompt,
    /// The user is entering a command to run.
    CommandPrompt,
}

/// The interpreter's whole state: the mode, the digits accumulated before a
/// repeatable command, and the text buffer with its cursor shared by all
/// free-text prompts.
#[derive(Debug)]
pub struct InputState {
    pub mode: InputMode,
    pub repeat_count_buffer: Vec<char>,
    pub text_buffer: Vec<char>,
    pub text_cursor: usize,
}

/// The text buffer after one key of the shared text-editing protocol.
pub open spec fn text_buffer_after(buf: Seq<char>, cursor: int, key: Key) -> Seq<char> {
    match key {
        Key::Backspace => if cursor > 0 {
            buf.remove(cursor - 1)
        } else {
            buf
        },
        Key::Char(c) => buf.insert(cursor, c),
        _ => buf,
    }
}

/// The text cursor after one key of the shared text-editing protocol.
pub open spec fn text_cursor_after(buf: Seq<char>, cursor: int, key: Key) -> int {
    match key {
        Key::Backspace => if cursor > 0 {
            cursor - 1
        } else {
            0
        },
        Key::Char(_) => cursor + 1,
        Key::Left => if cursor > 0 {
            cursor - 1
        } else {
            0
        },
        Key::Right => if cursor < buf.len() {
            cursor + 1
        } else {
            cursor
        },
        _ => cursor,
    }
}

/// The prompt text is untouched.
pub open spec fn same_text(pre: InputState, post: InputState) -> bool {
    &&& post.text_buffer == pre.text_buffer
    &&& post.text_cursor == pre.text_cursor
}

/// The prompt text was reset for a fresh prompt.
pub open spec fn cleared_text(post: InputState) -> bool {
    &&& post.text_buffer@ == Seq::<char>::empty()
    &&& post.text_cursor == 0
}

/// The repeat buffer is empty, as it must be after any emitted action.
pub open spec fn repeat_cleared(post: InputState) -> bool {
    post.repeat_count_buffer@ == Seq::<char>::empty()
}

/// The prompt text moved one text-editing step for `key`.
pub open spec fn text_edited(pre: InputState, post: InputState, key: Key) -> bool {
    &&& post.text_buffer@ == text_buffer_after(pre.text_buffer@, pre.text_cursor as int, key)
    &&& post.text_cursor as int == text_cursor_after(pre.text_buffer@, pre.text_cursor as int, key)
}

/// What one key does in Normal mode. Digits accumulate silently; letters
/// bound to commands emit them, consuming the pending repeat count where the
/// command repeats; prompt keys switch the mode and reset the prompt text;
/// anything else is reported as unknown.
pub open spec fn normal_transition(
    pre: InputState,
    post: InputState,
    key: Key,
    action: Option<Action>,
) -> bool {
    let count = spec_repeat_count(pre.repeat_count_buffer@);
    match key {
        Key::Char(c) => if c == 'q' {
            &&& post.mode == InputMode::Normal
            &&& same_text(pre, post)
            &&& repeat_cleared(post)
            &&& action == Some(Action::Quit)
        } else if is_digit(c) {
            &&& post.mode == InputMode::Normal
            &&& same_text(pre, post)
            &&& post.repeat_count_buffer@ == pre.repeat_count_buffer@.push(c)
            &&& action is None
        } else if c == 'f' {
            &&& post.mode == InputMode::FindPrompt
            &&& cleared_text(post)
            &&& repeat_cleared(post)
            &&& action matches Some(Action::Find(s)) && s@ == Seq::<char>::empty()
        } else if c == 'n' {
            &&& post.mode == InputMode::NewFilePrompt
            &&& cleared_text(post)
            &&& post.repeat_count_buffer == pre.repeat_count_buffer
            &&& action is None
        } else if c == 'N' {
            &&& post.mode == InputMode::NewDirectoryPrompt
            &&& cleared_text(post)
            &&& post.repeat_count_buffer == pre.repeat_count_buffer
            &&& action is None
        } else if c == ':' {
            &&& post.mode == InputMode::CommandPrompt
            &&& cleared_text(post)
            &&& post.repeat_count_buffer == pre.repeat_count_buffer
            &&& action is None
        } else if c == 'j' {
            &&& post.mode == InputMode::Normal
            &&& same_text(pre, post)
            &&& repeat_cleared(post)
            &&& action == Some(Action::Down(count))
        } else if c == 'k' {
            &&& post.mode == InputMode::Normal
            &&& same_text(pre, post)
            &&& repeat_cleared(post)
            &&& action == Some(Action::Up(count))
        } else if c == 'g' {
            &&& post.mode == InputMode::Normal
            &&& same_text(pre, post)
            &&& repeat_cleared(post)
            &&& action == Some(Action::Top)
        } else if c == 'G' {
            &&& post.mode == InputMode::Normal
            &&& same_text(pre, post)
            &&& repeat_cleared(post)
            &&& action == Some(Action::Bottom)
        } else if c == 'r' {
            &&& post.mode == InputMode::Normal
            &&& same_text(pre, post)
            &&& repeat_cleared(post)
            &&& action == Some(Action::Refresh)
        } else if c == 'x' {
            &&& post.mode == InputMode::DeletePrompt
            &&& same_text(pre, post)
            &&& repeat_cleared(post)
            &&& action is None
        } else if c == '\n' {
            &&& post.mode == InputMode::Normal
            &&& same_text(pre, post)
            &&& repeat_cleared(post)
            &&& action == Some(Action::Activate)
        } else if c == '[' {
            &&& post.mode == InputMode::Normal
            &&& same_text(pre, post)
            &&& repeat_cleared(post)
            &&& action == Some(Action::DebugDumpVisible)
        } else {
            &&& post.mode == InputMode::Normal
            &&& same_text(pre, post)
            &&& repeat_cleared(post)
            &&& action == Some(Action::Unknown(key))
        },
        Key::Down => {
            &&& post.mode == InputMode::Normal
            &&& same_text(pre, post)
            &&& repeat_cleared(post)
            &&& action == Some(Action::Down(count))
        },
        Key::Up => {
            &&& post.mode == InputMode::Normal
            &&& same_text(pre, post)
            &&& repeat_cleared(post)
            &&& action == Some(Action::Up(count))
        },
        _ => {
            &&& post.mode == InputMode::Normal
            &&& same_text(pre, post)
            &&& repeat_cleared(post)
            &&& action == Some(Action::Unknown(key))
        },
    }
}

/// What one free-text prompt key does: confirm emits the mode's command
/// built from the buffered text and returns to Normal; anything else is one
/// text-editing step. In the find prompt each edit re-emits the updated
/// search immediately, and tab asks for the next match.
pub open spec fn prompt_transition(
    pre: InputState,
    post: InputState,
    key: Key,
    action: Option<Action>,
) -> bool {
    match pre.mode {
        InputMode::FindPrompt => match key {
            Key::Char(c) if c == '\n' => {
                &&& post.mode == InputMode::Normal
                &&& same_text(pre, post)
                &&& post.repeat_count_buffer == pre.repeat_count_buffer
                &&& action is None
            },
            Key::Char(c) if c == '\t' => {
                &&& post.mode == InputMode::FindPrompt
                &&& same_text(pre, post)
                &&& repeat_cleared(post)
                &&& action == Some(Action::FindNext)
            },
            _ => {
                &&& post.mode == InputMode::FindPrompt
                &&& text_edited(pre, post, key)
                &&& repeat_cleared(post)
                &&& action matches Some(Action::Find(s)) && s@ == post.text_buffer@
            },
        },
        InputMode::CommandPrompt => match key {
            Key::Char(c) if c == '\n' => {
                &&& post.mode == InputMode::Normal
                &&& same_text(pre, post)
                &&& repeat_cleared(post)
                &&& action matches Some(Action::RunCommand(s)) && s@ == pre.text_buffer@
            },
            _ => {
                &&& post.mode == InputMode::CommandPrompt
                &&& text_edited(pre, post, key)
                &&& post.repeat_count_buffer == pre.repeat_count_buffer
                &&& action is None
            },
        },
        InputMode::NewFilePrompt => match key {
            Key::Char(c) if c == '\n' => {
                &&& post.mode == InputMode::Normal
                &&& same_text(pre, post)
                &&& repeat_cleared(post)
                &&& action matches Some(Action::CreateFile(s)) && s@ == pre.text_buffer@
            },
            _ => {
                &&& post.mode == InputMode::NewFilePrompt
                &&& text_edited(pre, post, key)
                &&& post.repeat_count_buffer == pre.repeat_count_buffer
                &&& action is None
            },
        },
        InputMode::NewDirectoryPrompt => match key {
            Key::Char(c) if c == '\n' => {
                &&& post.mode == InputMode::Normal
                &&& same_text(pre, post)
                &&& repeat_cleared(post)
                &&& action matches Some(Action::CreateDirectory(s)) && s@ == pre.text_buffer@
            },
            _ => {
                &&& post.mode == InputMode::NewDirectoryPrompt
                &&& text_edited(pre, post, key)
                &&& post.repeat_count_buffer == pre.repeat_count_buffer
                &&& action is None
            },
        },
        _ => false,
    }
}

/// The whole interpreter, one key at a time. Escape always cancels back to
/// Normal mode from any state; the delete prompt swallows everything but its
/// confirming key; and the repeat buffer is empty after any emitted action,
/// whether or not the action consumed it.
pub open spec fn input_transition(
    pre: InputState,
    post: InputState,
    key: Key,
    action: Option<Action>,
) -> bool {
    if key is Escape {
        &&& post.mode == InputMode::Normal
        &&& same_text(pre, post)
        &&& repeat_cleared(post)
        &&& action == Some(Action::Cancel)
    } else {
        match pre.mode {
            InputMode::Normal => normal_transition(pre, post, key, action),
            InputMode::DeletePrompt => match key {
                Key::Char(c) if c == 'y' => {
                    &&& post.mode == InputMode::Normal
                    &&& same_text(pre, post)
                    &&& repeat_cleared(post)
                    &&& action == Some(Action::Delete)
                },
                _ => {
                    &&& post.mode == InputMode::DeletePrompt
                    &&& same_text(pre, post)
                    &&& post.repeat_count_buffer == pre.repeat_count_buffer
                    &&& action is None
                },
            },
            _ => prompt_transition(pre, post, key, action),
        }
    }
}

impl InputState {
    /// The text cursor stays inside the buffer and the repeat buffer holds
    /// digits alone.
    pub open spec fn wf(&self) -> bool {
        &&& self.text_cursor <= self.text_buffer@.len()
        &&& all_digits(self.repeat_count_buffer@)
    }

    /// A fresh interpreter: Normal mode, nothing buffered.
    pub fn new() -> (r: InputState)
        ensures
            r.mode == InputMode::Normal,
            r.repeat_count_buffer@ == Seq::<char>::empty(),
            r.text_buffer@ == Seq::<char>::empty(),
            r.text_cursor == 0,
            r.wf(),
    {
        InputState {
            mode: InputMode::Normal,
            repeat_count_buffer: Vec::new(),
            text_buffer: Vec::new(),
            text_cursor: 0,
        }
    }

    /// The current mode.
    pub fn get_mode(&self) -> (r: InputMode)
        ensures
            r == self.mode,
    {
        self.mode
    }

    /// The digits accumulated so far, or nothing when none are pending.
    pub fn get_count_progress(&self) -> (r: Option<String>)
        ensures
            match r {
                Some(s) => s@ == self.repeat_count_buffer@ && self.repeat_count_buffer@.len() > 0,
                None => self.repeat_count_buffer@.len() == 0,
            },
    {
        if self.repeat_count_buffer.len() == 0 {
            None
        } else {
            Some(chars_to_string(&self.repeat_count_buffer))
        }
    }

    /// The position of the text cursor within the prompt text.
    pub fn get_cursor_position(&self) -> (r: usize)
        ensures
            r == self.text_cursor,
    {
        self.text_cursor
    }

    /// The prompt text as entered so far.
    pub fn get_text_buffer(&self) -> (r: &[char])
        ensures
            r@ == self.text_buffer@,
    {
        self.text_buffer.as_slice()
    }

    /// Parses and empties the repeat buffer; an empty or overlong buffer
    /// counts as 1.
    fn consume_repeat_count(&mut self) -> (r: u64)
        requires
            old(self).wf(),
        ensures
            r == spec_repeat_count(old(self).repeat_count_buffer@),
            repeat_cleared(*final(self)),
            final(self).mode == old(self).mode,
            same_text(*old(self), *final(self)),
            final(self).wf(),
    {
        let count = parse_repeat_count(&self.repeat_count_buffer);
        self.repeat_count_buffer.clear();
        count
    }

    /// One step of the text-editing protocol every free-text prompt shares.
    fn handle_text_key(&mut self, key: Key)
        requires
            old(self).wf(),
        ensures
            text_edited(*old(self), *final(self), key),
            final(self).mode == old(self).mode,
            final(self).repeat_count_buffer == old(self).repeat_count_buffer,
            final(self).wf(),
    {
        match key {
            Key::Backspace => {
                if self.text_cursor > 0 {
                    self.text_buffer.remove(self.text_cursor - 1);
                    self.text_cursor = self.text_cursor - 1;
                }
            },
            Key::Char(c) => {
                self.text_buffer.insert(self.text_cursor, c);
                let len = self.text_buffer.len();
                assert(self.text_cursor < len);
                self.text_cursor = self.text_cursor + 1;
            },
            Key::Left => {
                if self.text_cursor > 0 {
                    self.text_cursor = self.text_cursor - 1;
                }
            },
            Key::Right => {
                if self.text_cursor < self.text_buffer.len() {
                    self.text_cursor = self.text_cursor + 1;
                }
            },
            _ => {},
        }
    }

    /// Advances the interpreter by one key and returns the action it emits,
    /// if any. The repeat buffer is cleared whenever an action comes out,
    /// whether or not the action used it.
    pub fn process_input(&mut self, key: Key) -> (action: Option<Action>)
        requires
            old(self).wf(),
        ensures
            final(self).wf(),
            input_transition(*old(self), *final(self), key, action),
            action is Some ==> repeat_cleared(*final(self)),
    {
        let action: Option<Action> = match key {
            Key::Escape => {
                self.mode = InputMode::Normal;
                Some(Action::Cancel)
            },
            _ => {
                match self.mode {
                    InputMode::Normal => {
                        match key {
                            Key::Char(c) => {
                                if c == 'q' {
                                    Some(Action::Quit)
                                } else if c as u32 >= '0' as u32 && c as u32 <= '9' as u32 {
                                    self.repeat_count_buffer.push(c);
                                    None
                                } else if c == 'f' {
                                    self.text_cursor = 0;
                                    self.text_buffer.clear();
                                    self.mode = InputMode::FindPrompt;
                                    Some(Action::Find(String::new()))
                                } else if c == 'n' {
                                    self.text_cursor = 0;
                                    self.text_buffer.clear();
                                    self.mode = InputMode::NewFilePrompt;
                                    None
                                } else if c == 'N' {
                                    self.text_cursor = 0;
                                    self.text_buffer.clear();
                                    self.mode = InputMode::NewDirectoryPrompt;
                                    None
                                } else if c == ':' {
                                    self.text_cursor = 0;
                                    self.text_buffer.clear();
                                    self.mode = InputMode::CommandPrompt;
                                    None
                                } else if c == 'j' {
                                    Some(Action::Down(self.consume_repeat_count()))
                                } else if c == 'k' {
                                    Some(Action::Up(self.consume_repeat_count()))
                                } else if c == 'g' {
                                    Some(Action::Top)
                                } else if c == 'G' {
                                    Some(Action::Bottom)
                                } else if c == 'r' {
                                    Some(Action::Refresh)
                                } else if c == 'x' {
                                    self.repeat_count_buffer.clear();
                                    self.mode = InputMode::DeletePrompt;
                                    None
                                } else if c == '\n' {
                                    Some(Action::Activate)
                                } else if c == '[' {
                                    Some(Action::DebugDumpVisible)
                                } else {
                                    Some(Action::Unknown(key))
                                }
                            },
                            Key::Down => Some(Action::Down(self.consume_repeat_count())),
                            Key::Up => Some(Action::Up(self.consume_repeat_count())),
                            _ => Some(Action::Unknown(key)),
                        }
                    },
                    InputMode::DeletePrompt => {
                        match key {
                            Key::Char(c) => {
                                if c == 'y' {
                                    self.mode = InputMode::Normal;
                                    Some(Action::Delete)
                                } else {
                                    None
                                }
                            },
                            _ => None,
                        }
                    },
                    InputMode::FindPrompt => {
                        match key {
                            Key::Char(c) => {
                                if c == '\n' {
                                    self.mode = InputMode::Normal;
                                    None
                                } else if c == '\t' {
                                    Some(Action::FindNext)
                                } else {
                                    self.handle_text_key(key);
                                    Some(Action::Find(chars_to_string(&self.text_buffer)))
                                }
                            },
                            _ => {
                                self.handle_text_key(key);
                                Some(Action::Find(chars_to_string(&self.text_buffer)))
                            },
                        }
                    },
                    InputMode::CommandPrompt => {
                        match key {
                            Key::Char(c) => {
                                if c == '\n' {
                                    let text = chars_to_string(&self.text_buffer);
                                    self.mode = InputMode::Normal;
                                    Some(Action::RunCommand(text))
                                } else {
                                    self.handle_text_key(key);
                                    None
                                }
                            },
                            _ => {
                                self.handle_text_key(key);
                                None
                            },
                        }
                    },
                    InputMode::NewFilePrompt => {
                        match key {
                            Key::Char(c) => {
                                if c == '\n' {
                                    let text = chars_to_string(&self.text_buffer);
                                    self.mode = InputMode::Normal;
                                    Some(Action::CreateFile(text))
                                } else {
                                    self.handle_text_key(key);
                                    None
                                }
                            },
                            _ => {
                                self.handle_text_key(key);
                                None
                            },
                        }
                    },
                    InputMode::NewDirectoryPrompt => {
                        match key {
                            Key::Char(c) => {
                                if c == '\n' {
                                    let text = chars_to_string(&self.text_buffer);
                                    self.mode = InputMode::Normal;
                                    Some(Action::CreateDirectory(text))
                                } else {
                                    self.handle_text_key(key);
                                    None
                                }
                            },
                            _ => {
                                self.handle_text_key(key);
                                None
                            },
                        }
                    },
                }
            },
        };
        if action.is_some() {
            self.repeat_count_buffer.clear();
        }
        action
    }
}

impl Default for InputState {
    /// The same fresh interpreter that [`InputState::new`] builds.
    fn default() -> (r: InputState)
        ensures
            r.mode == InputMode::Normal,
            r.repeat_count_buffer@ == Seq::<char>::empty(),
            r.text_buffer@ == Seq::<char>::empty(),
            r.text_cursor == 0,
            r.wf(),
    {
        InputState::new()
    }
}

} // verus!
