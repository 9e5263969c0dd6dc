//! The view composer: lays the directory list and the status or prompt line
//! out into the renderer's in-progress buffer once per frame, and keeps the
//! listing's window wrapped around the cursor.

use vstd::prelude::*;

use crate::action::Action;
use crate::app_state::{find_should_match, matches_target, views_of, AppState, EntryView};
use crate::input_state::{InputMode, InputState};
use crate::text::no_newline;
use crate::virtual_screen::{styled_cell, Color, ScreenCell, VirtualScreen};
use crate::virtual_screen_buffer::lemma_write_run_no_newline;

verus! {

/// `s` repeated `n` times.
pub open spec fn repeat_seq(s: Seq<char>, n: nat) -> Seq<char>
    decreases n,
{
    if n == 0 {
        Seq::empty()
    } else {
        repeat_seq(s, (n - 1) as nat) + s
    }
}

/// Builds the string that repeats `s` exactly `n` times.
pub fn repeat_str(s: &str, n: usize) -> (r: String)
    ensures
        r@ == repeat_seq(s@, n as nat),
{
    let mut out = String::new();
    let mut i: usize = 0;
    proof {
        assert(out@ =~= repeat_seq(s@, 0));
    }
    while i < n
        invariant
            0 <= i <= n,
            out@ == repeat_seq(s@, i as nat),
        decreases n - i,
    {
        out.append(s);
        i = i + 1;
    }
    out
}

/// `s` padded with spaces on the right up to `width` characters; text
/// already that wide stays as it is.
pub open spec fn padded(s: Seq<char>, width: int) -> Seq<char> {
    if s.len() < width {
        s + repeat_seq(seq![' '], (width - s.len()) as nat)
    } else {
        s
    }
}

/// Pads the text with spaces on the right up to `width` characters.
pub fn pad_right_with_spaces(text: &mut String, width: usize)
    ensures
        final(text)@ == padded(old(text)@, width as int),
{
    let text_width = text.as_str().unicode_len();
    if text_width >= width {
        return ;
    }
    let mut i: usize = text_width;
    proof {
        assert(text@ =~= old(text)@ + repeat_seq(seq![' '], 0));
    }
    while i < width
        invariant
            text_width <= i <= width,
            text_width == old(text)@.len(),
            text@ == old(text)@ + repeat_seq(seq![' '], (i - text_width) as nat),
        decreases width - i,
    {
        text.append(" ");
        proof {
            reveal_strlit(" ");
            assert(" "@ =~= seq![' ']);
            assert(repeat_seq(seq![' '], (i + 1 - text_width) as nat) =~= repeat_seq(
                seq![' '],
                (i - text_width) as nat,
            ) + seq![' ']);
        }
        i = i + 1;
    }
}

/// A repeated single character is that character at every position.
proof fn lemma_repeat_seq_single(c: char, n: nat)
    ensures
        repeat_seq(seq![c], n).len() == n,
        forall|i: int| 0 <= i < n ==> repeat_seq(seq![c], n)[i] == c,
    decreases n,
{
    if n > 0 {
        lemma_repeat_seq_single(c, (n - 1) as nat);
    }
}

/// Padding with spaces keeps the text free of line breaks and brings it to
/// at least the requested width.
proof fn lemma_padded_props(s: Seq<char>, width: int)
    requires
        no_newline(s),
        0 <= width,
    ensures
        no_newline(padded(s, width)),
        padded(s, width).len() >= width,
{
    if s.len() < width {
        lemma_repeat_seq_single(' ', (width - s.len()) as nat);
        let p = padded(s, width);
        assert forall|i: int| 0 <= i < p.len() implies p[i] != '\n' by {
            if i >= s.len() {
                assert(p[i] == ' ');
            }
        }
    }
}

/// In any row below the first, every cell index is at least the width.
proof fn lemma_first_row_bound(y: int, w: int)
    requires
        1 <= y,
        0 <= w,
    ensures
        w <= y * w,
{
    assert(w <= y * w) by (nonlinear_arith)
        requires
            1 <= y,
            0 <= w,
    ;
}

/// A cell of a row above `row` comes before every cell of `row` in the
/// grid's row-major order.
proof fn lemma_cell_before_row(col: int, y: int, row: int, w: int)
    requires
        0 <= col < w,
        0 <= y < row,
    ensures
        col + y * w < row * w,
{
    assert(col + y * w < row * w) by (nonlinear_arith)
        requires
            0 <= col < w,
            0 <= y < row,
    ;
}

/// Row `y` shows `text` from column `col` in the given colors, as far as
/// the row reaches.
pub open spec fn row_shows(
    data: Seq<ScreenCell>,
    width: int,
    col: int,
    y: int,
    text: Seq<char>,
    fg: Color,
    bg: Color,
) -> bool {
    forall|c: int|
        #![trigger text[c]]
        0 <= c < text.len() && col + c < width ==> data[(col + c) + y * width] == styled_cell(
            fg,
            bg,
            text[c],
        )
}

/// How many entries the viewport shows this frame: its capacity, or what is
/// left of the list from the window start.
pub open spec fn visible_count(len: int, window_start: int, height: int) -> int {
    if height - 4 < len - window_start {
        height - 4
    } else {
        len - window_start
    }
}

/// Every visible display name is free of line breaks, so each entry's write
/// stays inside its own row.
pub open spec fn displays_printable(views: Seq<EntryView>, window_start: int, count: int) -> bool {
    forall|i: int|
        window_start <= i < window_start + count ==> no_newline((#[trigger] views[i]).display)
}

/// The colors an entry is painted with: the cursor entry black on white, a
/// find match black on yellow while the find prompt is open, and anything
/// else in the default colors.
pub open spec fn entry_style(state: AppState, mode: InputMode, i: int) -> (Color, Color) {
    let views = views_of(state.entry_list.entries@);
    if i == state.entry_list.cursor as int {
        (Color::Black, Color::White)
    } else if mode == InputMode::FindPrompt && matches_target(views[i], state.find_target@) {
        (Color::Black, Color::Yellow)
    } else {
        (Color::Reset, Color::Reset)
    }
}

/// The label each free-text prompt shows before the typed text.
pub open spec fn prompt_label(mode: InputMode) -> Seq<char> {
    match mode {
        InputMode::FindPrompt => "Find: "@,
        InputMode::CommandPrompt => ":"@,
        InputMode::NewFilePrompt => "New file: "@,
        InputMode::NewDirectoryPrompt => "New dir: "@,
        _ => Seq::empty(),
    }
}

/// The name of an action as the status line shows it.
pub open spec fn action_label_text(a: Action) -> Seq<char> {
    match a {
        Action::Quit => "Quit"@,
        Action::Cancel => "Cancel"@,
        Action::Up(_) => "Up"@,
        Action::Down(_) => "Down"@,
        Action::Top => "Top"@,
        Action::Bottom => "Bottom"@,
        Action::Activate => "Activate"@,
        Action::Delete => "Delete"@,
        Action::CreateFile(name) => "CreateFile "@ + name@,
        Action::CreateDirectory(name) => "CreateDirectory "@ + name@,
        Action::Refresh => "Refresh"@,
        Action::Find(text) => "Find "@ + text@,
        Action::FindNext => "FindNext"@,
        Action::RunCommand(text) => "RunCommand "@ + text@,
        Action::DebugDumpVisible => "DebugDumpVisible"@,
        Action::Unknown(_) => "Unknown key"@,
    }
}

/// The text of the bottom row: the last action and any pending repeat count
/// in Normal mode, the delete question, or the prompt label followed by the
/// typed text.
pub open spec fn status_text(state: AppState, input: InputState) -> Seq<char> {
    match input.mode {
        InputMode::Normal => {
            let base = "Last action: "@ + (match state.last_action {
                Some(a) => action_label_text(a),
                None => "None"@,
            });
            if input.repeat_count_buffer@.len() > 0 {
                base + " | "@ + input.repeat_count_buffer@
            } else {
                base
            }
        },
        InputMode::DeletePrompt => "Are you sure you want to delete selected? (y or escape)"@,
        _ => prompt_label(input.mode) + input.text_buffer@,
    }
}

/// The colors of the bottom row: white on red for a failed search while the
/// find prompt is open, black on white otherwise.
pub open spec fn status_colors(state: AppState, input: InputState) -> (Color, Color) {
    if input.mode == InputMode::FindPrompt && state.no_find_match {
        (Color::White, Color::Red)
    } else {
        (Color::Black, Color::White)
    }
}

/// Keeps the cursor on-screen: with viewport capacity `height - 4`, pulls
/// the window start up to the cursor when the cursor is at or above it, and
/// down when the cursor is at or past its lower edge. Afterwards the cursor
/// lies strictly inside the visible band, whatever the prior window was.
pub fn adjust_entry_window(state: &mut AppState, screen: &VirtualScreen)
    requires
        screen.current_buffer.height >= 5,
    ensures
        final(state).last_action == old(state).last_action,
        final(state).find_target == old(state).find_target,
        final(state).no_find_match == old(state).no_find_match,
        final(state).entry_list.directory == old(state).entry_list.directory,
        final(state).entry_list.entries == old(state).entry_list.entries,
        final(state).entry_list.cursor == old(state).entry_list.cursor,
        ({
            let cap = screen.current_buffer.height - 4;
            let cur = old(state).entry_list.cursor as int;
            let ws = old(state).entry_list.window_start as int;
            final(state).entry_list.window_start as int == if cur <= ws {
                cur
            } else if cur >= ws + cap {
                cur - cap + 1
            } else {
                ws
            }
        }),
        final(state).entry_list.window_start <= old(state).entry_list.cursor,
        old(state).entry_list.cursor < final(state).entry_list.window_start as int + (
        screen.current_buffer.height - 4),
    {
        let height = screen.get_size().1;
        let max_item_count = height - 4;
        let cursor = state.entry_list.cursor;
        let window_top = state.entry_list.window_start;
        if cursor <= window_top {
            state.entry_list.window_start = cursor;
        } else if cursor - window_top >= max_item_count {
            state.entry_list.window_start = cursor - max_item_count + 1;
        }
    }

/// A short name for each action, shown on the status line.
fn action_label(action: &Action) -> (r: String)
    ensures
        r@ == action_label_text(*action),
{
    match action {
        Action::Quit => String::from_str("Quit"),
        Action::Cancel => String::from_str("Cancel"),
        Action::Up(_) => String::from_str("Up"),
        Action::Down(_) => String::from_str("Down"),
        Action::Top => String::from_str("Top"),
        Action::Bottom => String::from_str("Bottom"),
        Action::Activate => String::from_str("Activate"),
        Action::Delete => String::from_str("Delete"),
        Action::CreateFile(name) => String::from_str("CreateFile ").concat(name.as_str()),
        Action::CreateDirectory(name) => String::from_str("CreateDirectory ").concat(
            name.as_str(),
        ),
        Action::Refresh => String::from_str("Refresh"),
        Action::Find(text) => String::from_str("Find ").concat(text.as_str()),
        Action::FindNext => String::from_str("FindNext"),
        Action::RunCommand(text) => String::from_str("RunCommand ").concat(text.as_str()),
        Action::DebugDumpVisible => String::from_str("DebugDumpVisible"),
        Action::Unknown(_) => String::from_str("Unknown key"),
    }
}

/// Paints one entry's display text into its row: the covered cells hold
/// exactly the text in the given colors, and nothing before the row moves.
fn paint_entry_row(screen: &mut VirtualScreen, display: &String, y: usize, fg: Color, bg: Color)
    requires
        old(screen).wf(),
        2 <= y < old(screen).current_buffer.height,
    ensures
        final(screen).wf(),
        final(screen).current_buffer.width == old(screen).current_buffer.width,
        final(screen).current_buffer.height == old(screen).current_buffer.height,
        final(screen).current_buffer.cursor_position == old(screen).current_buffer.cursor_position,
        final(screen).previous_buffer == old(screen).previous_buffer,
        final(screen).should_redraw_everything == old(screen).should_redraw_everything,
        no_newline(display@) ==> row_shows(
            final(screen).current_buffer.data@,
            old(screen).current_buffer.width as int,
            2,
            y as int,
            display@,
            fg,
            bg,
        ),
        forall|p: int|
            0 <= p < y * old(screen).current_buffer.width ==> final(screen).current_buffer.data@[p] == old(screen).current_buffer.data@[p],
{
    screen.write_str_color(2, y, display.as_str(), fg, bg);
    proof {
        let w = old(screen).current_buffer.width as int;
        let h = old(screen).current_buffer.height as int;
        if no_newline(display@) {
            assert forall|c: int|
                #![trigger display@[c]]
                0 <= c < display@.len() && 2 + c < w implies screen.current_buffer.data@[(2 + c) + y
                * w] == styled_cell(fg, bg, display@[c]) by {
                lemma_write_run_no_newline(
                    old(screen).current_buffer.data@,
                    w,
                    h,
                    2,
                    2,
                    y as int,
                    display@,
                    fg,
                    bg,
                    c,
                );
            }
        }
    }
}

/// Lays the directory listing, its border, and the status or prompt line
/// out into the in-progress buffer for this frame. The grid keeps its
/// shape; the top row shows the padded directory, each visible entry's text
/// stands in its row with its highlight, the bottom row shows the padded
/// status or prompt text in the prompt colors, and in the free-text prompt
/// modes the cursor rests after the typed text on the bottom row.
#[verifier::loop_isolation(false)]
pub fn render(state: &AppState, input_state: &InputState, screen: &mut VirtualScreen)
    requires
        old(screen).wf(),
        old(screen).current_buffer.height >= 5,
        state.wf(),
        state.entry_list.window_start <= state.entry_list.cursor,
        input_state.wf(),
        input_state.text_cursor as int + 16 <= usize::MAX as int,
        forall|i: int|
            0 <= i < state.entry_list.entries@.len() ==> (#[trigger] state.entry_list.entries@[i])@.display.len()
                + 4 <= usize::MAX,
    ensures
        final(screen).wf(),
        final(screen).current_buffer.width == old(screen).current_buffer.width,
        final(screen).current_buffer.height == old(screen).current_buffer.height,
        final(screen).previous_buffer == old(screen).previous_buffer,
        final(screen).should_redraw_everything == old(screen).should_redraw_everything,
        ({
            let w = old(screen).current_buffer.width as int;
            no_newline(state.entry_list.directory@) ==> row_shows(
                final(screen).current_buffer.data@,
                w,
                0,
                0,
                padded(state.entry_list.directory@, w),
                Color::Black,
                Color::White,
            )
        }),
        ({
            let w = old(screen).current_buffer.width as int;
            let h = old(screen).current_buffer.height as int;
            let views = views_of(state.entry_list.entries@);
            let ws = state.entry_list.window_start as int;
            let count = visible_count(views.len() as int, ws, h);
            displays_printable(views, ws, count) ==> forall|i: int|
                ws <= i < ws + count ==> row_shows(
                    final(screen).current_buffer.data@,
                    w,
                    2,
                    2 + i - ws,
                    (#[trigger] views[i]).display,
                    entry_style(*state, input_state.mode, i).0,
                    entry_style(*state, input_state.mode, i).1,
                )
        }),
        ({
            let w = old(screen).current_buffer.width as int;
            let h = old(screen).current_buffer.height as int;
            no_newline(status_text(*state, *input_state)) ==> row_shows(
                final(screen).current_buffer.data@,
                w,
                0,
                h - 1,
                padded(status_text(*state, *input_state), w),
                status_colors(*state, *input_state).0,
                status_colors(*state, *input_state).1,
            )
        }),
        ({
            let h = old(screen).current_buffer.height as int;
            match input_state.mode {
                InputMode::FindPrompt | InputMode::CommandPrompt | InputMode::NewFilePrompt
                    | InputMode::NewDirectoryPrompt => final(screen).current_buffer.cursor_position matches Some(p) && p.0 as int == prompt_label(
                    input_state.mode,
                ).len() + input_state.text_cursor && p.1 as int == h - 1,
                _ => final(screen).current_buffer.cursor_position == old(
                    screen,
                ).current_buffer.cursor_position,
            }
        }),
{
    let (width, height) = screen.get_size();
    let ghost w_i = width as int;
    let ghost h_i = height as int;
    let ghost views = views_of(state.entry_list.entries@);
    let ghost dir_row = padded(state.entry_list.directory@, w_i);

    let max_item_count = height - 4;
    let window_start = state.entry_list.window_start;
    let entry_count = state.entry_list.entries.len();
    let remaining = entry_count - window_start;
    let window_size = if max_item_count < remaining {
        max_item_count
    } else {
        remaining
    };
    let ghost ws_i = window_start as int;
    let ghost wsize_i = window_size as int;
    proof {
        assert(wsize_i == visible_count(views.len() as int, ws_i, h_i));
    }

    // the widest display name, which sets the border width
    let mut widest_entry_width: usize = 0;
    let mut index: usize = 0;
    while index < entry_count
        invariant
            0 <= index <= entry_count,
            entry_count == state.entry_list.entries@.len(),
            widest_entry_width + 4 <= usize::MAX,
        decreases entry_count - index,
    {
        let display_width = state.entry_list.entries[index].display.as_str().unicode_len();
        if display_width > widest_entry_width {
            widest_entry_width = display_width;
        }
        index = index + 1;
    }

    // the working directory line
    let mut working_dir_text = state.entry_list.directory.clone();
    pad_right_with_spaces(&mut working_dir_text, width);
    screen.write_str_color(0, 0, working_dir_text.as_str(), Color::Black, Color::White);
    proof {
        if no_newline(state.entry_list.directory@) {
            lemma_padded_props(state.entry_list.directory@, w_i);
            assert forall|c: int|
                #![trigger dir_row[c]]
                0 <= c < dir_row.len() && 0 + c < w_i implies screen.current_buffer.data@[(0 + c)
                + 0 * w_i] == styled_cell(Color::Black, Color::White, dir_row[c]) by {
                lemma_write_run_no_newline(
                    old(screen).current_buffer.data@,
                    w_i,
                    h_i,
                    0,
                    0,
                    0,
                    dir_row,
                    Color::Black,
                    Color::White,
                    c,
                );
            }
            assert(row_shows(
                screen.current_buffer.data@,
                w_i,
                0,
                0,
                dir_row,
                Color::Black,
                Color::White,
            ));
        }
    }

    // a border around the visible entries; the entries overwrite nothing of
    // it, since their text starts at column 2 and ends before the right bar
    let end_of_list_line = repeat_str("-", widest_entry_width + 4);
    let more_list_line = repeat_str("~", widest_entry_width + 4);
    let top_line = if window_start > 0 {
        more_list_line.as_str()
    } else {
        end_of_list_line.as_str()
    };
    let bottom_line = if window_start + window_size < entry_count {
        more_list_line.as_str()
    } else {
        end_of_list_line.as_str()
    };
    let entry_vertical_line = repeat_str("|\n", window_size);
    proof {
        lemma_first_row_bound(1, w_i);
        lemma_first_row_bound(2, w_i);
        lemma_first_row_bound(2 + window_size as int, w_i);
        lemma_first_row_bound(h_i - 1, w_i);
    }
    screen.write_str(0, 1, top_line);
    screen.write_str(0, 2, entry_vertical_line.as_str());
    screen.write_str(widest_entry_width + 3, 2, entry_vertical_line.as_str());
    screen.write_str(0, 2 + window_size, bottom_line);

    // the visible entries
    let mut row: usize = 0;
    while row < window_size
        invariant
            0 <= row <= window_size,
            window_size == wsize_i,
            window_start == ws_i,
            ws_i + wsize_i <= views.len(),
            2 + wsize_i <= h_i - 2,
            screen.wf(),
            screen.current_buffer.width == old(screen).current_buffer.width,
            screen.current_buffer.height == old(screen).current_buffer.height,
            screen.current_buffer.cursor_position == old(screen).current_buffer.cursor_position,
            screen.previous_buffer == old(screen).previous_buffer,
            screen.should_redraw_everything == old(screen).should_redraw_everything,
            no_newline(state.entry_list.directory@) ==> row_shows(
                screen.current_buffer.data@,
                w_i,
                0,
                0,
                dir_row,
                Color::Black,
                Color::White,
            ),
            displays_printable(views, ws_i, wsize_i) ==> forall|i: int|
                ws_i <= i < ws_i + row ==> row_shows(
                    screen.current_buffer.data@,
                    w_i,
                    2,
                    2 + i - ws_i,
                    (#[trigger] views[i]).display,
                    entry_style(*state, input_state.mode, i).0,
                    entry_style(*state, input_state.mode, i).1,
                ),
        decreases window_size - row,
    {
        let index = window_start + row;
        let y = 2 + row;
        let ghost pre = screen.current_buffer.data@;
        let display = &state.entry_list.entries[index].display;
        proof {
            assert(views[index as int].display == display@);
        }
        let (fg, bg) = if index == state.entry_list.cursor {
            (Color::Black, Color::White)
        } else if match input_state.get_mode() {
            InputMode::FindPrompt => find_should_match(
                display.as_str(),
                state.find_target.as_str(),
            ),
            _ => false,
        } {
            (Color::Black, Color::Yellow)
        } else {
            (Color::Reset, Color::Reset)
        };
        proof {
            assert(fg == entry_style(*state, input_state.mode, index as int).0);
            assert(bg == entry_style(*state, input_state.mode, index as int).1);
            lemma_first_row_bound(y as int, w_i);
        }
        paint_entry_row(screen, display, y, fg, bg);
        proof {
            if no_newline(state.entry_list.directory@) {
                assert forall|c: int|
                    #![trigger dir_row[c]]
                    0 <= c < dir_row.len() && 0 + c < w_i implies screen.current_buffer.data@[(0
                    + c) + 0 * w_i] == styled_cell(Color::Black, Color::White, dir_row[c]) by {
                    assert(pre[(0 + c) + 0 * w_i] == styled_cell(
                        Color::Black,
                        Color::White,
                        dir_row[c],
                    ));
                }
            }
            if displays_printable(views, ws_i, wsize_i) {
                assert(no_newline(views[index as int].display));
                assert forall|i: int| ws_i <= i < ws_i + row + 1 implies row_shows(
                    screen.current_buffer.data@,
                    w_i,
                    2,
                    2 + i - ws_i,
                    (#[trigger] views[i]).display,
                    entry_style(*state, input_state.mode, i).0,
                    entry_style(*state, input_state.mode, i).1,
                ) by {
                    let text = views[i].display;
                    let sfg = entry_style(*state, input_state.mode, i).0;
                    let sbg = entry_style(*state, input_state.mode, i).1;
                    if i < ws_i + row {
                        assert(row_shows(pre, w_i, 2, 2 + i - ws_i, text, sfg, sbg));
                        assert forall|c: int|
                            #![trigger text[c]]
                            0 <= c < text.len() && 2 + c < w_i implies screen.current_buffer.data@[(
                        2 + c) + (2 + i - ws_i) * w_i] == styled_cell(sfg, sbg, text[c]) by {
                            lemma_cell_before_row(2 + c, 2 + i - ws_i, y as int, w_i);
                            assert(pre[(2 + c) + (2 + i - ws_i) * w_i] == styled_cell(
                                sfg,
                                sbg,
                                text[c],
                            ));
                        }
                    } else {
                        assert(i == index as int);
                        assert(row_shows(screen.current_buffer.data@, w_i, 2, y as int, display@, fg, bg));
                    }
                }
            }
        }
        row = row + 1;
    }

    // the status or prompt line
    let ghost stext = status_text(*state, *input_state);
    let mut prompt_foreground = Color::Black;
    let mut prompt_background = Color::White;
    let mut status_bar_text = String::new();

    match input_state.get_mode() {
        InputMode::Normal => {
            status_bar_text.append("Last action: ");
            match &state.last_action {
                Some(last_action) => {
                    let label = action_label(last_action);
                    status_bar_text.append(label.as_str());
                },
                None => {
                    status_bar_text.append("None");
                },
            }
            match input_state.get_count_progress() {
                Some(count) => {
                    status_bar_text.append(" | ");
                    status_bar_text.append(count.as_str());
                },
                None => {},
            }
            proof {
                assert(status_bar_text@ =~= stext);
            }
        },
        InputMode::DeletePrompt => {
            status_bar_text.append("Are you sure you want to delete selected? (y or escape)");
            proof {
                assert(status_bar_text@ =~= stext);
            }
        },
        InputMode::FindPrompt => {
            let prompt_string = "Find: ";
            status_bar_text.append(prompt_string);
            let text = crate::text::chars_to_string(&input_state.text_buffer);
            status_bar_text.append(text.as_str());
            if state.no_find_match {
                prompt_foreground = Color::White;
                prompt_background = Color::Red;
            }
            proof {
                assert(status_bar_text@ =~= stext);
            }
            let prompt_len = prompt_string.unicode_len();
            proof {
                reveal_strlit("Find: ");
            }
            screen.set_cursor_position(
                prompt_len + input_state.get_cursor_position(),
                height - 1,
            );
        },
        InputMode::CommandPrompt => {
            status_bar_text.append(":");
            let text = crate::text::chars_to_string(&input_state.text_buffer);
            status_bar_text.append(text.as_str());
            proof {
                assert(status_bar_text@ =~= stext);
                reveal_strlit(":");
            }
            screen.set_cursor_position(1 + input_state.get_cursor_position(), height - 1);
        },
        InputMode::NewFilePrompt => {
            let prompt_string = "New file: ";
            status_bar_text.append(prompt_string);
            let text = crate::text::chars_to_string(&input_state.text_buffer);
            status_bar_text.append(text.as_str());
            proof {
                assert(status_bar_text@ =~= stext);
            }
            let prompt_len = prompt_string.unicode_len();
            proof {
                reveal_strlit("New file: ");
            }
            screen.set_cursor_position(
                prompt_len + input_state.get_cursor_position(),
                height - 1,
            );
        },
        InputMode::NewDirectoryPrompt => {
            let prompt_string = "New dir: ";
            status_bar_text.append(prompt_string);
            let text = crate::text::chars_to_string(&input_state.text_buffer);
            status_bar_text.append(text.as_str());
            proof {
                assert(status_bar_text@ =~= stext);
            }
            let prompt_len = prompt_string.unicode_len();
            proof {
                reveal_strlit("New dir: ");
            }
            screen.set_cursor_position(
                prompt_len + input_state.get_cursor_position(),
                height - 1,
            );
        },
    }
    proof {
        assert(status_bar_text@ == stext);
        assert(prompt_foreground == status_colors(*state, *input_state).0);
        assert(prompt_background == status_colors(*state, *input_state).1);
    }

    pad_right_with_spaces(&mut status_bar_text, width);
    let ghost padded_status = padded(stext, w_i);
    let ghost pre_status = screen.current_buffer.data@;
    screen.write_str_color(
        0,
        height - 1,
        status_bar_text.as_str(),
        prompt_foreground,
        prompt_background,
    );
    proof {
        if no_newline(stext) {
            lemma_padded_props(stext, w_i);
            assert forall|c: int|
                #![trigger padded_status[c]]
                0 <= c < padded_status.len() && 0 + c < w_i implies screen.current_buffer.data@[(0
                + c) + (h_i - 1) * w_i] == styled_cell(
                prompt_foreground,
                prompt_background,
                padded_status[c],
            ) by {
                lemma_write_run_no_newline(
                    pre_status,
                    w_i,
                    h_i,
                    0,
                    0,
                    h_i - 1,
                    padded_status,
                    prompt_foreground,
                    prompt_background,
                    c,
                );
            }
            assert(row_shows(
                screen.current_buffer.data@,
                w_i,
                0,
                h_i - 1,
                padded_status,
                prompt_foreground,
                prompt_background,
            ));
        }
        if no_newline(state.entry_list.directory@) {
            assert forall|c: int|
                #![trigger dir_row[c]]
                0 <= c < dir_row.len() && 0 + c < w_i implies screen.current_buffer.data@[(0 + c)
                + 0 * w_i] == styled_cell(Color::Black, Color::White, dir_row[c]) by {
                assert(pre_status[(0 + c) + 0 * w_i] == styled_cell(
                    Color::Black,
                    Color::White,
                    dir_row[c],
                ));
            }
        }
        if displays_printable(views, ws_i, wsize_i) {
            assert forall|i: int| ws_i <= i < ws_i + wsize_i implies row_shows(
                screen.current_buffer.data@,
                w_i,
                2,
                2 + i - ws_i,
                (#[trigger] views[i]).display,
                entry_style(*state, input_state.mode, i).0,
                entry_style(*state, input_state.mode, i).1,
            ) by {
                let text = views[i].display;
                let sfg = entry_style(*state, input_state.mode, i).0;
                let sbg = entry_style(*state, input_state.mode, i).1;
                assert(row_shows(pre_status, w_i, 2, 2 + i - ws_i, text, sfg, sbg));
                assert forall|c: int|
                    #![trigger text[c]]
                    0 <= c < text.len() && 2 + c < w_i implies screen.current_buffer.data@[(2 + c)
                    + (2 + i - ws_i) * w_i] == styled_cell(sfg, sbg, text[c]) by {
                    lemma_cell_before_row(2 + c, 2 + i - ws_i, h_i - 1, w_i);
                    assert(pre_status[(2 + c) + (2 + i - ws_i) * w_i] == styled_cell(
                        sfg,
                        sbg,
                        text[c],
                    ));
                }
            }
        }
    }
}

} // verus!
