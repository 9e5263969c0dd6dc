//! The double-buffered screen: a previously-shown grid, an in-progress grid,
//! and the diff pass that turns their differences into the writes a terminal
//! needs to catch up. Each write covers a maximal horizontal run of cells
//! sharing one color pair, which keeps the number of terminal operations
//! small.

use vstd::prelude::*;

use crate::text::chars_to_string;
use crate::virtual_screen_buffer::{
    buffer_text, write_run, VirtualScreenBuffer,
};

verus! {

/// The closed color set of the terminal, plus the sentinel that stands for
/// the terminal's default color.
#[derive(Debug, Clone, Copy, PartialEq, Eq, Structural)]
pub enum Color {
    Black,
    Red,
    Green,
    Yellow,
    Blue,
    Magenta,
    Cyan,
    White,
    Reset,
}

/// One terminal character position: a code point with its colors.
#[derive(Debug, Clone, Copy, PartialEq, Eq, Structural)]
pub struct ScreenCell {
    pub fg: Color,
    pub bg: Color,
    pub char: char,
}

/// Default colors and a space: what a cleared screen holds.
pub open spec fn default_cell() -> ScreenCell {
    ScreenCell { fg: Color::Reset, bg: Color::Reset, char: ' ' }
}

/// The cell holding character `c` in colors `fg`/`bg`.
pub open spec fn styled_cell(fg: Color, bg: Color, c: char) -> ScreenCell {
    ScreenCell { fg, bg, char: c }
}

impl Default for ScreenCell {
    /// The default cell: default colors, a space.
    fn default() -> (r: ScreenCell)
        ensures
            r == default_cell(),
    {
        ScreenCell { fg: Color::Reset, bg: Color::Reset, char: ' ' }
    }
}

/// One terminal write: `text` painted at `(x, y)` in colors `fg`/`bg`.
#[derive(Debug, Clone, PartialEq, Eq)]
pub struct ScreenDifference {
    pub x: usize,
    pub y: usize,
    pub text: String,
    pub fg: Color,
    pub bg: Color,
}

/// Cell `p` must be repainted: either the whole screen is being redrawn, or
/// the cell changed since it was last shown.
pub open spec fn dirty_at(
    cur: Seq<ScreenCell>,
    prev: Seq<ScreenCell>,
    all_dirty: bool,
    p: int,
) -> bool {
    all_dirty || cur[p] != prev[p]
}

/// The linear position of the first cell a write covers.
pub open spec fn diff_start(d: ScreenDifference, width: int) -> int {
    d.x + d.y * width
}

/// Starting at cell `start`, the grid holds exactly the characters of
/// `text` in colors `fg`/`bg`.
pub open spec fn run_matches(
    cur: Seq<ScreenCell>,
    start: int,
    text: Seq<char>,
    fg: Color,
    bg: Color,
) -> bool {
    forall|i: int|
        #![trigger text[i]]
        0 <= i < text.len() ==> {
            &&& cur[start + i].char == text[i]
            &&& cur[start + i].fg == fg
            &&& cur[start + i].bg == bg
        }
}

/// A matching run grows by one cell whose colors agree.
proof fn lemma_run_extend(cur: Seq<ScreenCell>, start: int, text: Seq<char>, fg: Color, bg: Color)
    requires
        run_matches(cur, start, text, fg, bg),
        cur[start + text.len()].fg == fg,
        cur[start + text.len()].bg == bg,
    ensures
        run_matches(cur, start, text.push(cur[start + text.len()].char), fg, bg),
{
    let t2 = text.push(cur[start + text.len()].char);
    assert forall|i: int| #![trigger t2[i]] 0 <= i < t2.len() implies {
        &&& cur[start + i].char == t2[i]
        &&& cur[start + i].fg == fg
        &&& cur[start + i].bg == bg
    } by {
        if i < text.len() {
            assert(t2[i] == text[i]);
        } else {
            assert(i == text.len());
            assert(t2[i] == cur[start + text.len()].char);
        }
    }
}

/// The write reproduces the current buffer: it stays inside one row, and
/// each covered cell has exactly the written character and colors.
pub open spec fn diff_ok(cur: Seq<ScreenCell>, width: int, height: int, d: ScreenDifference) -> bool {
    &&& (d.x as int) < width
    &&& (d.y as int) < height
    &&& 1 <= d.text@.len()
    &&& d.x + d.text@.len() <= width
    &&& run_matches(cur, diff_start(d, width), d.text@, d.fg, d.bg)
}

/// The write covers cell `p`.
pub open spec fn diff_covers(d: ScreenDifference, width: int, p: int) -> bool {
    diff_start(d, width) <= p < diff_start(d, width) + d.text@.len()
}

/// Every write in the list reproduces the current buffer.
pub open spec fn changes_sound(
    cur: Seq<ScreenCell>,
    width: int,
    height: int,
    changes: Seq<ScreenDifference>,
) -> bool {
    forall|di: int| 0 <= di < changes.len() ==> diff_ok(cur, width, height, #[trigger] changes[di])
}

/// Every write begins at a cell that must be repainted: no write is issued
/// for a wholly clean screen region.
pub open spec fn changes_necessary(
    cur: Seq<ScreenCell>,
    prev: Seq<ScreenCell>,
    all_dirty: bool,
    width: int,
    changes: Seq<ScreenDifference>,
) -> bool {
    forall|di: int|
        0 <= di < changes.len() ==> dirty_at(
            cur,
            prev,
            all_dirty,
            diff_start(#[trigger] changes[di], width),
        )
}

/// The writes march left to right, top to bottom, and never overlap: no
/// cell is painted twice in one frame.
pub open spec fn changes_ordered(width: int, changes: Seq<ScreenDifference>) -> bool {
    forall|di: int, dj: int|
        0 <= di < dj < changes.len() ==> diff_start(#[trigger] changes[di], width)
            + changes[di].text@.len() <= diff_start(#[trigger] changes[dj], width)
}

/// Every run is maximal: a write ends only at the row's edge or at a cell
/// whose colors break the run, so no two writes could have been one.
pub open spec fn changes_maximal(
    cur: Seq<ScreenCell>,
    width: int,
    changes: Seq<ScreenDifference>,
) -> bool {
    forall|di: int|
        0 <= di < changes.len() ==> {
            let d = #[trigger] changes[di];
            ||| d.x + d.text@.len() == width
            ||| !(cur[diff_start(d, width) + d.text@.len()].fg == d.fg && cur[diff_start(d, width)
                + d.text@.len()].bg == d.bg)
        }
}

/// Every write ends at or before position `limit`.
pub open spec fn changes_below(width: int, changes: Seq<ScreenDifference>, limit: int) -> bool {
    forall|di: int|
        0 <= di < changes.len() ==> diff_start(#[trigger] changes[di], width)
            + changes[di].text@.len() <= limit
}

/// Every cell that must be repainted is covered by some write in the list.
pub open spec fn changes_complete(
    cur: Seq<ScreenCell>,
    prev: Seq<ScreenCell>,
    all_dirty: bool,
    width: int,
    height: int,
    changes: Seq<ScreenDifference>,
) -> bool {
    forall|p: int|
        0 <= p < width * height && dirty_at(cur, prev, all_dirty, p) ==> exists|di: int|
            0 <= di < changes.len() && diff_covers(#[trigger] changes[di], width, p)
}

/// A row-major scan over two same-shaped buffers that yields one write per
/// maximal run of changed cells sharing a color pair.
pub struct ScreenDifferenceIterator<'a> {
    pub current: &'a VirtualScreenBuffer,
    pub previous: &'a VirtualScreenBuffer,
    pub x: usize,
    pub y: usize,
    pub width: usize,
    pub height: usize,
    pub all_dirty: bool,
}

impl<'a> ScreenDifferenceIterator<'a> {
    /// The buffers agree with the recorded shape and the scan position is
    /// inside the grid, or one row past its end with the column reset.
    pub open spec fn wf(&self) -> bool {
        &&& self.current.wf()
        &&& self.previous.wf()
        &&& self.width == self.current.width
        &&& self.height == self.current.height
        &&& self.previous.width == self.current.width
        &&& self.previous.height == self.current.height
        &&& self.y <= self.height
        &&& (self.width > 0 ==> self.x < self.width)
        &&& (self.width == 0 ==> self.x == 0)
        &&& (self.y == self.height ==> self.x == 0)
    }

    /// The scan position in row-major order.
    pub open spec fn pos(&self) -> int {
        self.x + self.y * self.width
    }

    /// A scan over the whole grid from the top-left corner.
    pub fn new(
        current: &'a VirtualScreenBuffer,
        previous: &'a VirtualScreenBuffer,
        all_dirty: bool,
    ) -> (r: ScreenDifferenceIterator<'a>)
        requires
            current.wf(),
            previous.wf(),
            previous.width == current.width,
            previous.height == current.height,
        ensures
            r.wf(),
            r.current == current,
            r.previous == previous,
            r.all_dirty == all_dirty,
            r.x == 0,
            r.y == 0,
    {
        let (width, height) = current.get_size();
        ScreenDifferenceIterator { current, previous, x: 0, y: 0, width, height, all_dirty }
    }

    /// Advances one cell in row-major order.
    fn step(&mut self)
        requires
            old(self).wf(),
            old(self).x < old(self).width,
            old(self).y < old(self).height,
        ensures
            final(self).wf(),
            final(self).current == old(self).current,
            final(self).previous == old(self).previous,
            final(self).width == old(self).width,
            final(self).height == old(self).height,
            final(self).all_dirty == old(self).all_dirty,
            final(self).pos() == old(self).pos() + 1,
            (final(self).x == old(self).x + 1 && final(self).y == old(self).y) || (final(self).x
                == 0 && final(self).y == old(self).y + 1),
    {
        self.x = self.x + 1;
        if self.x == self.width {
            self.x = 0;
            self.y = self.y + 1;
            proof {
                let w = old(self).width as int;
                let y = old(self).y as int;
                assert((y + 1) * w == y * w + w) by (nonlinear_arith);
            }
        }
    }

    /// Yields the next write the terminal needs, or nothing when every cell
    /// from the scan position to the end of the grid is already as shown.
    /// The cells skipped before the returned write are exactly the clean
    /// ones, and the run stops only at the row's edge or at a cell whose
    /// colors break it.
    #[verifier::loop_isolation(false)]
    pub fn next(&mut self) -> (r: Option<ScreenDifference>)
        requires
            old(self).wf(),
        ensures
            final(self).wf(),
            final(self).current == old(self).current,
            final(self).previous == old(self).previous,
            final(self).width == old(self).width,
            final(self).height == old(self).height,
            final(self).all_dirty == old(self).all_dirty,
            final(self).pos() >= old(self).pos(),
            ({
                let cur = old(self).current.data@;
                let prev = old(self).previous.data@;
                let w = old(self).width as int;
                let h = old(self).height as int;
                let all = old(self).all_dirty;
                match r {
                    None => {
                        &&& forall|p: int|
                            old(self).pos() <= p < w * h ==> !dirty_at(cur, prev, all, p)
                        &&& final(self).pos() == w * h
                    },
                    Some(d) => {
                        &&& diff_ok(cur, w, h, d)
                        &&& old(self).pos() <= diff_start(d, w)
                        &&& forall|p: int|
                            old(self).pos() <= p < diff_start(d, w) ==> !dirty_at(
                                cur,
                                prev,
                                all,
                                p,
                            )
                        &&& dirty_at(cur, prev, all, diff_start(d, w))
                        &&& final(self).pos() == diff_start(d, w) + d.text@.len()
                        &&& (d.x + d.text@.len() == w || !(cur[diff_start(d, w)
                            + d.text@.len()].fg == d.fg && cur[diff_start(d, w)
                            + d.text@.len()].bg == d.bg))
                    },
                }
            }),
    {
        let ghost cur = self.current.data@;
        let ghost prev = self.previous.data@;
        let ghost w = self.width as int;
        let ghost h = self.height as int;
        let ghost all = self.all_dirty;
        if self.width == 0 {
            proof {
                assert((self.y as int) * (self.width as int) == 0) by (nonlinear_arith)
                    requires
                        self.width == 0,
                ;
            }
            self.y = self.height;
            proof {
                assert((self.y as int) * (self.width as int) == 0) by (nonlinear_arith)
                    requires
                        self.width == 0,
                ;
                assert(w * h == 0) by (nonlinear_arith)
                    requires
                        w == 0,
                ;
            }
            return None;
        }
        loop
            invariant
                self.wf(),
                self.width > 0,
                self.current == old(self).current,
                self.previous == old(self).previous,
                self.width == old(self).width,
                self.height == old(self).height,
                self.all_dirty == old(self).all_dirty,
                old(self).pos() <= self.pos(),
                forall|p: int| old(self).pos() <= p < self.pos() ==> !dirty_at(cur, prev, all, p),
            decreases self.height - self.y, self.width - self.x,
        {
            if self.y >= self.height {
                proof {
                    assert(self.pos() == w * h) by (nonlinear_arith)
                        requires
                            self.x == 0,
                            self.y == h,
                            self.width == w,
                    ;
                }
                return None;
            }
            let new_block = self.current.get_block(self.x, self.y);
            let old_block = self.previous.get_block(self.x, self.y);
            if new_block != old_block || self.all_dirty {
                let ghost start_pos = self.pos();
                let change_x = self.x;
                let change_y = self.y;
                let mut text: Vec<char> = Vec::new();
                text.push(new_block.char);
                proof {
                    assert(text@ =~= Seq::<char>::empty().push(new_block.char));
                    assert forall|i: int| #![trigger text@[i]] 0 <= i < text@.len() implies {
                        &&& cur[start_pos + i].char == text@[i]
                        &&& cur[start_pos + i].fg == new_block.fg
                        &&& cur[start_pos + i].bg == new_block.bg
                    } by {
                        assert(i == 0);
                        assert(cur[start_pos] == new_block);
                    }
                }
                let mut done = false;
                while !done
                    invariant
                        self.wf(),
                        self.width > 0,
                        self.current == old(self).current,
                        self.previous == old(self).previous,
                        self.width == old(self).width,
                        self.height == old(self).height,
                        self.all_dirty == old(self).all_dirty,
                        self.y == change_y,
                        self.y < self.height,
                        change_x as int + text@.len() - 1 == self.x as int,
                        change_x <= self.x < self.width,
                        1 <= text@.len(),
                        start_pos == change_x + change_y * w,
                        run_matches(cur, start_pos, text@, new_block.fg, new_block.bg),
                        done ==> (self.x as int + 1 == w || !(cur[start_pos + text@.len()].fg
                            == new_block.fg && cur[start_pos + text@.len()].bg == new_block.bg)),
                    decreases self.width - self.x, if done {
                        0int
                    } else {
                        1int
                    },
                {
                    if self.x + 1 == self.width {
                        done = true;
                    } else {
                        let next_block = self.current.get_block(self.x + 1, self.y);
                        proof {
                            assert(self.x + 1 + self.y * w == start_pos + text@.len());
                            assert(next_block == cur[start_pos + text@.len()]);
                        }
                        if next_block.fg != new_block.fg || next_block.bg != new_block.bg {
                            done = true;
                        } else {
                            let ghost old_text = text@;
                            text.push(next_block.char);
                            proof {
                                lemma_run_extend(
                                    cur,
                                    start_pos,
                                    old_text,
                                    new_block.fg,
                                    new_block.bg,
                                );
                                assert(text@ == old_text.push(
                                    cur[start_pos + old_text.len()].char,
                                ));
                            }
                            self.x = self.x + 1;
                        }
                    }
                }
                let result = ScreenDifference {
                    x: change_x,
                    y: change_y,
                    text: chars_to_string(&text),
                    fg: new_block.fg,
                    bg: new_block.bg,
                };
                proof {
                    assert(diff_start(result, w) == start_pos);
                    assert(result.text@ == text@);
                    assert(run_matches(cur, diff_start(result, w), result.text@, result.fg, result.bg));
                    assert(diff_ok(cur, w, h, result));
                    assert(dirty_at(cur, prev, all, start_pos));
                }
                self.step();
                proof {
                    assert(self.pos() == start_pos + result.text@.len());
                }
                return Some(result);
            }
            proof {
                assert(!dirty_at(cur, prev, all, self.pos()));
            }
            self.step();
        }
    }
}

/// The renderer's state: the grid last shown on the terminal, the grid being
/// composed for this frame, and whether the next commit must repaint
/// everything.
#[derive(Debug)]
pub struct VirtualScreen {
    pub previous_buffer: VirtualScreenBuffer,
    pub current_buffer: VirtualScreenBuffer,
    pub should_redraw_everything: bool,
}

/// Everything one frame asks of the terminal: whether to clear it first,
/// the writes that reconcile it with the composed frame, and where to put
/// the cursor, or nothing to hide it.
#[derive(Debug)]
pub struct CommitOutput {
    pub clear_screen: bool,
    pub changes: Vec<ScreenDifference>,
    pub cursor_position: Option<(usize, usize)>,
}

impl VirtualScreen {
    /// Both grids have the same shape.
    pub open spec fn wf(&self) -> bool {
        &&& self.current_buffer.wf()
        &&& self.previous_buffer.wf()
        &&& self.previous_buffer.width == self.current_buffer.width
        &&& self.previous_buffer.height == self.current_buffer.height
    }

    /// A fresh screen of default cells that does not yet force a repaint.
    pub fn new(width: usize, height: usize) -> (r: VirtualScreen)
        requires
            width * height <= usize::MAX,
        ensures
            r.wf(),
            r.current_buffer.width == width,
            r.current_buffer.height == height,
            r.should_redraw_everything == false,
            r.current_buffer.cursor_position is None,
            r.previous_buffer.cursor_position is None,
            forall|i: int|
                0 <= i < r.current_buffer.data@.len() ==> r.current_buffer.data@[i]
                    == default_cell(),
            forall|i: int|
                0 <= i < r.previous_buffer.data@.len() ==> r.previous_buffer.data@[i]
                    == default_cell(),
    {
        VirtualScreen {
            previous_buffer: VirtualScreenBuffer::new(width, height),
            current_buffer: VirtualScreenBuffer::new(width, height),
            should_redraw_everything: false,
        }
    }

    /// The in-progress grid as text, row by row.
    pub fn show_current_buffer(&self) -> (r: String)
        requires
            self.wf(),
        ensures
            r@ == buffer_text(
                self.current_buffer.data@,
                self.current_buffer.width as int,
                self.current_buffer.height as int,
            ),
    {
        self.current_buffer.show()
    }

    /// Writes into the in-progress grid with default colors.
    pub fn write_str(&mut self, x: usize, y: usize, value: &str)
        requires
            old(self).wf(),
        ensures
            final(self).wf(),
            final(self).previous_buffer == old(self).previous_buffer,
            final(self).should_redraw_everything == old(self).should_redraw_everything,
            final(self).current_buffer.width == old(self).current_buffer.width,
            final(self).current_buffer.height == old(self).current_buffer.height,
            final(self).current_buffer.cursor_position == old(self).current_buffer.cursor_position,
            final(self).current_buffer.data@ == write_run(
                old(self).current_buffer.data@,
                old(self).current_buffer.width as int,
                old(self).current_buffer.height as int,
                x as int,
                x as int,
                y as int,
                value@,
                Color::Reset,
                Color::Reset,
            ),
            forall|p: int|
                0 <= p < y * old(self).current_buffer.width ==> final(self).current_buffer.data@[p] == old(self).current_buffer.data@[p],
    {
        self.current_buffer.write_str(x, y, value);
    }

    /// Writes into the in-progress grid with the given colors.
    pub fn write_str_color(&mut self, x: usize, y: usize, value: &str, fg: Color, bg: Color)
        requires
            old(self).wf(),
        ensures
            final(self).wf(),
            final(self).previous_buffer == old(self).previous_buffer,
            final(self).should_redraw_everything == old(self).should_redraw_everything,
            final(self).current_buffer.width == old(self).current_buffer.width,
            final(self).current_buffer.height == old(self).current_buffer.height,
            final(self).current_buffer.cursor_position == old(self).current_buffer.cursor_position,
            final(self).current_buffer.data@ == write_run(
                old(self).current_buffer.data@,
                old(self).current_buffer.width as int,
                old(self).current_buffer.height as int,
                x as int,
                x as int,
                y as int,
                value@,
                fg,
                bg,
            ),
            forall|p: int|
                0 <= p < y * old(self).current_buffer.width ==> final(self).current_buffer.data@[p] == old(self).current_buffer.data@[p],
    {
        self.current_buffer.write_str_color(x, y, value, fg, bg);
    }

    /// The shape both grids share.
    pub fn get_size(&self) -> (r: (usize, usize))
        ensures
            r.0 == self.current_buffer.width,
            r.1 == self.current_buffer.height,
    {
        self.current_buffer.get_size()
    }

    /// Replaces both grids with fresh ones of the new shape and forces the
    /// next commit to repaint everything.
    pub fn resize(&mut self, width: usize, height: usize)
        requires
            width * height <= usize::MAX,
        ensures
            final(self).wf(),
            final(self).current_buffer.width == width,
            final(self).current_buffer.height == height,
            final(self).should_redraw_everything == true,
            final(self).current_buffer.cursor_position is None,
            final(self).previous_buffer.cursor_position is None,
            forall|i: int|
                0 <= i < final(self).current_buffer.data@.len() ==> final(self).current_buffer.data@[i] == default_cell(),
            forall|i: int|
                0 <= i < final(self).previous_buffer.data@.len() ==> final(self).previous_buffer.data@[i] == default_cell(),
    {
        self.previous_buffer = VirtualScreenBuffer::new(width, height);
        self.current_buffer = VirtualScreenBuffer::new(width, height);
        self.should_redraw_everything = true;
    }

    /// Starts a frame: adopts the terminal's size, forcing a full repaint
    /// when it changed, and clears the in-progress grid to default cells.
    pub fn render_prepare(&mut self, term_width: usize, term_height: usize)
        requires
            old(self).wf(),
            term_width * term_height <= usize::MAX,
        ensures
            final(self).wf(),
            final(self).current_buffer.width == term_width,
            final(self).current_buffer.height == term_height,
            final(self).current_buffer.cursor_position is None,
            forall|i: int|
                0 <= i < final(self).current_buffer.data@.len() ==> final(self).current_buffer.data@[i] == default_cell(),
            final(self).should_redraw_everything == (old(self).should_redraw_everything || term_width
                != old(self).current_buffer.width || term_height != old(self).current_buffer.height),
            (term_width == old(self).current_buffer.width && term_height == old(self).current_buffer.height) ==> final(self).previous_buffer == old(self).previous_buffer,
    {
        let (width, height) = self.get_size();
        if term_width != width || term_height != height {
            self.resize(term_width, term_height);
        }
        self.current_buffer.clear();
    }

    /// Places the cursor for this frame.
    pub fn set_cursor_position(&mut self, x: usize, y: usize)
        ensures
            final(self).current_buffer.cursor_position == Some((x, y)),
            final(self).current_buffer.width == old(self).current_buffer.width,
            final(self).current_buffer.height == old(self).current_buffer.height,
            final(self).current_buffer.data@ == old(self).current_buffer.data@,
            final(self).previous_buffer == old(self).previous_buffer,
            final(self).should_redraw_everything == old(self).should_redraw_everything,
            old(self).wf() ==> final(self).wf(),
    {
        self.current_buffer.cursor_position = Some((x, y));
    }

    /// The writes that bring the previously-shown grid up to the
    /// in-progress one: every write reproduces the current cells, and every
    /// cell that must be repainted is covered by some write.
    #[verifier::loop_isolation(false)]
    fn get_changes(&self, whole_screen: bool) -> (r: Vec<ScreenDifference>)
        requires
            self.wf(),
        ensures
            changes_sound(
                self.current_buffer.data@,
                self.current_buffer.width as int,
                self.current_buffer.height as int,
                r@,
            ),
            changes_complete(
                self.current_buffer.data@,
                self.previous_buffer.data@,
                whole_screen,
                self.current_buffer.width as int,
                self.current_buffer.height as int,
                r@,
            ),
            changes_necessary(
                self.current_buffer.data@,
                self.previous_buffer.data@,
                whole_screen,
                self.current_buffer.width as int,
                r@,
            ),
            changes_ordered(self.current_buffer.width as int, r@),
            changes_maximal(self.current_buffer.data@, self.current_buffer.width as int, r@),
    {
        let ghost cur = self.current_buffer.data@;
        let ghost prev = self.previous_buffer.data@;
        let ghost w = self.current_buffer.width as int;
        let ghost h = self.current_buffer.height as int;
        let mut changes: Vec<ScreenDifference> = Vec::new();
        let mut it = ScreenDifferenceIterator::new(
            &self.current_buffer,
            &self.previous_buffer,
            whole_screen,
        );
        loop
            invariant
                it.wf(),
                it.current == &self.current_buffer,
                it.previous == &self.previous_buffer,
                it.width == self.current_buffer.width,
                it.height == self.current_buffer.height,
                it.all_dirty == whole_screen,
                0 <= it.pos(),
                forall|di: int|
                    0 <= di < changes@.len() ==> diff_ok(cur, w, h, #[trigger] changes@[di]),
                forall|p: int|
                    0 <= p < it.pos() && dirty_at(cur, prev, whole_screen, p) ==> exists|di: int|
                        0 <= di < changes@.len() && diff_covers(#[trigger] changes@[di], w, p),
                changes_necessary(cur, prev, whole_screen, w, changes@),
                changes_ordered(w, changes@),
                changes_maximal(cur, w, changes@),
                changes_below(w, changes@, it.pos()),
            decreases w * h - it.pos() + 1,
        {
            let ghost pre_pos = it.pos();
            let ghost pre_changes = changes@;
            match it.next() {
                Some(d) => {
                    changes.push(d);
                    proof {
                        assert(it.pos() <= w * h) by (nonlinear_arith)
                            requires
                                it.pos() == diff_start(d, w) + d.text@.len(),
                                diff_start(d, w) == d.x + d.y * w,
                                d.x + d.text@.len() <= w,
                                0 <= (d.y as int) < h,
                                0 <= w,
                        ;
                        assert forall|p: int|
                            0 <= p < it.pos() && dirty_at(cur, prev, whole_screen, p) implies exists|di: int|
                            0 <= di < changes@.len() && diff_covers(
                                #[trigger] changes@[di],
                                w,
                                p,
                            ) by {
                            if p < pre_pos && dirty_at(cur, prev, whole_screen, p) {
                                let di = choose|di: int|
                                    0 <= di < pre_changes.len() && diff_covers(
                                        #[trigger] pre_changes[di],
                                        w,
                                        p,
                                    );
                                assert(changes@[di] == pre_changes[di]);
                                assert(diff_covers(changes@[di], w, p));
                            } else if p >= diff_start(d, w) {
                                assert(changes@[changes@.len() - 1] == d);
                                assert(diff_covers(d, w, p));
                            }
                        }
                        assert forall|di: int|
                            0 <= di < changes@.len() implies diff_start(#[trigger] changes@[di], w)
                            + changes@[di].text@.len() <= it.pos() by {
                            if di < pre_changes.len() {
                                assert(changes@[di] == pre_changes[di]);
                                assert(diff_start(pre_changes[di], w) + pre_changes[di].text@.len()
                                    <= pre_pos);
                            } else {
                                assert(changes@[di] == d);
                            }
                        }
                        assert forall|di: int, dj: int|
                            0 <= di < dj < changes@.len() implies diff_start(
                            #[trigger] changes@[di],
                            w,
                        ) + changes@[di].text@.len() <= diff_start(#[trigger] changes@[dj], w) by {
                            assert(changes@[di] == pre_changes[di]);
                            if dj < pre_changes.len() {
                                assert(changes@[dj] == pre_changes[dj]);
                            } else {
                                assert(changes@[dj] == d);
                                assert(diff_start(pre_changes[di], w) + pre_changes[di].text@.len()
                                    <= pre_pos);
                            }
                        }
                        assert forall|di: int|
                            0 <= di < changes@.len() implies dirty_at(
                            cur,
                            prev,
                            whole_screen,
                            diff_start(#[trigger] changes@[di], w),
                        ) by {
                            if di < pre_changes.len() {
                                assert(changes@[di] == pre_changes[di]);
                                assert(dirty_at(
                                    cur,
                                    prev,
                                    whole_screen,
                                    diff_start(pre_changes[di], w),
                                ));
                            } else {
                                assert(changes@[di] == d);
                            }
                        }
                        assert(changes_maximal(cur, w, changes@)) by {
                            assert forall|di: int| 0 <= di < changes@.len() implies {
                                let e = #[trigger] changes@[di];
                                ||| e.x + e.text@.len() == w
                                ||| !(cur[diff_start(e, w) + e.text@.len()].fg == e.fg && cur[
                                    diff_start(e, w) + e.text@.len()].bg == e.bg)
                            } by {
                                if di < pre_changes.len() {
                                    assert(changes@[di] == pre_changes[di]);
                                    assert(changes_maximal(cur, w, pre_changes));
                                } else {
                                    assert(changes@[di] == d);
                                }
                            }
                        }
                    }
                },
                None => {
                    proof {
                        assert forall|p: int|
                            0 <= p < w * h && dirty_at(cur, prev, whole_screen, p) implies exists|di: int|
                            0 <= di < changes@.len() && diff_covers(
                                #[trigger] changes@[di],
                                w,
                                p,
                            ) by {
                            assert(p < pre_pos || !dirty_at(cur, prev, whole_screen, p));
                        }
                        assert(changes_sound(cur, w, h, changes@));
                        assert(changes_complete(cur, prev, whole_screen, w, h, changes@));
                    }
                    return changes;
                },
            }
        }
    }

    /// Ends a frame: hands back what the terminal must do, makes the
    /// in-progress grid the shown one, and drops the pending full-repaint
    /// flag.
    pub fn commit(&mut self) -> (r: CommitOutput)
        requires
            old(self).wf(),
        ensures
            final(self).wf(),
            r.clear_screen == old(self).should_redraw_everything,
            r.cursor_position == old(self).current_buffer.cursor_position,
            final(self).should_redraw_everything == false,
            final(self).current_buffer == old(self).current_buffer,
            final(self).previous_buffer.data@ == old(self).current_buffer.data@,
            final(self).previous_buffer.cursor_position == old(self).current_buffer.cursor_position,
            final(self).previous_buffer.width == old(self).current_buffer.width,
            final(self).previous_buffer.height == old(self).current_buffer.height,
            changes_sound(
                old(self).current_buffer.data@,
                old(self).current_buffer.width as int,
                old(self).current_buffer.height as int,
                r.changes@,
            ),
            changes_complete(
                old(self).current_buffer.data@,
                old(self).previous_buffer.data@,
                old(self).should_redraw_everything,
                old(self).current_buffer.width as int,
                old(self).current_buffer.height as int,
                r.changes@,
            ),
            changes_necessary(
                old(self).current_buffer.data@,
                old(self).previous_buffer.data@,
                old(self).should_redraw_everything,
                old(self).current_buffer.width as int,
                r.changes@,
            ),
            changes_ordered(old(self).current_buffer.width as int, r.changes@),
            changes_maximal(
                old(self).current_buffer.data@,
                old(self).current_buffer.width as int,
                r.changes@,
            ),
    {
        let whole_screen = self.should_redraw_everything;
        self.should_redraw_everything = false;
        let changes = self.get_changes(whole_screen);
        let cursor_position = self.current_buffer.cursor_position;
        self.previous_buffer.cursor_position = cursor_position;
        self.previous_buffer.copy_from(&self.current_buffer);
        CommitOutput { clear_screen: whole_screen, changes, cursor_position }
    }
}

} // verus!
