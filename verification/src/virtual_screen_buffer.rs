//! A fixed-size grid of styled character cells with bounded writes: the
//! in-memory screen that the view composer draws into and the diff pass
//! reads from.

use vstd::prelude::*;

use crate::virtual_screen::{default_cell, styled_cell, Color, ScreenCell};

verus! {

/// A `width` by `height` grid of cells in row-major order, with the cursor
/// position the composed frame asks for, or none to hide the cursor.
#[derive(Debug, Clone)]
pub struct VirtualScreenBuffer {
    pub width: usize,
    pub height: usize,
    pub data: Vec<ScreenCell>,
    pub cursor_position: Option<(usize, usize)>,
}

/// A coordinate pair in bounds names a cell of the grid.
pub proof fn lemma_grid_index(width: int, height: int, x: int, y: int)
    requires
        0 <= x < width,
        0 <= y < height,
    ensures
        0 <= x + y * width < width * height,
{
    assert(x + y * width < width * height) by (nonlinear_arith)
        requires
            0 <= x < width,
            0 <= y < height,
    ;
    assert(x + y * width >= 0) by (nonlinear_arith)
        requires
            0 <= x,
            0 <= y,
            0 <= width,
    ;
}

/// The grid that results from writing `chars` with colors `fg`/`bg` from
/// position `(x, y)`, where a newline returns to column `start_x` on the
/// next row and the first character falling outside the grid stops the
/// whole write.
pub open spec fn write_run(
    data: Seq<ScreenCell>,
    width: int,
    height: int,
    start_x: int,
    x: int,
    y: int,
    chars: Seq<char>,
    fg: Color,
    bg: Color,
) -> Seq<ScreenCell>
    decreases chars.len(),
{
    if chars.len() == 0 {
        data
    } else if x >= width || y >= height {
        data
    } else if chars[0] == '\n' {
        write_run(data, width, height, start_x, start_x, y + 1, chars.drop_first(), fg, bg)
    } else {
        write_run(
            data.update(x + y * width, styled_cell(fg, bg, chars[0])),
            width,
            height,
            start_x,
            x + 1,
            y,
            chars.drop_first(),
            fg,
            bg,
        )
    }
}

/// A write never touches a cell before its starting position: writing moves
/// only rightward and downward.
pub proof fn lemma_write_run_preserves_before(
    data: Seq<ScreenCell>,
    width: int,
    height: int,
    start_x: int,
    x: int,
    y: int,
    chars: Seq<char>,
    fg: Color,
    bg: Color,
    i: int,
)
    requires
        0 <= start_x,
        0 <= x,
        0 <= y,
        0 <= width,
        data.len() == width * height,
        0 <= i < x + y * width,
    ensures
        write_run(data, width, height, start_x, x, y, chars, fg, bg)[i] == data[i],
    decreases chars.len(),
{
    broadcast use vstd::seq::group_seq_axioms;

    if chars.len() == 0 || x >= width || y >= height {
    } else if chars[0] == '\n' {
        assert((y + 1) * width == y * width + width) by (nonlinear_arith);
        lemma_write_run_preserves_before(
            data,
            width,
            height,
            start_x,
            start_x,
            y + 1,
            chars.drop_first(),
            fg,
            bg,
            i,
        );
    } else {
        lemma_grid_index(width, height, x, y);
        let updated = data.update(x + y * width, styled_cell(fg, bg, chars[0]));
        assert(updated.len() == data.len());
        assert(updated[i] == data[i]);
        lemma_write_run_preserves_before(
            updated,
            width,
            height,
            start_x,
            x + 1,
            y,
            chars.drop_first(),
            fg,
            bg,
            i,
        );
    }
}

/// A write of text without line breaks puts exactly its characters into the
/// row it starts in, one cell each, as far as the row reaches.
pub proof fn lemma_write_run_no_newline(
    data: Seq<ScreenCell>,
    width: int,
    height: int,
    start_x: int,
    x0: int,
    y: int,
    chars: Seq<char>,
    fg: Color,
    bg: Color,
    j: int,
)
    requires
        crate::text::no_newline(chars),
        0 <= start_x,
        0 <= x0,
        0 <= y < height,
        data.len() == width * height,
        0 <= j < chars.len(),
        x0 + j < width,
    ensures
        write_run(data, width, height, start_x, x0, y, chars, fg, bg)[x0 + j + y * width]
            == styled_cell(fg, bg, chars[j]),
    decreases j,
{
    broadcast use vstd::seq::group_seq_axioms;

    assert(chars[0] != '\n');
    lemma_grid_index(width, height, x0, y);
    let updated = data.update(x0 + y * width, styled_cell(fg, bg, chars[0]));
    assert(updated.len() == data.len());
    assert(updated[x0 + y * width] == styled_cell(fg, bg, chars[0]));
    if j == 0 {
        lemma_write_run_preserves_before(
            updated,
            width,
            height,
            start_x,
            x0 + 1,
            y,
            chars.drop_first(),
            fg,
            bg,
            x0 + y * width,
        );
    } else {
        assert(crate::text::no_newline(chars.drop_first())) by {
            assert(forall|k: int|
                0 <= k < chars.drop_first().len() ==> #[trigger] chars.drop_first()[k] == chars[k
                    + 1]);
        }
        lemma_write_run_no_newline(
            updated,
            width,
            height,
            start_x,
            x0 + 1,
            y,
            chars.drop_first(),
            fg,
            bg,
            j - 1,
        );
        assert(chars.drop_first()[j - 1] == chars[j]);
    }
}

/// The characters of row `y`, left to right.
pub open spec fn row_chars(data: Seq<ScreenCell>, width: int, y: int) -> Seq<char> {
    Seq::new(width as nat, |x: int| data[x + y * width].char)
}

/// The text of the first `rows` rows, each followed by a newline.
pub open spec fn buffer_text(data: Seq<ScreenCell>, width: int, rows: int) -> Seq<char>
    decreases rows,
{
    if rows <= 0 {
        Seq::empty()
    } else {
        buffer_text(data, width, rows - 1) + row_chars(data, width, rows - 1).push('\n')
    }
}

impl VirtualScreenBuffer {
    /// The grid holds exactly one cell per coordinate pair.
    pub open spec fn wf(&self) -> bool {
        self.data@.len() == self.width * self.height
    }

    /// The cell at `(x, y)`.
    pub open spec fn cell_at(&self, x: int, y: int) -> ScreenCell {
        self.data@[x + y * self.width]
    }

    /// A fresh buffer of default cells with a hidden cursor.
    pub fn new(width: usize, height: usize) -> (r: VirtualScreenBuffer)
        requires
            width * height <= usize::MAX,
        ensures
            r.wf(),
            r.width == width,
            r.height == height,
            r.cursor_position is None,
            forall|i: int| 0 <= i < r.data@.len() ==> r.data@[i] == default_cell(),
    {
        let total = width * height;
        let mut data: Vec<ScreenCell> = Vec::new();
        let mut i: usize = 0;
        while i < total
            invariant
                0 <= i <= total,
                data@.len() == i,
                forall|j: int| 0 <= j < i ==> data@[j] == default_cell(),
            decreases total - i,
        {
            data.push(ScreenCell::default());
            i = i + 1;
        }
        VirtualScreenBuffer { width, height, data, cursor_position: None }
    }

    /// The grid's width and height.
    pub fn get_size(&self) -> (r: (usize, usize))
        ensures
            r.0 == self.width,
            r.1 == self.height,
    {
        (self.width, self.height)
    }

    /// Resets every cell to the default and hides the cursor.
    pub fn clear(&mut self)
        requires
            old(self).wf(),
        ensures
            final(self).wf(),
            final(self).width == old(self).width,
            final(self).height == old(self).height,
            final(self).cursor_position is None,
            forall|i: int| 0 <= i < final(self).data@.len() ==> final(self).data@[i] == default_cell(),
    {
        let total = self.data.len();
        let mut i: usize = 0;
        while i < total
            invariant
                0 <= i <= total,
                total == self.data@.len(),
                self.width == old(self).width,
                self.height == old(self).height,
                self.data@.len() == old(self).data@.len(),
                self.cursor_position == old(self).cursor_position,
                forall|j: int| 0 <= j < i ==> self.data@[j] == default_cell(),
            decreases total - i,
        {
            self.data.set(i, ScreenCell::default());
            i = i + 1;
        }
        self.cursor_position = None;
    }

    /// Copies the other grid's cells into this one. Both grids must have
    /// the same shape; the cursor is not copied.
    pub fn copy_from(&mut self, other: &VirtualScreenBuffer)
        requires
            old(self).wf(),
            other.wf(),
            old(self).width == other.width,
            old(self).height == other.height,
        ensures
            final(self).wf(),
            final(self).width == old(self).width,
            final(self).height == old(self).height,
            final(self).cursor_position == old(self).cursor_position,
            final(self).data@ == other.data@,
    {
        let total = other.data.len();
        let mut i: usize = 0;
        while i < total
            invariant
                0 <= i <= total,
                total == other.data@.len(),
                self.width == old(self).width,
                self.height == old(self).height,
                self.data@.len() == old(self).data@.len(),
                old(self).data@.len() == other.data@.len(),
                self.cursor_position == old(self).cursor_position,
                forall|j: int| 0 <= j < i ==> self.data@[j] == other.data@[j],
            decreases total - i,
        {
            self.data.set(i, other.data[i]);
            i = i + 1;
        }
        proof {
            assert(self.data@ =~= other.data@);
        }
    }

    /// Writes one cell. The coordinates must be in bounds: writing outside
    /// the grid is a contract violation, not a runtime path.
    pub fn set_block(&mut self, x: usize, y: usize, block: ScreenCell)
        requires
            old(self).wf(),
            x < old(self).width,
            y < old(self).height,
        ensures
            final(self).wf(),
            final(self).width == old(self).width,
            final(self).height == old(self).height,
            final(self).cursor_position == old(self).cursor_position,
            final(self).data@ == old(self).data@.update(x + y * old(self).width, block),
    {
        let total = self.data.len();
        proof {
            lemma_grid_index(self.width as int, self.height as int, x as int, y as int);
            assert(x as int + (y as int) * (self.width as int) < total as int);
        }
        let index = x + y * self.width;
        self.data.set(index, block);
    }

    /// Reads one cell. The coordinates must be in bounds.
    pub fn get_block(&self, x: usize, y: usize) -> (r: ScreenCell)
        requires
            self.wf(),
            x < self.width,
            y < self.height,
        ensures
            r == self.cell_at(x as int, y as int),
    {
        let total = self.data.len();
        proof {
            lemma_grid_index(self.width as int, self.height as int, x as int, y as int);
            assert(x as int + (y as int) * (self.width as int) < total as int);
        }
        let index = x + y * self.width;
        self.data[index]
    }

    /// Writes a string with default colors; see
    /// [`VirtualScreenBuffer::write_str_color`].
    pub fn write_str(&mut self, x: usize, y: usize, value: &str)
        requires
            old(self).wf(),
        ensures
            final(self).wf(),
            final(self).width == old(self).width,
            final(self).height == old(self).height,
            final(self).cursor_position == old(self).cursor_position,
            final(self).data@ == write_run(
                old(self).data@,
                old(self).width as int,
                old(self).height as int,
                x as int,
                x as int,
                y as int,
                value@,
                Color::Reset,
                Color::Reset,
            ),
            forall|p: int|
                0 <= p < y * old(self).width ==> final(self).data@[p] == old(self).data@[p],
    {
        self.write_str_color(x, y, value, Color::Reset, Color::Reset);
    }

    /// Writes a string from `(start_x, start_y)`: newlines drop to the next
    /// row at column `start_x`, and the first character that falls past the
    /// grid's edge truncates the rest of the write.
    #[verifier::loop_isolation(false)]
    pub fn write_str_color(&mut self, start_x: usize, start_y: usize, value: &str, fg: Color, bg:
        Color)
        requires
            old(self).wf(),
        ensures
            final(self).wf(),
            final(self).width == old(self).width,
            final(self).height == old(self).height,
            final(self).cursor_position == old(self).cursor_position,
            final(self).data@ == write_run(
                old(self).data@,
                old(self).width as int,
                old(self).height as int,
                start_x as int,
                start_x as int,
                start_y as int,
                value@,
                fg,
                bg,
            ),
            forall|p: int|
                0 <= p < start_y * old(self).width ==> final(self).data@[p] == old(self).data@[p],
    {
        let ghost w = old(self).width as int;
        let ghost h = old(self).height as int;
        let ghost target = write_run(
            old(self).data@,
            w,
            h,
            start_x as int,
            start_x as int,
            start_y as int,
            value@,
            fg,
            bg,
        );
        let mut x = start_x;
        let mut y = start_y;
        let len = value.unicode_len();
        let mut i: usize = 0;
        proof {
            assert(value@.skip(0) =~= value@);
        }
        while i < len
            invariant
                0 <= i <= len,
                self.width == old(self).width,
                self.height == old(self).height,
                self.cursor_position == old(self).cursor_position,
                self.wf(),
                target == write_run(
                    self.data@,
                    w,
                    h,
                    start_x as int,
                    x as int,
                    y as int,
                    value@.skip(i as int),
                    fg,
                    bg,
                ),
            decreases len - i,
        {
            if x >= self.width || y >= self.height {
                proof {
                    assert(target == self.data@);
                    assert forall|p: int|
                        0 <= p < start_y * old(self).width implies self.data@[p] == old(
                        self,
                    ).data@[p] by {
                        lemma_write_run_preserves_before(
                            old(self).data@,
                            w,
                            h,
                            start_x as int,
                            start_x as int,
                            start_y as int,
                            value@,
                            fg,
                            bg,
                            p,
                        );
                    }
                }
                return ;
            }
            let c = value.get_char(i);
            proof {
                assert(value@.skip(i as int)[0] == value@[i as int]);
                assert(value@.skip(i as int).drop_first() =~= value@.skip(i as int + 1));
            }
            if c == '\n' {
                y = y + 1;
                x = start_x;
            } else {
                self.set_block(x, y, ScreenCell { fg, bg, char: c });
                x = x + 1;
            }
            i = i + 1;
        }
        proof {
            assert(value@.skip(len as int).len() == 0);
            assert(target == self.data@);
            assert forall|p: int|
                0 <= p < start_y * old(self).width implies self.data@[p] == old(self).data@[p] by {
                lemma_write_run_preserves_before(
                    old(self).data@,
                    w,
                    h,
                    start_x as int,
                    start_x as int,
                    start_y as int,
                    value@,
                    fg,
                    bg,
                    p,
                );
            }
        }
    }

    /// The whole grid as text: each row's characters, top to bottom, each
    /// row followed by a newline.
    #[verifier::loop_isolation(false)]
    pub fn show(&self) -> (r: String)
        requires
            self.wf(),
        ensures
            r@ == buffer_text(self.data@, self.width as int, self.height as int),
    {
        let ghost w = self.width as int;
        let mut chars: Vec<char> = Vec::new();
        let mut y: usize = 0;
        while y < self.height
            invariant
                0 <= y <= self.height,
                chars@ =~= buffer_text(self.data@, w, y as int),
            decreases self.height - y,
        {
            let mut x: usize = 0;
            while x < self.width
                invariant
                    0 <= x <= self.width,
                    y < self.height,
                    chars@ =~= buffer_text(self.data@, w, y as int) + row_chars(
                        self.data@,
                        w,
                        y as int,
                    ).subrange(0, x as int),
                decreases self.width - x,
            {
                chars.push(self.get_block(x, y).char);
                proof {
                    assert(chars@ =~= buffer_text(self.data@, w, y as int) + row_chars(
                        self.data@,
                        w,
                        y as int,
                    ).subrange(0, x as int + 1));
                }
                x = x + 1;
            }
            chars.push('\n');
            proof {
                assert(row_chars(self.data@, w, y as int).subrange(0, w) =~= row_chars(
                    self.data@,
                    w,
                    y as int,
                ));
                assert(chars@ =~= buffer_text(self.data@, w, y as int + 1));
            }
            y = y + 1;
        }
        crate::text::chars_to_string(&chars)
    }
}

} // verus!
