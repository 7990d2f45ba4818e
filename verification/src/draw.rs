//! The layout of the screen: the minimap of the sheet around the current
//! cell, the column or row being walked, the status line, and the command
//! line. Drawing changes the layout fields of the editor (the margin, the
//! scroll offset, the corner of the minimap) and yields a [`Frame`] that
//! says what goes where on the terminal.

use vstd::prelude::*;
use crate::mode::{InputMode, Mode, ModeView, ViewMode, has_cell};
use crate::record::record_get;
use crate::text::{pad_right, padded, truncate, truncated};

verus! {

/// The colours of the screen: `Norm` white on black, `Red` red on black,
/// `Invr` black on light grey, `Dull` grey on black.
#[derive(Clone, Copy, PartialEq, Eq, Structural)]
pub enum Style {
    Norm,
    Red,
    Invr,
    Dull,
}

/// What a square of the minimap shows.
#[derive(Clone, Copy, PartialEq, Eq, Structural)]
pub enum MiniCell {
    /// The current cell (inverted, a crossed square).
    Current,
    /// Another cell of the column or row being walked (inverted, a full
    /// square).
    Line,
    /// Any other cell (an empty square), dull where the sheet has no cell
    /// there.
    Other { exists: bool },
}

/// A square of the minimap, and whether the normal colour comes back
/// before the space that follows it.
#[derive(Clone, Copy, PartialEq, Eq, Structural)]
pub struct MiniSquare {
    pub cell: MiniCell,
    pub reset: bool,
}

/// One line of the minimap, drawn from column 2 of screen row `at`.
pub struct MiniRow {
    pub at: u16,
    pub squares: Vec<MiniSquare>,
}

/// The minimap: its lines, and its frame, whose corners carry the first and
/// last row (`top`, `bottom`) and column (`left`, `right`) that it shows,
/// written in fields of `pad` characters.
pub struct MinimapFrame {
    pub rows: Vec<MiniRow>,
    pub width: u16,
    pub pad: u16,
    pub top: u16,
    pub left: u16,
    pub right: u16,
    pub bottom: u16,
    pub bottom_at: u16,
    pub corner_col: u16,
    pub corner_at: u16,
    pub below_at: u16,
    /// Screen rows under the minimap that are blanked, `width` spaces each.
    pub blank_rows: Vec<u16>,
}

/// A line of the column or row being walked: on screen row `at`, from
/// column `margin`, the number `label` of the row or column, then `text`
/// in `style`.
pub struct BodyLine {
    pub at: u16,
    pub label: u16,
    pub text: String,
    pub style: Style,
}

/// The column or row being walked, then the status line on screen row
/// `status_at` with the current row and column, then the terminal cursor
/// put at `cursor` (column, row).
pub struct BodyFrame {
    pub margin: u16,
    pub lines: Vec<BodyLine>,
    pub status_at: u16,
    pub row: u16,
    pub col: u16,
    pub cursor: (u16, u16),
}

/// What one drawing puts on the terminal.
pub enum Frame {
    /// Normal or insert mode: the cursor is hidden, then the minimap where
    /// it is shown, then the body unless the bottom line is to be kept.
    Sheet { minimap: Option<MinimapFrame>, body: Option<BodyFrame> },
    /// Command mode: on screen row `at`, cleared, a colon and `text`, and the
    /// cursor at column `cursor_col`.
    Command { at: u16, text: String, cursor_col: u16 },
    /// Nothing is drawn.
    Blank,
}

impl ModeView {
    /// The corner of the minimap after its first adjustment: a page back
    /// where the current cell is before it, but not below 0.
    pub open spec fn corner_back(self) -> (int, int) {
        let mw = self.minimap_width as int;
        let mh = self.minimap_height as int;
        let p0 = self.mode_pos.0 as int;
        let p1 = self.mode_pos.1 as int;
        let a0 = if self.position.0 < p0 {
            (if p0 > mw { p0 } else { mw }) - mw
        } else {
            p0
        };
        let a1 = if self.position.1 < p1 {
            (if p1 > mh { p1 } else { mh }) - mh
        } else {
            p1
        };
        (a0, a1)
    }

    /// The corner of the minimap after drawing: it moves back a page where
    /// the current cell is before it, then on a page where the current cell
    /// is past it.
    pub open spec fn minimap_corner(self) -> (u16, u16) {
        let (a0, a1) = self.corner_back();
        let b0 = if self.position.0 >= a0 + self.minimap_width {
            a0 + self.minimap_width
        } else {
            a0
        };
        let b1 = if self.position.1 >= a1 + self.minimap_height {
            a1 + self.minimap_height
        } else {
            a1
        };
        (b0 as u16, b1 as u16)
    }

    /// The index of the current cell along the line being walked: its row
    /// in column view, its column in row view.
    pub open spec fn down(self) -> u16 {
        match self.view {
            ViewMode::Column => self.position.1,
            ViewMode::Row => self.position.0,
        }
    }

    /// The scroll offset after drawing: the least change that keeps the
    /// current cell among the `dims.1 - 1` lines of the body.
    pub open spec fn scrolled(self) -> u16 {
        let down = self.down();
        let o1: u16 = if down < self.offset {
            down
        } else {
            self.offset
        };
        if down - o1 > self.dims.1 - 2 {
            (down + 2 - self.dims.1) as u16
        } else {
            o1
        }
    }

    /// Whether the sheet is drawn (normal and insert mode).
    pub open spec fn shows_sheet(self) -> bool {
        self.input == InputMode::Normal || self.input == InputMode::Insert
    }

    /// The state after drawing: in normal and insert mode the margin is
    /// set by the minimap, its corner follows the current cell, and the
    /// scroll offset follows it too unless the bottom line is kept.
    pub open spec fn drawn(self) -> ModeView {
        if self.shows_sheet() {
            self.sheet_drawn()
        } else {
            self
        }
    }

    /// The state after the sheet is drawn: the margin is set by the
    /// minimap, its corner follows the current cell, and the scroll offset
    /// follows it too unless the bottom line is kept.
    pub open spec fn sheet_drawn(self) -> ModeView {
        let m1 = if self.minimap {
            ModeView {
                margin: (self.minimap_width * 2 + 3 - 1) as u16,
                mode_pos: self.minimap_corner(),
                ..self
            }
        } else {
            ModeView { margin: 0, ..self }
        };
        if !self.no_clear {
            ModeView { offset: m1.scrolled(), ..m1 }
        } else {
            m1
        }
    }

    /// The margin left of the body after drawing: the minimap's width
    /// less one, or 0 without minimap.
    pub open spec fn margin_after(self) -> u16 {
        if self.minimap {
            (self.minimap_width * 2 + 3 - 1) as u16
        } else {
            0
        }
    }

    /// The minimap is at least one column wide, and it and its corner
    /// stay within 16 bits.
    pub open spec fn minimap_fits(self) -> bool {
        let mw = self.minimap_width;
        let mh = self.minimap_height;
        let (a0, a1) = self.corner_back();
        let c = self.minimap_corner();
        &&& 1 <= mw
        &&& mw * 2 + 3 <= u16::MAX
        &&& mh + 4 <= u16::MAX
        &&& a0 + mw <= u16::MAX
        &&& a1 + mh <= u16::MAX
        &&& c.0 + mw <= u16::MAX
        &&& c.1 + mh <= u16::MAX
        &&& 1 <= c.1 + mh
        &&& 1 <= self.dims.1
    }

    /// The terminal has two rows and is wider than the margin and the line
    /// numbers, and the scrolled lines and the cursor stay within 16 bits.
    pub open spec fn body_fits(self) -> bool {
        let down = self.down();
        let o1 = if down < self.offset {
            down
        } else {
            self.offset
        };
        &&& 2 <= self.dims.1
        &&& down - o1 > self.dims.1 - 2 ==> down + 2 <= u16::MAX
        &&& self.scrolled() + self.dims.1 - 2 <= u16::MAX
        &&& self.margin_after() + 5 <= self.dims.0
        &&& self.margin_after() + 6 + self.cursor.0 <= u16::MAX
    }

    /// Drawing stays within 16 bits and within the terminal: in command
    /// mode the cursor column fits; in normal and insert mode the minimap
    /// where it is shown, and the body unless the bottom line is kept.
    pub open spec fn can_draw(self) -> bool {
        if self.input == InputMode::Command {
            self.cursor.0 + 2 <= u16::MAX
        } else if self.shows_sheet() {
            self.can_draw_sheet()
        } else {
            true
        }
    }

    /// Drawing the sheet stays within 16 bits and within the terminal: the
    /// minimap where it is shown, and the body unless the bottom line is
    /// kept.
    pub open spec fn can_draw_sheet(self) -> bool {
        &&& self.minimap ==> self.minimap_fits()
        &&& !self.no_clear ==> self.body_fits()
    }

    /// The square of the minimap `x` columns and `j` rows from its corner,
    /// once drawn.
    pub open spec fn square(self, x: int, j: int) -> MiniSquare {
        let xx = self.mode_pos.0 + x;
        let yy = self.mode_pos.1 + j;
        MiniSquare {
            cell: if xx == self.position.0 && yy == self.position.1 {
                MiniCell::Current
            } else if (xx == self.position.0 && self.view == ViewMode::Column) || (yy
                == self.position.1 && self.view == ViewMode::Row) {
                MiniCell::Line
            } else {
                MiniCell::Other { exists: has_cell(self.cells, xx, yy) }
            },
            reset: x == self.minimap_width - 1 || self.view == ViewMode::Column,
        }
    }

    /// The cell shown on body line `i`, once drawn: (column, row).
    pub open spec fn line_cell(self, i: int) -> (int, int) {
        match self.view {
            ViewMode::Column => (self.position.0 as int, i + self.offset),
            ViewMode::Row => (i + self.offset, self.position.1 as int),
        }
    }

    /// The width of the text of a body line.
    pub open spec fn text_width(self) -> int {
        self.dims.0 - self.margin - 5
    }

    /// The text of body line `i`: the cell being edited shows the command
    /// line; a cell shows its text; where the sheet has no cell, a pilcrow.
    pub open spec fn line_text(self, i: int) -> Seq<char> {
        let (x, y) = self.line_cell(i);
        let active = x == self.position.0 && y == self.position.1;
        let text = if active && self.input == InputMode::Insert {
            self.command
        } else if has_cell(self.cells, x, y) {
            self.cells[y][x]
        } else {
            "¶"@
        };
        padded(truncated(text, self.text_width()), self.text_width())
    }

    /// The style of body line `i`: in normal mode the current cell is
    /// inverted and a cell missing from an existing row is red; while a
    /// cell is edited it alone is in the normal colour and the rest dull.
    pub open spec fn line_style(self, i: int) -> Style {
        let (x, y) = self.line_cell(i);
        let active = x == self.position.0 && y == self.position.1;
        let invalid = 0 <= y < self.cells.len() && !has_cell(self.cells, x, y);
        if self.input == InputMode::Normal {
            if active {
                Style::Invr
            } else if invalid {
                Style::Red
            } else {
                Style::Norm
            }
        } else {
            if active {
                Style::Norm
            } else {
                Style::Dull
            }
        }
    }

    /// The number shown before body line `i`: the row in column view, the
    /// column in row view.
    pub open spec fn line_label(self, i: int) -> int {
        let (x, y) = self.line_cell(i);
        match self.view {
            ViewMode::Column => y,
            ViewMode::Row => x,
        }
    }
}

/// Whether a body line is line `i` of the drawn state `d`.
pub open spec fn body_line_is(l: BodyLine, d: ModeView, i: int) -> bool {
    &&& l.at == i + 1
    &&& l.label == d.line_label(i)
    &&& l.text@ == d.line_text(i)
    &&& l.style == d.line_style(i)
}

/// Whether `f` is the minimap of the drawn state `d`.
pub open spec fn minimap_is(f: MinimapFrame, d: ModeView) -> bool {
    let mw = d.minimap_width as int;
    let mh = d.minimap_height as int;
    &&& f.rows@.len() == mh
    &&& forall|j: int|
        0 <= j < mh ==> {
            &&& (#[trigger] f.rows@[j]).at == j + 3
            &&& f.rows@[j].squares@.len() == mw
            &&& forall|x: int| 0 <= x < mw ==> f.rows@[j].squares@[x] == d.square(x, j)
        }
    &&& f.width == mw * 2 + 3
    &&& f.pad == mw * 2 - 1
    &&& f.top == d.mode_pos.1
    &&& f.left == d.mode_pos.0
    &&& f.right == d.mode_pos.0 + mw - 1
    &&& f.bottom == d.mode_pos.1 + mh - 1
    &&& f.bottom_at == mh + 3
    &&& f.corner_col == mw * 2 + 1
    &&& f.corner_at == mh + 2
    &&& f.below_at == mh + 4
    &&& f.blank_rows@ == Seq::new(
        (if d.dims.1 - 1 > mh + 4 { d.dims.1 - 1 - (mh + 4) } else { 0 }) as nat,
        |k: int| (mh + 5 + k) as u16,
    )
}

/// Whether `f` is the body of the drawn state `d`.
pub open spec fn body_is(f: BodyFrame, d: ModeView) -> bool {
    &&& f.margin == d.margin
    &&& f.lines@.len() == d.dims.1 - 1
    &&& forall|i: int| 0 <= i < d.dims.1 - 1 ==> body_line_is(#[trigger] f.lines@[i], d, i)
    &&& f.status_at == d.dims.1
    &&& f.row == d.position.1
    &&& f.col == d.position.0
    &&& f.cursor.0 == d.margin + 6 + d.cursor.0
    &&& f.cursor.1 == d.down() - d.offset + 1
}

/// Whether `f` is what drawing the state `m` shows.
pub open spec fn frame_is(f: Frame, m: ModeView) -> bool {
    match f {
        Frame::Sheet { .. } => m.shows_sheet() && sheet_frame_is(f, m),
        Frame::Command { .. } => m.input == InputMode::Command && command_frame_is(f, m),
        Frame::Blank => m.input == InputMode::Select,
    }
}

/// Whether `f` is the sheet drawn from the state `m`: its minimap where the
/// minimap is shown, its body unless the bottom line is kept.
pub open spec fn sheet_frame_is(f: Frame, m: ModeView) -> bool {
    let d = m.sheet_drawn();
    match f {
        Frame::Sheet { minimap, body } => {
            &&& (minimap matches Some(mf) ==> minimap_is(mf, d))
            &&& (minimap is Some <==> m.minimap)
            &&& (body matches Some(bf) ==> body_is(bf, d))
            &&& (body is Some <==> !m.no_clear)
        },
        _ => false,
    }
}

/// Whether `f` is the command line of the state `m`: on the bottom row, the
/// command, the cursor two columns on from its byte offset.
pub open spec fn command_frame_is(f: Frame, m: ModeView) -> bool {
    match f {
        Frame::Command { at, text, cursor_col } => {
            &&& at == m.dims.1
            &&& text@ == m.command
            &&& cursor_col == m.cursor.0 + 2
        },
        _ => false,
    }
}


/// Builds the lines of the minimap of the drawn state `d`.
fn minimap_rows(mode: &Mode) -> (rows: Vec<MiniRow>)
    requires
        mode.minimap_height + 1 <= u16::MAX,
        mode.mode_pos.0 + mode.minimap_width <= u16::MAX,
        mode.mode_pos.1 + mode.minimap_height <= u16::MAX,
        mode.minimap_height + 4 <= u16::MAX,
    ensures
        rows@.len() == mode.minimap_height,
        forall|j: int|
            0 <= j < mode.minimap_height ==> {
                &&& (#[trigger] rows@[j]).at == j + 3
                &&& rows@[j].squares@.len() == mode.minimap_width
                &&& forall|x: int|
                    0 <= x < mode.minimap_width ==> rows@[j].squares@[x] == mode@.square(x, j)
            },
{
    let mw = mode.minimap_width;
    let mh = mode.minimap_height;
    let pos = mode.mode_pos;
    let mut rows: Vec<MiniRow> = Vec::new();
    let mut y: u16 = 1;
    while y < mh + 1
        invariant
            mw == mode.minimap_width,
            mh == mode.minimap_height,
            pos == mode.mode_pos,
            mh + 4 <= u16::MAX,
            pos.0 + mw <= u16::MAX,
            pos.1 + mh <= u16::MAX,
            1 <= y <= mh + 1,
            rows@.len() == y - 1,
            forall|j: int|
                0 <= j < y - 1 ==> {
                    &&& (#[trigger] rows@[j]).at == j + 3
                    &&& rows@[j].squares@.len() == mw
                    &&& forall|x: int| 0 <= x < mw ==> rows@[j].squares@[x] == mode@.square(x, j)
                },
        decreases mh + 1 - y,
    {
        let mut squares: Vec<MiniSquare> = Vec::new();
        let mut x: u16 = 0;
        while x < mw
            invariant
                mw == mode.minimap_width,
                mh == mode.minimap_height,
                pos == mode.mode_pos,
                pos.0 + mw <= u16::MAX,
                pos.1 + mh <= u16::MAX,
                1 <= y <= mh,
                x <= mw,
                squares@.len() == x,
                forall|k: int| 0 <= k < x ==> squares@[k] == mode@.square(k, y - 1),
            decreases mw - x,
        {
            let xx = pos.0 + x;
            let yy = pos.1 + y - 1;
            let cell = if xx == mode.position.0 && yy == mode.position.1 {
                MiniCell::Current
            } else if (xx == mode.position.0 && mode.view == ViewMode::Column) || (yy
                == mode.position.1 && mode.view == ViewMode::Row) {
                MiniCell::Line
            } else {
                MiniCell::Other { exists: crate::mode::valid(&mode.cells, xx, yy) }
            };
            let reset = x == mw - 1 || mode.view == ViewMode::Column;
            squares.push(MiniSquare { cell, reset });
            x = x + 1;
        }
        rows.push(MiniRow { at: y + 2, squares });
        y = y + 1;
    }
    rows
}

/// The screen rows under the minimap, down to the status line, that are
/// blanked.
fn blank_rows(mh: u16, rows: u16) -> (r: Vec<u16>)
    requires
        mh + 4 <= u16::MAX,
        1 <= rows,
    ensures
        r@ == Seq::new(
            (if rows - 1 > mh + 4 { rows - 1 - (mh + 4) } else { 0 }) as nat,
            |k: int| (mh + 5 + k) as u16,
        ),
{
    let mut r: Vec<u16> = Vec::new();
    let mut y: u16 = mh + 4;
    while y < rows - 1
        invariant
            mh + 4 <= y,
            y <= rows - 1 || y == mh + 4,
            1 <= rows,
            r@ == Seq::new((y - (mh + 4)) as nat, |k: int| (mh + 5 + k) as u16),
        decreases rows - y,
    {
        r.push(y + 1);
        y = y + 1;
        assert(r@ =~= Seq::new((y - (mh + 4)) as nat, |k: int| (mh + 5 + k) as u16));
    }
    assert(r@ =~= Seq::new(
        (if rows - 1 > mh + 4 { rows - 1 - (mh + 4) } else { 0 }) as nat,
        |k: int| (mh + 5 + k) as u16,
    ));
    r
}

/// Draws the minimap: sets the margin right of it, moves its corner after
/// the current cell (see [`ModeView::minimap_corner`]) and lays it out.
fn minimap_draw(mode: &mut Mode) -> (f: MinimapFrame)
    requires
        old(mode)@.minimap_fits(),
    ensures
        final(mode)@ == (ModeView {
            margin: (old(mode).minimap_width * 2 + 3 - 1) as u16,
            mode_pos: old(mode)@.minimap_corner(),
            ..old(mode)@
        }),
        minimap_is(f, final(mode)@),
{
    let mw = mode.minimap_width;
    let mh = mode.minimap_height;
    let width = mw * 2 + 3;
    mode.margin = width - 1;
    let mut pos = mode.mode_pos;
    if mode.position.0 < pos.0 {
        pos.0 = (if pos.0 > mw { pos.0 } else { mw }) - mw;
    }
    if mode.position.1 < pos.1 {
        pos.1 = (if pos.1 > mh { pos.1 } else { mh }) - mh;
    }
    if mode.position.0 >= pos.0 + mw {
        pos.0 = pos.0 + mw;
    }
    if mode.position.1 >= pos.1 + mh {
        pos.1 = pos.1 + mh;
    }
    mode.mode_pos = pos;
    let rows = minimap_rows(mode);
    let blank = blank_rows(mh, mode.dims.1);
    MinimapFrame {
        rows,
        width,
        pad: width - 4,
        top: pos.1,
        left: pos.0,
        right: pos.0 + mw - 1,
        bottom: pos.1 + mh - 1,
        bottom_at: mh + 3,
        corner_col: width - 2,
        corner_at: mh + 2,
        below_at: mh + 4,
        blank_rows: blank,
    }
}


/// Draws the body: scrolls so that the current cell is on screen (see
/// [`ModeView::scrolled`]) and lays out its lines and the status line.
fn body_draw(mode: &mut Mode) -> (f: BodyFrame)
    requires
        old(mode).margin == old(mode)@.margin_after(),
        old(mode)@.body_fits(),
    ensures
        final(mode)@ == (ModeView { offset: old(mode)@.scrolled(), ..old(mode)@ }),
        body_is(f, final(mode)@),
{
    let down = match mode.view {
        ViewMode::Column => mode.position.1,
        ViewMode::Row => mode.position.0,
    };
    if down < mode.offset {
        mode.offset = down;
    }
    if down - mode.offset > mode.dims.1 - 2 {
        mode.offset = down + 2 - mode.dims.1;
    }
    let line = down - mode.offset;
    let ghost d = mode@;
    let mut lines: Vec<BodyLine> = Vec::new();
    let mut i: u16 = 0;
    while i < mode.dims.1 - 1
        invariant
            d == mode@,
            d.offset + d.dims.1 - 2 <= u16::MAX,
            d.margin + 5 <= d.dims.0,
            2 <= d.dims.1,
            i <= d.dims.1 - 1,
            lines@.len() == i,
            forall|k: int| 0 <= k < i ==> body_line_is(#[trigger] lines@[k], d, k),
        decreases d.dims.1 - 1 - i,
    {
        let n = match mode.view {
            ViewMode::Column => i + mode.offset,
            ViewMode::Row => mode.position.1,
        };
        let m = match mode.view {
            ViewMode::Row => i + mode.offset,
            ViewMode::Column => mode.position.0,
        };
        let active = m == mode.position.0 && n == mode.position.1;
        let (cell, invalid) = if (n as usize) < mode.cells.len() {
            match record_get(&mode.cells[n as usize], m as usize) {
                Some(cell) => (cell.to_string(), false),
                None => ("¶".to_string(), true),
            }
        } else {
            ("¶".to_string(), false)
        };
        let mlen = mode.dims.0 - mode.margin - 5;
        let cell = if active && mode.input == InputMode::Insert {
            mode.command.clone()
        } else {
            cell
        };
        let cut = truncate(cell.as_str(), mlen as usize);
        let text = pad_right(cut, mlen as usize);
        let style = if mode.input == InputMode::Normal {
            if active {
                Style::Invr
            } else if invalid {
                Style::Red
            } else {
                Style::Norm
            }
        } else {
            if active {
                Style::Norm
            } else {
                Style::Dull
            }
        };
        let l = match mode.view {
            ViewMode::Row => m,
            ViewMode::Column => n,
        };
        let ghost k = i as int;
        lines.push(BodyLine { at: i + 1, label: l, text, style });
        assert(body_line_is(lines@[k], d, k));
        i = i + 1;
    }
    BodyFrame {
        margin: mode.margin,
        lines,
        status_at: mode.dims.1,
        row: mode.position.1,
        col: mode.position.0,
        cursor: (mode.margin + 6 + mode.cursor.0, line + 1),
    }
}


/// Draws the sheet in normal and insert mode: the minimap where it is
/// shown, then the body unless the bottom line is to be kept.
pub fn normal_draw(mode: &mut Mode) -> (f: Frame)
    requires
        old(mode)@.can_draw_sheet(),
    ensures
        final(mode)@ == old(mode)@.sheet_drawn(),
        sheet_frame_is(f, old(mode)@),
{
    let ghost m0 = mode@;
    let minimap = if mode.minimap {
        Some(minimap_draw(mode))
    } else {
        mode.margin = 0;
        None
    };
    let ghost m1 = mode@;
    assert(m1.scrolled() == m0.scrolled());
    let body = if !mode.no_clear {
        Some(body_draw(mode))
    } else {
        None
    };
    let ghost d = mode@;
    assert(d == m0.sheet_drawn());
    proof {
        if minimap is Some {
            assert forall|x: int, j: int| #[trigger] d.square(x, j) == m1.square(x, j) by {}
            assert(minimap_is(minimap->0, d));
        }
    }
    Frame::Sheet { minimap, body }
}

/// Draws the command line.
pub fn command_draw(mode: &mut Mode) -> (f: Frame)
    requires
        old(mode).cursor.0 + 2 <= u16::MAX,
    ensures
        *final(mode) == *old(mode),
        command_frame_is(f, old(mode)@),
{
    Frame::Command {
        at: mode.dims.1,
        text: mode.command.clone(),
        cursor_col: mode.cursor.0 + 2,
    }
}

/// Draws the screen for the mode the editor is in: the new layout state is
/// [`ModeView::drawn`], what goes on the terminal is said by [`frame_is`].
pub fn draw(mode: &mut Mode) -> (f: Frame)
    requires
        old(mode)@.can_draw(),
    ensures
        final(mode)@ == old(mode)@.drawn(),
        frame_is(f, old(mode)@),
{
    match mode.input {
        InputMode::Normal => normal_draw(mode),
        InputMode::Command => command_draw(mode),
        InputMode::Insert => normal_draw(mode),
        InputMode::Select => Frame::Blank,
    }
}


impl Mode {
    /// Whether the minimap fits (see [`ModeView::minimap_fits`]).
    fn minimap_fits(&self) -> (b: bool)
        ensures
            b == self@.minimap_fits(),
    {
        let mw = self.minimap_width as u32;
        let mh = self.minimap_height as u32;
        let p0 = self.mode_pos.0 as u32;
        let p1 = self.mode_pos.1 as u32;
        let a0: u32 = if (self.position.0 as u32) < p0 {
            (if p0 > mw { p0 } else { mw }) - mw
        } else {
            p0
        };
        let a1: u32 = if (self.position.1 as u32) < p1 {
            (if p1 > mh { p1 } else { mh }) - mh
        } else {
            p1
        };
        if !(1 <= mw && mw * 2 + 3 <= 65535 && mh + 4 <= 65535 && a0 + mw <= 65535 && a1 + mh
            <= 65535) {
            return false;
        }
        let b0: u32 = if (self.position.0 as u32) >= a0 + mw {
            a0 + mw
        } else {
            a0
        };
        let b1: u32 = if (self.position.1 as u32) >= a1 + mh {
            a1 + mh
        } else {
            a1
        };
        b0 + mw <= 65535 && b1 + mh <= 65535 && 1 <= b1 + mh && 1 <= self.dims.1
    }

    /// Whether the body fits (see [`ModeView::body_fits`]).
    fn body_fits(&self) -> (b: bool)
        ensures
            b == self@.body_fits(),
    {
        if self.dims.1 < 2 {
            return false;
        }
        let down = match self.view {
            ViewMode::Column => self.position.1,
            ViewMode::Row => self.position.0,
        } as u32;
        let o1: u32 = if down < self.offset as u32 {
            down
        } else {
            self.offset as u32
        };
        let rows = self.dims.1 as u32;
        let o2: u32 = if down - o1 > rows - 2 {
            if down + 2 > 65535 {
                return false;
            }
            down + 2 - rows
        } else {
            o1
        };
        let margin: u32 = if self.minimap {
            ((self.minimap_width as u32 * 2 + 3 - 1) as u16) as u32
        } else {
            0
        };
        o2 + rows - 2 <= 65535 && margin + 5 <= self.dims.0 as u32 && margin + 6
            + self.cursor.0 as u32 <= 65535
    }

    /// Whether [`draw`] draws this state without a fault (see
    /// [`ModeView::can_draw`]).
    pub fn can_draw(&self) -> (b: bool)
        ensures
            b == self@.can_draw(),
    {
        match self.input {
            InputMode::Command => (self.cursor.0 as u32) + 2 <= 65535,
            InputMode::Normal | InputMode::Insert => {
                let map_ok = if self.minimap {
                    self.minimap_fits()
                } else {
                    true
                };
                let body_ok = if !self.no_clear {
                    self.body_fits()
                } else {
                    true
                };
                map_ok && body_ok
            },
            InputMode::Select => true,
        }
    }
}

} // verus!
