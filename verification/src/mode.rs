//! The state of the editor and how each key changes it.

use vstd::prelude::*;
use crate::record::{grid, lemma_grid_push, lemma_grid_update, record_clone, record_fields, record_get, record_len, record_new, record_push};
use crate::text::{byte_len, char_index, escape_default, escaped, on_boundary, string_insert, string_remove, text_byte_len, text_on_boundary};
use crate::words::{parse_u16, parsed_u16, same_text, split_words, words};

verus! {

/// How the sheet is walked: down a column or along a row.
#[derive(Clone, Copy, PartialEq, Eq, Structural)]
pub enum ViewMode {
    Column,
    Row,
}

/// What the keys do at the moment.
#[derive(Clone, Copy, PartialEq, Eq, Structural)]
pub enum InputMode {
    Normal,
    Insert,
    Command,
    Select,
}

/// A direction of movement.
#[derive(Clone, Copy, PartialEq, Eq, Structural)]
pub enum Dir {
    Up,
    Down,
    Left,
    Right,
}

/// A key as the editor tells keys apart; `Other` stands for every key that
/// no binding names (function keys, `Ctrl` and `Alt` chords, and the like).
#[derive(Clone, Copy, PartialEq, Eq, Structural)]
pub enum Key {
    Char(char),
    Left,
    Right,
    Up,
    Down,
    Backspace,
    Esc,
    Other,
}

/// What a key asks of the terminal or the file beside the new state.
pub enum Effect {
    /// Nothing more.
    Nothing,
    /// Write the sheet back to its file.
    Save,
    /// Show `code` on screen row `at` from `column` on, and clear the rest
    /// of that line.
    ShowKey { code: String, column: u16, at: u16 },
}

/// The meaning of an [`Effect`].
pub enum EffectView {
    Nothing,
    Save,
    ShowKey { code: Seq<char>, column: u16, at: u16 },
}

impl View for Effect {
    type V = EffectView;

    open spec fn view(&self) -> EffectView {
        match self {
            Effect::Nothing => EffectView::Nothing,
            Effect::Save => EffectView::Save,
            Effect::ShowKey { code, column, at } => EffectView::ShowKey {
                code: code@,
                column: *column,
                at: *at,
            },
        }
    }
}

/// The editor: the sheet, the cursor in it, the command line and the layout.
/// `position` is (column, row) of the current cell.
pub struct Mode {
    pub view: ViewMode,
    pub input: InputMode,
    pub position: (u16, u16),
    pub offset: u16,
    pub minimap: bool,
    pub minimap_width: u16,
    pub minimap_height: u16,
    pub dims: (u16, u16),
    pub margin: u16,
    pub paste: String,
    pub command: String,
    pub stale: bool,
    pub cursor: (u16, u16),
    pub exit: bool,
    pub no_clear: bool,
    pub mode_pos: (u16, u16),
    pub cells: Vec<csv::StringRecord>,
    pub cols: u16,
}

/// The editor as a mathematical value: texts as character sequences and the
/// sheet as rows of fields.
pub struct ModeView {
    pub view: ViewMode,
    pub input: InputMode,
    pub position: (u16, u16),
    pub offset: u16,
    pub minimap: bool,
    pub minimap_width: u16,
    pub minimap_height: u16,
    pub dims: (u16, u16),
    pub margin: u16,
    pub paste: Seq<char>,
    pub command: Seq<char>,
    pub stale: bool,
    pub cursor: (u16, u16),
    pub exit: bool,
    pub no_clear: bool,
    pub mode_pos: (u16, u16),
    pub cells: Seq<Seq<Seq<char>>>,
    pub cols: u16,
}

impl View for Mode {
    type V = ModeView;

    open spec fn view(&self) -> ModeView {
        ModeView {
            view: self.view,
            input: self.input,
            position: self.position,
            offset: self.offset,
            minimap: self.minimap,
            minimap_width: self.minimap_width,
            minimap_height: self.minimap_height,
            dims: self.dims,
            margin: self.margin,
            paste: self.paste@,
            command: self.command@,
            stale: self.stale,
            cursor: self.cursor,
            exit: self.exit,
            no_clear: self.no_clear,
            mode_pos: self.mode_pos,
            cells: grid(self.cells@),
            cols: self.cols,
        }
    }
}

/// The text of the cell in column `x` of row `y`; empty where the sheet has
/// no such cell.
pub open spec fn cell_at(g: Seq<Seq<Seq<char>>>, x: int, y: int) -> Seq<char> {
    if 0 <= y < g.len() && 0 <= x < g[y].len() {
        g[y][x]
    } else {
        Seq::empty()
    }
}

/// Whether the sheet has a cell in column `x` of row `y`.
pub open spec fn has_cell(g: Seq<Seq<Seq<char>>>, x: int, y: int) -> bool {
    0 <= y < g.len() && 0 <= x < g[y].len()
}

/// `n` empty fields.
pub open spec fn blank_row(n: int) -> Seq<Seq<char>> {
    Seq::new(n as nat, |i: int| Seq::<char>::empty())
}

/// The sheet after `txt` is written in column `x` of row `y`: a cell that
/// exists is replaced; a row too short is filled with empty fields up to
/// the new one; past the last row, empty rows as wide as the first row (or
/// as the new cell needs) are added up to a new row that holds `txt`.
pub open spec fn with_cell(
    g: Seq<Seq<Seq<char>>>,
    x: int,
    y: int,
    txt: Seq<char>,
    cols: int,
) -> Seq<Seq<Seq<char>>> {
    if y < g.len() {
        if x < g[y].len() {
            g.update(y, g[y].update(x, txt))
        } else {
            g.update(y, g[y] + blank_row(x - g[y].len()) + seq![txt])
        }
    } else {
        let width = if x + 1 > cols {
            x + 1
        } else {
            cols
        };
        g + Seq::new((y - g.len()) as nat, |i: int| blank_row(width)) + seq![
            blank_row(width).update(x, txt),
        ]
    }
}

impl ModeView {
    /// The text of the current cell.
    pub open spec fn current_cell(self) -> Seq<char> {
        cell_at(self.cells, self.position.0 as int, self.position.1 as int)
    }

    /// The sheet after `txt` is written in the current cell.
    pub open spec fn written(self, txt: Seq<char>) -> ModeView {
        ModeView {
            cells: with_cell(
                self.cells,
                self.position.0 as int,
                self.position.1 as int,
                txt,
                self.cols as int,
            ),
            ..self
        }
    }
}

impl ModeView {
    /// The position after a move in `dir`: in column view `Up` and `Down`
    /// walk the rows and `Left` goes to the next column, `Right` to the
    /// previous one; in row view the two axes swap. Nothing moves below 0.
    pub open spec fn moved(self, dir: Dir) -> ModeView {
        let ver = match self.view {
            ViewMode::Column => self.position.1,
            ViewMode::Row => self.position.0,
        };
        let hor = match self.view {
            ViewMode::Column => self.position.0,
            ViewMode::Row => self.position.1,
        };
        let new_ver: u16 = match dir {
            Dir::Up => if ver > 0 { (ver - 1) as u16 } else { ver },
            Dir::Down => (ver + 1) as u16,
            _ => ver,
        };
        let new_hor: u16 = match dir {
            Dir::Left => (hor + 1) as u16,
            Dir::Right => if hor > 0 { (hor - 1) as u16 } else { hor },
            _ => hor,
        };
        ModeView {
            position: match self.view {
                ViewMode::Column => (new_hor, new_ver),
                ViewMode::Row => (new_ver, new_hor),
            },
            ..self
        }
    }

    /// A move in `dir` stays within 16 bits.
    pub open spec fn can_move(self, dir: Dir) -> bool {
        let ver = match self.view {
            ViewMode::Column => self.position.1,
            ViewMode::Row => self.position.0,
        };
        let hor = match self.view {
            ViewMode::Column => self.position.0,
            ViewMode::Row => self.position.1,
        };
        match dir {
            Dir::Down => ver < u16::MAX,
            Dir::Left => hor < u16::MAX,
            _ => true,
        }
    }

    /// Command mode with an empty command line.
    pub open spec fn commanding(self) -> ModeView {
        ModeView { input: InputMode::Command, command: Seq::empty(), cursor: (0, 0), ..self }
    }

    /// Command mode with `text` on the command line and the cursor after it.
    pub open spec fn prompting(self, text: Seq<char>) -> ModeView {
        ModeView {
            input: InputMode::Command,
            command: text,
            cursor: ((byte_len(text)) as u16, 0),
            ..self
        }
    }

    /// Insert mode on the text of the current cell, the cursor at its start.
    pub open spec fn editing(self) -> ModeView {
        ModeView { input: InputMode::Insert, command: self.current_cell(), cursor: (0, 0), ..self }
    }

    /// Insert mode on the text of the current cell, the cursor after it.
    pub open spec fn appending(self) -> ModeView {
        ModeView {
            input: InputMode::Insert,
            command: self.current_cell(),
            cursor: ((byte_len(self.current_cell())) as u16, 0),
            ..self
        }
    }

    /// Insert mode on an empty text.
    pub open spec fn changing(self) -> ModeView {
        ModeView { input: InputMode::Insert, command: Seq::empty(), cursor: (0, 0), ..self }
    }

    /// The current cell is kept for pasting and emptied.
    pub open spec fn deleting(self) -> ModeView {
        ModeView { paste: self.current_cell(), ..self }.written(Seq::empty())
    }

    /// The current cell is kept for pasting.
    pub open spec fn yanking(self) -> ModeView {
        ModeView { paste: self.current_cell(), ..self }
    }

    /// The kept text is written in the current cell.
    pub open spec fn pasting(self) -> ModeView {
        self.written(self.paste)
    }

    /// The other view.
    pub open spec fn view_toggled(self) -> ModeView {
        ModeView {
            view: match self.view {
                ViewMode::Column => ViewMode::Row,
                ViewMode::Row => ViewMode::Column,
            },
            ..self
        }
    }

    /// The minimap shown where it was hidden and hidden where it was shown.
    pub open spec fn minimap_toggled(self) -> ModeView {
        ModeView { minimap: !self.minimap, ..self }
    }

    /// `c` inserted in the command line at the cursor, which then moves one
    /// byte on.
    pub open spec fn typed(self, c: char) -> ModeView {
        ModeView {
            command: self.command.insert(char_index(self.command, self.cursor.0 as int), c),
            cursor: ((self.cursor.0 + 1) as u16, self.cursor.1),
            ..self
        }
    }

    /// Typing `c` is defined: the cursor lies on a character boundary and
    /// can move one byte on.
    pub open spec fn can_type(self) -> bool {
        on_boundary(self.command, self.cursor.0 as int) && self.cursor.0 < u16::MAX
    }

    /// The character that starts one byte before the cursor removed, and the
    /// cursor moved back one byte; nothing at the start of the line.
    pub open spec fn erased(self) -> ModeView {
        if self.cursor.0 > 0 {
            ModeView {
                command: self.command.remove(char_index(self.command, self.cursor.0 - 1)),
                cursor: ((self.cursor.0 - 1) as u16, self.cursor.1),
                ..self
            }
        } else {
            self
        }
    }

    /// Erasing is defined: one byte before the cursor starts a character.
    pub open spec fn can_erase(self) -> bool {
        self.cursor.0 > 0 ==> on_boundary(self.command, self.cursor.0 - 1) && self.cursor.0 - 1
            < byte_len(self.command)
    }

    /// The cursor of the command line moved one byte left or right, within
    /// the line; up and down change nothing.
    pub open spec fn insert_moved(self, dir: Dir) -> ModeView {
        match dir {
            Dir::Left => if self.cursor.0 > 0 {
                ModeView { cursor: ((self.cursor.0 - 1) as u16, self.cursor.1), ..self }
            } else {
                self
            },
            Dir::Right => if self.cursor.0 < (byte_len(self.command)) as u16 {
                ModeView { cursor: ((self.cursor.0 + 1) as u16, self.cursor.1), ..self }
            } else {
                self
            },
            _ => self,
        }
    }

    /// Back to normal mode.
    pub open spec fn normal(self) -> ModeView {
        ModeView { input: InputMode::Normal, ..self }
    }

    /// A number argument of a command: absent, `default`; present, its value,
    /// or `current` where it is no `u16`.
    pub open spec fn number_arg(w: Seq<Seq<char>>, i: int, current: u16, default: u16) -> u16 {
        if w.len() > i {
            match parsed_u16(w[i]) {
                Some(v) => v,
                None => current,
            }
        } else {
            default
        }
    }

    /// The state after the command of words `w`: `q` asks to exit;
    /// `set minimap` toggles the minimap, `set minimap width N` and
    /// `set minimap height N` size it (10 and 6 without N); `gr N` and
    /// `gc N` go to row and column N (0 without N); a number that is no
    /// `u16` keeps the value it would replace; anything else changes nothing.
    pub open spec fn after_command(self, w: Seq<Seq<char>>) -> ModeView {
        if w.len() == 0 {
            self
        } else if w[0] == "q"@ {
            ModeView { exit: true, ..self }
        } else if w[0] == "w"@ {
            self
        } else if w[0] == "set"@ {
            if w.len() > 1 && w[1] == "minimap"@ {
                if w.len() == 2 {
                    self.minimap_toggled()
                } else if w[2] == "width"@ {
                    ModeView {
                        minimap_width: ModeView::number_arg(w, 3, self.minimap_width, 10),
                        ..self
                    }
                } else if w[2] == "height"@ {
                    ModeView {
                        minimap_height: ModeView::number_arg(w, 3, self.minimap_height, 6),
                        ..self
                    }
                } else {
                    self
                }
            } else {
                self
            }
        } else if w[0] == "gr"@ {
            ModeView {
                position: (self.position.0, ModeView::number_arg(w, 1, self.position.1, 0)),
                ..self
            }
        } else if w[0] == "gc"@ {
            ModeView {
                position: (ModeView::number_arg(w, 1, self.position.0, 0), self.position.1),
                ..self
            }
        } else {
            self
        }
    }

    /// The state after a key in normal mode.
    pub open spec fn after_normal_key(self, key: Key) -> ModeView {
        match key {
            Key::Char(c) => if c == 'k' {
                self.moved(Dir::Up)
            } else if c == 'j' {
                self.moved(Dir::Down)
            } else if c == 'l' {
                self.moved(Dir::Left)
            } else if c == 'h' {
                self.moved(Dir::Right)
            } else if c == ':' || c == ';' {
                self.commanding()
            } else if c == 'i' {
                self.editing()
            } else if c == 'a' {
                self.appending()
            } else if c == 'c' {
                self.changing()
            } else if c == 'd' {
                self.deleting()
            } else if c == 'y' {
                self.yanking()
            } else if c == 'p' {
                self.pasting()
            } else if c == 't' {
                self.view_toggled()
            } else if c == 'm' {
                self.minimap_toggled()
            } else if c == 'g' {
                self.prompting("gc "@)
            } else if c == 'G' {
                self.prompting("gr "@)
            } else {
                ModeView { no_clear: true, ..self }
            },
            Key::Left => self.moved(Dir::Up),
            Key::Right => self.moved(Dir::Down),
            Key::Up => self.moved(Dir::Left),
            Key::Down => self.moved(Dir::Right),
            _ => self,
        }
    }

    /// Whether a key of normal mode is bound to an action of its own.
    pub open spec fn is_bound(c: char) -> bool {
        c == 'k' || c == 'j' || c == 'l' || c == 'h' || c == ':' || c == ';' || c == 'i' || c
            == 'a' || c == 'c' || c == 'd' || c == 'y' || c == 'p' || c == 't' || c == 'm' || c
            == 'g' || c == 'G'
    }

    /// The state after a key in command mode.
    pub open spec fn after_command_key(self, key: Key) -> ModeView {
        match key {
            Key::Char(c) => if c == '\n' {
                self.normal().after_command(words(self.command))
            } else {
                self.typed(c)
            },
            Key::Backspace => self.erased(),
            Key::Esc => self.normal(),
            Key::Left => self.insert_moved(Dir::Left),
            Key::Right => self.insert_moved(Dir::Right),
            _ => self,
        }
    }

    /// The state after a key in insert mode: Enter writes the line in the
    /// current cell, Esc drops it.
    pub open spec fn after_insert_key(self, key: Key) -> ModeView {
        match key {
            Key::Char(c) => if c == '\n' {
                self.normal().written(self.command)
            } else {
                self.typed(c)
            },
            Key::Backspace => self.erased(),
            Key::Esc => self.normal(),
            Key::Left => self.insert_moved(Dir::Left),
            Key::Right => self.insert_moved(Dir::Right),
            Key::Up => self.insert_moved(Dir::Up),
            Key::Down => self.insert_moved(Dir::Down),
            _ => self,
        }
    }

    /// The state after a key, in whatever mode the editor is.
    pub open spec fn after_key(self, key: Key) -> ModeView {
        match self.input {
            InputMode::Normal => self.after_normal_key(key),
            InputMode::Command => self.after_command_key(key),
            InputMode::Insert => self.after_insert_key(key),
            InputMode::Select => self,
        }
    }

    /// What a key asks beside the new state: `:w` asks to save; a key of
    /// normal mode bound to nothing is shown, escaped, at the right end of
    /// the bottom row of the terminal.
    pub open spec fn key_effect(self, key: Key) -> EffectView {
        match self.input {
            InputMode::Normal => self.normal_key_effect(key),
            InputMode::Command => self.command_key_effect(key),
            _ => EffectView::Nothing,
        }
    }

    /// What a key of normal mode asks beside the new state: one bound to
    /// nothing is shown, escaped, at the right end of the bottom row.
    pub open spec fn normal_key_effect(self, key: Key) -> EffectView {
        match key {
            Key::Char(c) => if ModeView::is_bound(c) {
                EffectView::Nothing
            } else {
                EffectView::ShowKey {
                    code: escaped(c),
                    column: (self.dims.0 - byte_len(escaped(c))) as u16,
                    at: self.dims.1,
                }
            },
            _ => EffectView::Nothing,
        }
    }

    /// What a key of the command line asks beside the new state: Enter asks
    /// what the command asks.
    pub open spec fn command_key_effect(self, key: Key) -> EffectView {
        match key {
            Key::Char(c) => if c == '\n' {
                command_effect(words(self.command))
            } else {
                EffectView::Nothing
            },
            _ => EffectView::Nothing,
        }
    }

    /// Whether the key is handled without a fault: no position, cursor or
    /// column leaves 16 bits, and the command line is cut only at character
    /// boundaries.
    pub open spec fn accepts(self, key: Key) -> bool {
        match self.input {
            InputMode::Normal => self.accepts_normal(key),
            InputMode::Command => self.accepts_command(key),
            InputMode::Insert => self.accepts_insert(key),
            InputMode::Select => true,
        }
    }

    /// Whether the bindings of normal mode handle the key without a fault.
    pub open spec fn accepts_normal(self, key: Key) -> bool {
        match key {
            Key::Char(c) => if c == 'k' {
                self.can_move(Dir::Up)
            } else if c == 'j' {
                self.can_move(Dir::Down)
            } else if c == 'l' {
                self.can_move(Dir::Left)
            } else if c == 'h' {
                self.can_move(Dir::Right)
            } else if c == 'd' || c == 'p' {
                self.position.0 < u16::MAX
            } else if ModeView::is_bound(c) {
                true
            } else {
                self.dims.0 >= byte_len(escaped(c))
            },
            Key::Left => self.can_move(Dir::Up),
            Key::Right => self.can_move(Dir::Down),
            Key::Up => self.can_move(Dir::Left),
            Key::Down => self.can_move(Dir::Right),
            _ => true,
        }
    }

    /// Whether the bindings of the command line handle the key without a
    /// fault.
    pub open spec fn accepts_command(self, key: Key) -> bool {
        match key {
            Key::Char(c) => c == '\n' || self.can_type(),
            Key::Backspace => self.can_erase(),
            _ => true,
        }
    }

    /// Whether the bindings of insert mode handle the key without a fault.
    pub open spec fn accepts_insert(self, key: Key) -> bool {
        match key {
            Key::Char(c) => if c == '\n' {
                self.position.0 < u16::MAX
            } else {
                self.can_type()
            },
            Key::Backspace => self.can_erase(),
            _ => true,
        }
    }

    /// The cursor of the command line stays on its first line and within
    /// its text.
    pub open spec fn wf(self) -> bool {
        self.cursor.1 == 0 && self.cursor.0 <= byte_len(self.command)
    }
}

/// What the command of words `w` asks beside the new state: `w` asks to
/// save the sheet.
pub open spec fn command_effect(w: Seq<Seq<char>>) -> EffectView {
    if w.len() > 0 && w[0] != "q"@ && w[0] == "w"@ {
        EffectView::Save
    } else {
        EffectView::Nothing
    }
}

/// The row `base` with field `x` replaced by `txt`; `base` itself where it
/// has no field `x`.
pub fn mod_r(base: &csv::StringRecord, x: usize, txt: &str) -> (r: csv::StringRecord)
    ensures
        record_fields(r) == Seq::new(
            record_fields(*base).len(),
            |i: int| if i == x { txt@ } else { record_fields(*base)[i] },
        ),
{
    let n = record_len(base);
    let mut r = record_new();
    let mut i: usize = 0;
    while i < n
        invariant
            n == record_fields(*base).len(),
            i <= n,
            record_fields(r) == Seq::new(
                i as nat,
                |j: int| if j == x { txt@ } else { record_fields(*base)[j] },
            ),
        decreases n - i,
    {
        if i == x {
            record_push(&mut r, txt);
        } else {
            let v = record_get(base, i).unwrap();
            record_push(&mut r, v);
        }
        i = i + 1;
        assert(record_fields(r) =~= Seq::new(
            i as nat,
            |j: int| if j == x { txt@ } else { record_fields(*base)[j] },
        ));
    }
    r
}

/// Whether the sheet has a cell in column `x` of row `y`.
pub fn valid(cells: &Vec<csv::StringRecord>, x: u16, y: u16) -> (r: bool)
    ensures
        r == has_cell(grid(cells@), x as int, y as int),
{
    if (y as usize) < cells.len() {
        record_get(&cells[y as usize], x as usize).is_some()
    } else {
        false
    }
}

/// The text of the current cell; empty where the sheet has none there.
pub fn get_cell(mode: &mut Mode) -> (r: String)
    ensures
        r@ == old(mode)@.current_cell(),
        *final(mode) == *old(mode),
{
    let y = mode.position.1 as usize;
    if y < mode.cells.len() {
        match record_get(&mode.cells[y], mode.position.0 as usize) {
            Some(cell) => cell.to_string(),
            None => String::new(),
        }
    } else {
        String::new()
    }
}

/// A row of `n` empty fields.
fn blank_record(n: usize) -> (r: csv::StringRecord)
    ensures
        record_fields(r) == blank_row(n as int),
{
    let mut r = record_new();
    let mut i: usize = 0;
    while i < n
        invariant
            i <= n,
            record_fields(r) == blank_row(i as int),
        decreases n - i,
    {
        proof {
            reveal_strlit("");
        }
        record_push(&mut r, "");
        i = i + 1;
        assert(""@ =~= Seq::<char>::empty());
        assert(record_fields(r) =~= blank_row(i as int));
    }
    r
}

/// Writes `txt` in the current cell, growing the row or the sheet where the
/// cell does not exist yet (see [`with_cell`]).
pub fn set_cell(txt: &str, mode: &mut Mode)
    requires
        old(mode).position.0 < u16::MAX,
    ensures
        final(mode)@ == old(mode)@.written(txt@),
{
    let x = mode.position.0 as usize;
    let y = mode.position.1 as usize;
    let min: u16 = if mode.position.0 + 1 > mode.cols {
        mode.position.0 + 1
    } else {
        mode.cols
    };
    let empty = blank_record(min as usize);
    let mut rows: Vec<csv::StringRecord> = Vec::new();
    std::mem::swap(&mut rows, &mut mode.cells);
    let ghost g = grid(rows@);
    let ghost want = with_cell(g, x as int, y as int, txt@, mode.cols as int);
    if y < rows.len() {
        match record_get(&rows[y], x) {
            Some(_) => {
                let new = mod_r(&rows[y], x, txt);
                proof {
                    lemma_grid_update(rows@, y as int, new);
                }
                rows.set(y, new);
                assert(record_fields(new) =~= g[y as int].update(x as int, txt@));
                assert(grid(rows@) =~= want);
            },
            None => {
                let mut new = record_clone(&rows[y]);
                let mut k = record_len(&new);
                let ghost n = k;
                while k < x
                    invariant
                        n <= k <= x,
                        y < g.len(),
                        n == g[y as int].len(),
                        record_fields(new) == g[y as int] + blank_row(k - n),
                    decreases x - k,
                {
                    proof {
                        reveal_strlit("");
                    }
                    record_push(&mut new, "");
                    k = k + 1;
                    assert(""@ =~= Seq::<char>::empty());
                    assert(record_fields(new) =~= g[y as int] + blank_row(k - n));
                }
                record_push(&mut new, txt);
                assert(record_fields(new) =~= g[y as int] + blank_row(x - g[y as int].len())
                    + seq![txt@]);
                proof {
                    lemma_grid_update(rows@, y as int, new);
                }
                rows.set(y, new);
                assert(grid(rows@) =~= want);
            },
        }
    } else {
        let ghost n = rows.len();
        while rows.len() < y
            invariant
                n <= rows.len() <= y,
                n == g.len(),
                record_fields(empty) == blank_row(min as int),
                grid(rows@) == g + Seq::new((rows.len() - n) as nat, |i: int| blank_row(min as int)),
            decreases y - rows.len(),
        {
            let e = record_clone(&empty);
            proof {
                lemma_grid_push(rows@, e);
            }
            rows.push(e);
            assert(grid(rows@) =~= g + Seq::new(
                (rows.len() - n) as nat,
                |i: int| blank_row(min as int),
            ));
        }
        let r = mod_r(&empty, x, txt);
        proof {
            lemma_grid_push(rows@, r);
        }
        rows.push(r);
        assert(record_fields(r) =~= blank_row(min as int).update(x as int, txt@));
        assert(grid(rows@) =~= want);
    }
    mode.cells = rows;
}


impl Mode {
    /// Shows a key that no binding names at the right end of the bottom line
    /// and keeps the next drawing from clearing it.
    pub fn other_key(&mut self, c: char) -> (e: Effect)
        requires
            old(self).dims.0 >= byte_len(escaped(c)),
        ensures
            final(self)@ == (ModeView { no_clear: true, ..old(self)@ }),
            e@ == (EffectView::ShowKey {
                code: escaped(c),
                column: (old(self).dims.0 - byte_len(escaped(c))) as u16,
                at: old(self).dims.1,
            }),
    {
        let code = escape_default(c);
        let len = text_byte_len(&code);
        let column = self.dims.0 - len as u16;
        self.no_clear = true;
        Effect::ShowKey { code, column, at: self.dims.1 }
    }

    /// Moves the current cell one step (see [`ModeView::moved`]).
    pub fn move_cell(&mut self, dir: Dir)
        requires
            old(self)@.can_move(dir),
        ensures
            final(self)@ == old(self)@.moved(dir),
    {
        match self.view {
            ViewMode::Column => match dir {
                Dir::Left => self.position.0 = self.position.0 + 1,
                Dir::Right => if self.position.0 > 0 {
                    self.position.0 = self.position.0 - 1;
                },
                Dir::Up => if self.position.1 > 0 {
                    self.position.1 = self.position.1 - 1;
                },
                Dir::Down => self.position.1 = self.position.1 + 1,
            },
            ViewMode::Row => match dir {
                Dir::Left => self.position.1 = self.position.1 + 1,
                Dir::Right => if self.position.1 > 0 {
                    self.position.1 = self.position.1 - 1;
                },
                Dir::Up => if self.position.0 > 0 {
                    self.position.0 = self.position.0 - 1;
                },
                Dir::Down => self.position.0 = self.position.0 + 1,
            },
        }
    }

    /// Opens an empty command line.
    pub fn enter_command(&mut self)
        ensures
            final(self)@ == old(self)@.commanding(),
    {
        self.input = InputMode::Command;
        self.command = String::new();
        self.cursor = (0, 0);
    }

    /// Edits the current cell from its start.
    pub fn edit_cell(&mut self)
        ensures
            final(self)@ == old(self)@.editing(),
    {
        self.input = InputMode::Insert;
        self.command = get_cell(self);
        self.cursor = (0, 0);
    }

    /// Edits the current cell from its end.
    pub fn append_cell(&mut self)
        ensures
            final(self)@ == old(self)@.appending(),
    {
        self.input = InputMode::Insert;
        self.command = get_cell(self);
        self.cursor = (text_byte_len(&self.command) as u16, 0);
    }

    /// Replaces the current cell with a new text.
    pub fn change_cell(&mut self)
        ensures
            final(self)@ == old(self)@.changing(),
    {
        self.input = InputMode::Insert;
        self.command = String::new();
        self.cursor = (0, 0);
    }

    /// Cuts the current cell: keeps its text for pasting and empties it.
    pub fn delete_cell(&mut self)
        requires
            old(self).position.0 < u16::MAX,
        ensures
            final(self)@ == old(self)@.deleting(),
    {
        self.paste = get_cell(self);
        proof {
            reveal_strlit("");
            assert(""@ =~= Seq::<char>::empty());
        }
        set_cell("", self);
    }

    /// Copies the current cell for pasting.
    pub fn yank_cell(&mut self)
        ensures
            final(self)@ == old(self)@.yanking(),
    {
        self.paste = get_cell(self);
    }

    /// Writes the kept text in the current cell.
    pub fn paste_cell(&mut self)
        requires
            old(self).position.0 < u16::MAX,
        ensures
            final(self)@ == old(self)@.pasting(),
    {
        let text = self.paste.clone();
        set_cell(text.as_str(), self);
    }

    /// Switches between column view and row view.
    pub fn view_toggle(&mut self)
        ensures
            final(self)@ == old(self)@.view_toggled(),
    {
        self.view = match self.view {
            ViewMode::Column => ViewMode::Row,
            ViewMode::Row => ViewMode::Column,
        };
    }

    /// Shows or hides the minimap.
    pub fn minimap_toggle(&mut self)
        ensures
            final(self)@ == old(self)@.minimap_toggled(),
    {
        self.minimap = !self.minimap;
    }

    /// Types `c` on the command line.
    pub fn command_key(&mut self, c: char)
        requires
            old(self)@.can_type(),
        ensures
            final(self)@ == old(self)@.typed(c),
    {
        string_insert(&mut self.command, self.cursor.0 as usize, c);
        self.cursor.0 = self.cursor.0 + 1;
    }

    /// Erases the character before the cursor of the command line.
    pub fn command_del(&mut self)
        requires
            old(self)@.can_erase(),
        ensures
            final(self)@ == old(self)@.erased(),
    {
        if self.cursor.0 > 0 {
            string_remove(&mut self.command, self.cursor.0 as usize - 1);
            self.cursor.0 = self.cursor.0 - 1;
        }
    }

    /// Runs the command line and goes back to normal mode.
    pub fn command_enter(&mut self) -> (e: Effect)
        ensures
            final(self)@ == old(self)@.normal().after_command(words(old(self)@.command)),
            e@ == command_effect(words(old(self)@.command)),
    {
        self.input = InputMode::Normal;
        let text = self.command.clone();
        command_parse(text.as_str(), self)
    }

    /// Leaves the command line without running it.
    pub fn command_esc(&mut self)
        ensures
            final(self)@ == old(self)@.normal(),
    {
        self.input = InputMode::Normal;
    }

    /// Types `c` in the cell being edited.
    pub fn insert_key(&mut self, c: char)
        requires
            old(self)@.can_type(),
        ensures
            final(self)@ == old(self)@.typed(c),
    {
        string_insert(&mut self.command, self.cursor.0 as usize, c);
        self.cursor.0 = self.cursor.0 + 1;
    }

    /// Writes the edited text in the current cell and goes back to normal
    /// mode.
    pub fn insert_enter(&mut self)
        requires
            old(self).position.0 < u16::MAX,
        ensures
            final(self)@ == old(self)@.normal().written(old(self)@.command),
    {
        self.input = InputMode::Normal;
        let text = self.command.clone();
        set_cell(text.as_str(), self);
    }

    /// Drops the edit and goes back to normal mode.
    pub fn insert_esc(&mut self)
        ensures
            final(self)@ == old(self)@.normal(),
    {
        self.input = InputMode::Normal;
    }

    /// Erases the character before the cursor of the edited text.
    pub fn insert_del(&mut self)
        requires
            old(self)@.can_erase(),
        ensures
            final(self)@ == old(self)@.erased(),
    {
        if self.cursor.0 > 0 {
            string_remove(&mut self.command, self.cursor.0 as usize - 1);
            self.cursor.0 = self.cursor.0 - 1;
        }
    }

    /// Moves the cursor of the edited text (see [`ModeView::insert_moved`]).
    pub fn move_insert(&mut self, dir: Dir)
        ensures
            final(self)@ == old(self)@.insert_moved(dir),
    {
        match dir {
            Dir::Left => {
                if self.cursor.0 > 0 {
                    self.cursor.0 = self.cursor.0 - 1;
                }
            },
            Dir::Right => {
                if self.cursor.0 < text_byte_len(&self.command) as u16 {
                    self.cursor.0 = self.cursor.0 + 1;
                }
            },
            _ => {},
        }
    }
}

/// Runs the command `cmd` (see [`ModeView::after_command`]).
pub fn command_parse(cmd: &str, mode: &mut Mode) -> (e: Effect)
    ensures
        final(mode)@ == old(mode)@.after_command(words(cmd@)),
        e@ == command_effect(words(cmd@)),
{
    let args = split_words(cmd);
    let ghost w = words(cmd@);
    let n = args.len();
    assert(forall|i: int| 0 <= i < n ==> w[i] == #[trigger] args@[i]@);
    if n == 0 {
        return Effect::Nothing;
    }
    if same_text(args[0].as_str(), "q") {
        mode.exit = true;
        Effect::Nothing
    } else if same_text(args[0].as_str(), "w") {
        Effect::Save
    } else if same_text(args[0].as_str(), "set") {
        if n > 1 && same_text(args[1].as_str(), "minimap") {
            if n == 2 {
                mode.minimap = !mode.minimap;
            } else if same_text(args[2].as_str(), "width") {
                mode.minimap_width = if n > 3 {
                    match parse_u16(args[3].as_str()) {
                        Some(v) => v,
                        None => mode.minimap_width,
                    }
                } else {
                    10
                };
            } else if same_text(args[2].as_str(), "height") {
                mode.minimap_height = if n > 3 {
                    match parse_u16(args[3].as_str()) {
                        Some(v) => v,
                        None => mode.minimap_height,
                    }
                } else {
                    6
                };
            }
        }
        Effect::Nothing
    } else if same_text(args[0].as_str(), "gr") {
        mode.position.1 = if n > 1 {
            match parse_u16(args[1].as_str()) {
                Some(v) => v,
                None => mode.position.1,
            }
        } else {
            0
        };
        Effect::Nothing
    } else if same_text(args[0].as_str(), "gc") {
        mode.position.0 = if n > 1 {
            match parse_u16(args[1].as_str()) {
                Some(v) => v,
                None => mode.position.0,
            }
        } else {
            0
        };
        Effect::Nothing
    } else {
        Effect::Nothing
    }
}


/// Handles a key in normal mode.
pub fn normal_mode(key: Key, mode: &mut Mode) -> (e: Effect)
    requires
        old(mode)@.accepts_normal(key),
    ensures
        final(mode)@ == old(mode)@.after_normal_key(key),
        e@ == old(mode)@.normal_key_effect(key),
{
    match key {
        Key::Char('k') => mode.move_cell(Dir::Up),
        Key::Char('j') => mode.move_cell(Dir::Down),
        Key::Char('l') => mode.move_cell(Dir::Left),
        Key::Char('h') => mode.move_cell(Dir::Right),
        Key::Char(':') => mode.enter_command(),
        Key::Char(';') => mode.enter_command(),
        Key::Char('i') => mode.edit_cell(),
        Key::Char('a') => mode.append_cell(),
        Key::Char('c') => mode.change_cell(),
        Key::Char('d') => mode.delete_cell(),
        Key::Char('y') => mode.yank_cell(),
        Key::Char('p') => mode.paste_cell(),
        Key::Char('t') => mode.view_toggle(),
        Key::Char('m') => mode.minimap_toggle(),
        Key::Char('g') => {
            mode.enter_command();
            mode.command = "gc ".to_string();
            mode.cursor.0 = text_byte_len(&mode.command) as u16;
        },
        Key::Char('G') => {
            mode.enter_command();
            mode.command = "gr ".to_string();
            mode.cursor.0 = text_byte_len(&mode.command) as u16;
        },
        Key::Left => mode.move_cell(Dir::Up),
        Key::Right => mode.move_cell(Dir::Down),
        Key::Up => mode.move_cell(Dir::Left),
        Key::Down => mode.move_cell(Dir::Right),
        Key::Char(c) => {
            return mode.other_key(c);
        },
        _ => {},
    }
    Effect::Nothing
}

/// Handles a key on the command line.
pub fn command_mode(key: Key, mode: &mut Mode) -> (e: Effect)
    requires
        old(mode)@.accepts_command(key),
    ensures
        final(mode)@ == old(mode)@.after_command_key(key),
        e@ == old(mode)@.command_key_effect(key),
{
    match key {
        Key::Char('\n') => {
            return mode.command_enter();
        },
        Key::Char(c) => mode.command_key(c),
        Key::Backspace => mode.command_del(),
        Key::Esc => mode.command_esc(),
        Key::Left => mode.move_insert(Dir::Left),
        Key::Right => mode.move_insert(Dir::Right),
        _ => {},
    }
    Effect::Nothing
}

/// Handles a key while a cell is edited.
pub fn insert_mode(key: Key, mode: &mut Mode) -> (e: Effect)
    requires
        old(mode)@.accepts_insert(key),
    ensures
        final(mode)@ == old(mode)@.after_insert_key(key),
        e@ == EffectView::Nothing,
{
    match key {
        Key::Char('\n') => mode.insert_enter(),
        Key::Char(c) => mode.insert_key(c),
        Key::Backspace => mode.insert_del(),
        Key::Esc => mode.insert_esc(),
        Key::Left => mode.move_insert(Dir::Left),
        Key::Right => mode.move_insert(Dir::Right),
        Key::Up => mode.move_insert(Dir::Up),
        Key::Down => mode.move_insert(Dir::Down),
        _ => {},
    }
    Effect::Nothing
}

/// Handles a key in whatever mode the editor is: the new state is
/// [`ModeView::after_key`], what is asked beside it [`ModeView::key_effect`].
pub fn key_delegate(key: Key, mode: &mut Mode) -> (e: Effect)
    requires
        old(mode)@.accepts(key),
    ensures
        final(mode)@ == old(mode)@.after_key(key),
        e@ == old(mode)@.key_effect(key),
        old(mode)@.wf() ==> final(mode)@.wf(),
{
    proof {
        if mode@.wf() {
            crate::laws::law_keys_keep_cursor_in_line(mode@, key);
        }
    }
    match mode.input {
        InputMode::Normal => normal_mode(key, mode),
        InputMode::Command => command_mode(key, mode),
        InputMode::Insert => insert_mode(key, mode),
        InputMode::Select => Effect::Nothing,
    }
}


impl Mode {
    /// Whether a move in `dir` stays within 16 bits.
    fn can_move(&self, dir: Dir) -> (b: bool)
        ensures
            b == self@.can_move(dir),
    {
        let ver = match self.view {
            ViewMode::Column => self.position.1,
            ViewMode::Row => self.position.0,
        };
        let hor = match self.view {
            ViewMode::Column => self.position.0,
            ViewMode::Row => self.position.1,
        };
        match dir {
            Dir::Down => ver < u16::MAX,
            Dir::Left => hor < u16::MAX,
            _ => true,
        }
    }

    /// Whether typing on the command line is defined here.
    fn can_type(&self) -> (b: bool)
        ensures
            b == self@.can_type(),
    {
        text_on_boundary(&self.command, self.cursor.0 as usize) && self.cursor.0 < u16::MAX
    }

    /// Whether erasing on the command line is defined here.
    fn can_erase(&self) -> (b: bool)
        ensures
            b == self@.can_erase(),
    {
        if self.cursor.0 > 0 {
            let at = self.cursor.0 as usize - 1;
            text_on_boundary(&self.command, at) && at < text_byte_len(&self.command)
        } else {
            true
        }
    }

    /// Whether [`key_delegate`] handles `key` here without a fault (see
    /// [`ModeView::accepts`]).
    pub fn accepts(&self, key: Key) -> (b: bool)
        ensures
            b == self@.accepts(key),
    {
        match self.input {
            InputMode::Normal => match key {
                Key::Char('k') => self.can_move(Dir::Up),
                Key::Char('j') => self.can_move(Dir::Down),
                Key::Char('l') => self.can_move(Dir::Left),
                Key::Char('h') => self.can_move(Dir::Right),
                Key::Char('d') => self.position.0 < u16::MAX,
                Key::Char('p') => self.position.0 < u16::MAX,
                Key::Char(':') | Key::Char(';') | Key::Char('i') | Key::Char('a') | Key::Char('c')
                | Key::Char('y') | Key::Char('t') | Key::Char('m') | Key::Char('g') | Key::Char(
                    'G',
                ) => true,
                Key::Char(c) => {
                    let code = escape_default(c);
                    text_byte_len(&code) <= self.dims.0 as usize
                },
                Key::Left => self.can_move(Dir::Up),
                Key::Right => self.can_move(Dir::Down),
                Key::Up => self.can_move(Dir::Left),
                Key::Down => self.can_move(Dir::Right),
                _ => true,
            },
            InputMode::Command => match key {
                Key::Char('\n') => true,
                Key::Char(_) => self.can_type(),
                Key::Backspace => self.can_erase(),
                _ => true,
            },
            InputMode::Insert => match key {
                Key::Char('\n') => self.position.0 < u16::MAX,
                Key::Char(_) => self.can_type(),
                Key::Backspace => self.can_erase(),
                _ => true,
            },
            InputMode::Select => true,
        }
    }
}


impl Mode {
    /// The editor as it starts on a sheet, in a terminal of `dims`
    /// (columns, rows): column view, normal mode, at the first cell, with the
    /// minimap shown, 6 by 6; `cols` is the width of the first row.
    pub fn new(cells: Vec<csv::StringRecord>, dims: (u16, u16)) -> (m: Mode)
        ensures
            m@ == (ModeView {
                view: ViewMode::Column,
                input: InputMode::Normal,
                position: (0, 0),
                offset: 0,
                minimap: true,
                minimap_width: 6,
                minimap_height: 6,
                dims: dims,
                margin: 0,
                paste: Seq::empty(),
                command: Seq::empty(),
                stale: true,
                cursor: (0, 0),
                exit: false,
                no_clear: false,
                mode_pos: (0, 0),
                cells: grid(cells@),
                cols: if cells@.len() > 0 {
                    (record_fields(cells@[0]).len()) as u16
                } else {
                    0
                },
            }),
    {
        let cols = if cells.len() > 0 {
            record_len(&cells[0]) as u16
        } else {
            0
        };
        Mode {
            view: ViewMode::Column,
            input: InputMode::Normal,
            position: (0, 0),
            offset: 0,
            minimap: true,
            minimap_width: 6,
            minimap_height: 6,
            dims: dims,
            margin: 0,
            paste: String::new(),
            command: String::new(),
            stale: true,
            cursor: (0, 0),
            exit: false,
            no_clear: false,
            mode_pos: (0, 0),
            cells: cells,
            cols: cols,
        }
    }
}

} // verus!
