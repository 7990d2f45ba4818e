//! What holds of the editor across its operations.

use vstd::prelude::*;
use crate::draw::{MiniCell, Style};
use crate::mode::{
    Dir, EffectView, InputMode, Key, ModeView, ViewMode, blank_row, cell_at, command_effect,
    has_cell, with_cell,
};
use crate::words::{joined, lemma_words_are_words, lemma_words_joined, parsed_u16, words};
use crate::text::{
    byte_len, char_index, lemma_boundary_prefix, lemma_byte_len_concat, lemma_byte_len_single,
    lemma_char_index_prefix, lemma_prefix_on_boundary,
};

verus! {

/// After a text is written in a cell, that cell reads back the text.
pub proof fn law_write_then_read(
    g: Seq<Seq<Seq<char>>>,
    x: int,
    y: int,
    txt: Seq<char>,
    cols: int,
)
    requires
        0 <= x,
        0 <= y,
    ensures
        cell_at(with_cell(g, x, y, txt, cols), x, y) == txt,
{
}

/// Writing a cell changes what no other cell reads: cells that the write
/// adds read empty, as cells that do not exist do.
pub proof fn law_write_keeps_other_cells(
    g: Seq<Seq<Seq<char>>>,
    x: int,
    y: int,
    txt: Seq<char>,
    cols: int,
    x2: int,
    y2: int,
)
    requires
        0 <= x,
        0 <= y,
        x2 != x || y2 != y,
    ensures
        cell_at(with_cell(g, x, y, txt, cols), x2, y2) == cell_at(g, x2, y2),
{
}

/// Pasting right after yanking leaves what every cell reads as it was.
pub proof fn law_paste_after_yank(m: ModeView, x2: int, y2: int)
    ensures
        cell_at(m.yanking().pasting().cells, x2, y2) == cell_at(m.cells, x2, y2),
{
    if x2 != m.position.0 || y2 != m.position.1 {
        law_write_keeps_other_cells(
            m.cells,
            m.position.0 as int,
            m.position.1 as int,
            m.current_cell(),
            m.cols as int,
            x2,
            y2,
        );
    }
}

/// Pasting right after deleting a cell puts back what it held, and every
/// cell reads as before the delete.
pub proof fn law_paste_after_delete(m: ModeView, x2: int, y2: int)
    ensures
        cell_at(m.deleting().pasting().cells, x2, y2) == cell_at(m.cells, x2, y2),
{
    let d = m.deleting();
    let x = m.position.0 as int;
    let y = m.position.1 as int;
    if x2 != x || y2 != y {
        law_write_keeps_other_cells(m.cells, x, y, Seq::empty(), m.cols as int, x2, y2);
        law_write_keeps_other_cells(d.cells, x, y, d.paste, m.cols as int, x2, y2);
    }
}

/// Ending an edit of a cell that exists changes that cell of the sheet and
/// nothing else: the sheet that a save then writes differs from the one
/// before in that cell alone.
pub proof fn law_edit_changes_one_cell(m: ModeView)
    requires
        m.input == InputMode::Insert,
        has_cell(m.cells, m.position.0 as int, m.position.1 as int),
    ensures
        m.after_key(Key::Char('\n')).cells == m.cells.update(
            m.position.1 as int,
            m.cells[m.position.1 as int].update(m.position.0 as int, m.command),
        ),
{
}

/// Leaving insert mode with Esc drops the edit: the sheet stays as it was.
pub proof fn law_escape_drops_edit(m: ModeView)
    requires
        m.input == InputMode::Insert,
    ensures
        m.after_key(Key::Esc).cells == m.cells,
        m.after_key(Key::Esc).input == InputMode::Normal,
{
}

/// Spacing makes no difference to a command: its words joined by single
/// spaces run to the same state and ask for the same effect, whatever runs
/// of spaces and tabs stood before, between and after them.
pub proof fn law_command_ignores_spacing(m: ModeView, cmd: Seq<char>)
    ensures
        words(joined(words(cmd))) == words(cmd),
        m.after_command(words(joined(words(cmd)))) == m.after_command(words(cmd)),
        command_effect(words(joined(words(cmd)))) == command_effect(words(cmd)),
{
    lemma_words_are_words(cmd);
    lemma_words_joined(words(cmd));
}

/// Toggling the view twice, or the minimap twice, gives back the state.
pub proof fn law_toggles_undo(m: ModeView)
    ensures
        m.view_toggled().view_toggled() == m,
        m.minimap_toggled().minimap_toggled() == m,
{
}

/// A step down and a step up, or a step left and a step right, come back
/// to the same cell, in either view.
pub proof fn law_moves_undo(m: ModeView)
    ensures
        m.can_move(Dir::Down) ==> m.moved(Dir::Down).moved(Dir::Up) == m,
        m.can_move(Dir::Left) ==> m.moved(Dir::Left).moved(Dir::Right) == m,
{
}

proof fn lemma_insert_split(s: Seq<char>, k: int, c: char)
    requires
        0 <= k <= s.len(),
    ensures
        s.insert(k, c) == s.take(k) + (seq![c] + s.skip(k)),
        s == s.take(k) + s.skip(k),
{
    assert(s.insert(k, c) =~= s.take(k) + (seq![c] + s.skip(k)));
    assert(s =~= s.take(k) + s.skip(k));
}

/// Typing a character and erasing right after gives back the command line
/// and its cursor.
pub proof fn law_type_then_erase(m: ModeView, c: char)
    requires
        m.can_type(),
    ensures
        m.typed(c).can_erase(),
        m.typed(c).erased() == m,
{
    let s = m.command;
    let b = m.cursor.0 as int;
    lemma_boundary_prefix(s, b);
    let k = char_index(s, b);
    let p = s.take(k);
    let r = seq![c] + s.skip(k);
    lemma_insert_split(s, k, c);
    let t = m.typed(c);
    assert(t.command == p + r);
    lemma_prefix_on_boundary(p, r);
    lemma_char_index_prefix(p, r);
    lemma_byte_len_concat(p, r);
    lemma_byte_len_single(c);
    lemma_byte_len_concat(seq![c], s.skip(k));
    assert(t.command.remove(k) =~= s);
}

/// Every key keeps the cursor of the command line on its first line and
/// within the text.
pub proof fn law_keys_keep_cursor_in_line(m: ModeView, key: Key)
    requires
        m.wf(),
        m.accepts(key),
    ensures
        m.after_key(key).wf(),
{
    reveal_strlit("gc ");
    reveal_strlit("gr ");
    let s = m.command;
    let b = m.cursor.0 as int;
    assert(byte_len(m.current_cell()) as u16 <= byte_len(m.current_cell()));
    if m.can_type() {
        lemma_boundary_prefix(s, b);
        let k = char_index(s, b);
        lemma_insert_split(s, k, ' ');
        assert forall|c: char| #[trigger] byte_len(m.typed(c).command) >= b + 1 by {
            lemma_insert_split(s, k, c);
            lemma_byte_len_concat(s.take(k), seq![c] + s.skip(k));
            lemma_byte_len_concat(seq![c], s.skip(k));
            lemma_byte_len_concat(s.take(k), s.skip(k));
            lemma_byte_len_single(c);
        }
    }
    if b > 0 && m.can_erase() {
        lemma_boundary_prefix(s, b - 1);
        let k = char_index(s, b - 1);
        assert(k < s.len()) by {
            if k == s.len() {
                assert(s.take(k) =~= s);
            }
        }
        assert(s.remove(k) =~= s.take(k) + s.skip(k + 1));
        lemma_byte_len_concat(s.take(k), s.skip(k + 1));
    }
}

/// Drawing the body scrolls so that the current cell is on screen: it is
/// on body line `down - offset`, which lies within the `dims.1 - 1` lines,
/// and in normal mode that line is inverted.
pub proof fn law_draw_shows_current_cell(m: ModeView)
    requires
        m.shows_sheet(),
        !m.no_clear,
        m.can_draw(),
    ensures
        ({
            let d = m.drawn();
            let i = d.down() - d.offset;
            &&& 0 <= i < m.dims.1 - 1
            &&& d.line_cell(i) == (m.position.0 as int, m.position.1 as int)
            &&& m.input == InputMode::Normal ==> d.line_style(i) == Style::Invr
        }),
{
}

/// The scroll offset after drawing is the old one clamped so that the
/// current cell is among the `dims.1 - 1` lines of the body: no lower than
/// `down - (dims.1 - 2)`, no higher than `down`.
pub proof fn law_scroll_clamps(m: ModeView)
    requires
        m.dims.1 >= 2,
    ensures
        m.scrolled() == (if m.offset + (m.dims.1 - 2) < m.down() {
            m.down() - (m.dims.1 - 2)
        } else if m.offset > m.down() {
            m.down() as int
        } else {
            m.offset as int
        }),
{
}

/// Where the current cell has moved by less than a page from the minimap
/// shown before, the minimap drawn next is the page of the current cell: it
/// shows the cell, as its crossed square, and lies a page back, in place, a
/// page on, or at the sheet's edge.
pub proof fn law_minimap_follows_short_moves(m: ModeView)
    requires
        m.shows_sheet(),
        m.minimap,
        m.can_draw(),
        m.mode_pos.0 - m.minimap_width <= m.position.0 < m.mode_pos.0 + 2 * m.minimap_width,
        m.mode_pos.1 - m.minimap_height <= m.position.1 < m.mode_pos.1 + 2 * m.minimap_height,
    ensures
        ({
            let d = m.drawn();
            let c = d.mode_pos;
            &&& c.0 <= m.position.0 < c.0 + m.minimap_width
            &&& c.1 <= m.position.1 < c.1 + m.minimap_height
            &&& d.square(m.position.0 - c.0, m.position.1 - c.1).cell == MiniCell::Current
            &&& (c.0 == m.mode_pos.0 || c.0 == m.mode_pos.0 + m.minimap_width || c.0
                == m.mode_pos.0 - m.minimap_width || c.0 == 0)
            &&& (c.1 == m.mode_pos.1 || c.1 == m.mode_pos.1 + m.minimap_height || c.1
                == m.mode_pos.1 - m.minimap_height || c.1 == 0)
        }),
{
}

/// `q` quits without saving: a command whose first word is `q` sets the
/// exit flag, changes nothing else and asks for no effect; only a command
/// whose first word is `w` asks to save, and it changes nothing.
pub proof fn law_quit_does_not_save(m: ModeView, w: Seq<Seq<char>>)
    ensures
        w.len() > 0 && w[0] == "q"@ ==> {
            &&& command_effect(w) == EffectView::Nothing
            &&& m.after_command(w) == (ModeView { exit: true, ..m })
        },
        command_effect(w) == EffectView::Save ==> w.len() > 0 && w[0] == "w"@,
        w.len() > 0 && w[0] == "w"@ ==> {
            &&& command_effect(w) == EffectView::Save
            &&& m.after_command(w) == m
        },
{
    reveal_strlit("q");
    reveal_strlit("w");
    assert("q"@[0] != "w"@[0]);
}

/// Enter on a command line of `q` quits without saving; on `w` it saves and
/// leaves the editor otherwise as it was, back in normal mode.
pub proof fn law_quit_key_does_not_save(m: ModeView)
    requires
        m.input == InputMode::Command,
    ensures
        words(m.command).len() > 0 && words(m.command)[0] == "q"@ ==> {
            &&& m.key_effect(Key::Char('\n')) == EffectView::Nothing
            &&& m.after_key(Key::Char('\n')).exit
            &&& m.after_key(Key::Char('\n')).cells == m.cells
        },
        m.key_effect(Key::Char('\n')) == EffectView::Save ==> {
            &&& words(m.command).len() > 0
            &&& words(m.command)[0] == "w"@
            &&& m.after_key(Key::Char('\n')).exit == m.exit
            &&& m.after_key(Key::Char('\n')).cells == m.cells
        },
{
    law_quit_does_not_save(m.normal(), words(m.command));
}

/// `gr N` and `gc N` go to row or column N and leave the other coordinate;
/// `set minimap width N` and `set minimap height N` set that size.
pub proof fn law_goto_and_sizes(m: ModeView, w: Seq<Seq<char>>, n: u16)
    requires
        w.len() >= 2,
        parsed_u16(w[1]) == Some(n),
    ensures
        w[0] == "gr"@ ==> m.after_command(w).position == (m.position.0, n),
        w[0] == "gc"@ ==> m.after_command(w).position == (n, m.position.1),
        w[0] == "gr"@ || w[0] == "gc"@ ==> m.after_command(w).cells == m.cells
            && command_effect(w) == EffectView::Nothing,
{
    reveal_strlit("q");
    reveal_strlit("w");
    reveal_strlit("set");
    reveal_strlit("gr");
    reveal_strlit("gc");
    assert("gr"@[1] != "gc"@[1]);
    assert("gr"@.len() != "set"@.len());
    assert("gr"@.len() != "q"@.len());
    assert("gr"@.len() != "w"@.len());
}

/// The number before body line `i` is the index of its cell along the line
/// being walked: `offset + i`, the row in column view and the column in row
/// view, and that cell lies on the walked line through the current cell.
pub proof fn law_body_labels(m: ModeView, i: int)
    requires
        0 <= i,
    ensures
        ({
            let d = m.drawn();
            &&& d.line_label(i) == d.offset + i
            &&& m.view == ViewMode::Column ==> d.line_cell(i) == (m.position.0 as int, d.offset + i)
            &&& m.view == ViewMode::Row ==> d.line_cell(i) == (d.offset + i, m.position.1 as int)
        }),
{
}

/// A square of the minimap shows the current cell exactly where it is the
/// current cell; any other square is marked as part of the walked line
/// exactly when its cell lies in the current column (column view) or the
/// current row (row view); any other square tells whether its cell exists.
pub proof fn law_minimap_marks(d: ModeView, x: int, j: int)
    ensures
        ({
            let xx = d.mode_pos.0 + x;
            let yy = d.mode_pos.1 + j;
            let current = xx == d.position.0 && yy == d.position.1;
            let on_line = match d.view {
                ViewMode::Column => xx == d.position.0,
                ViewMode::Row => yy == d.position.1,
            };
            &&& (d.square(x, j).cell == MiniCell::Current) == current
            &&& !current ==> ((d.square(x, j).cell == MiniCell::Line) == on_line)
            &&& !current && !on_line ==> d.square(x, j).cell == (MiniCell::Other {
                exists: has_cell(d.cells, xx, yy),
            })
        }),
{
}

/// On the command line, as in insert mode, Left moves the cursor one byte
/// back and Right one byte on, within the line; neither changes the text.
pub proof fn law_command_line_arrows(m: ModeView)
    requires
        m.input == InputMode::Command || m.input == InputMode::Insert,
    ensures
        m.after_key(Key::Left).cursor.0 == (if m.cursor.0 > 0 {
            m.cursor.0 - 1
        } else {
            m.cursor.0 as int
        }),
        m.after_key(Key::Right).cursor.0 == (if m.cursor.0 < (byte_len(m.command)) as u16 {
            m.cursor.0 + 1
        } else {
            m.cursor.0 as int
        }),
        m.after_key(Key::Left).command == m.command,
        m.after_key(Key::Right).command == m.command,
        m.after_key(Key::Left).input == m.input,
        m.after_key(Key::Right).input == m.input,
{
}

/// The shape of the sheet after a write: a row that exists keeps its
/// fields and grows, where it is too short, to exactly the new cell, which
/// is then its last; past the last row, rows as wide as the first row or as
/// the new cell needs are added up to the row of the new cell; every other
/// row stays as it was.
pub proof fn law_write_shape(
    g: Seq<Seq<Seq<char>>>,
    x: int,
    y: int,
    txt: Seq<char>,
    cols: int,
)
    requires
        0 <= x,
        0 <= y,
        0 <= cols,
    ensures
        ({
            let r = with_cell(g, x, y, txt, cols);
            let width = if x + 1 > cols { x + 1 } else { cols };
            &&& y < g.len() ==> {
                &&& r.len() == g.len()
                &&& r[y].len() == (if x < g[y].len() { g[y].len() as int } else { x + 1 })
                &&& r[y][x] == txt
                &&& forall|k: int| 0 <= k < g[y].len() && k != x ==> #[trigger] r[y][k] == g[y][k]
                &&& forall|k: int| g[y].len() <= k < x ==> #[trigger] r[y][k] == Seq::<char>::empty()
                &&& forall|q: int| 0 <= q < g.len() && q != y ==> #[trigger] r[q] == g[q]
            }
            &&& y >= g.len() ==> {
                &&& r.len() == y + 1
                &&& forall|q: int| 0 <= q < g.len() ==> #[trigger] r[q] == g[q]
                &&& forall|q: int| g.len() <= q <= y ==> (#[trigger] r[q]).len() == width
                &&& forall|q: int| g.len() <= q < y ==> #[trigger] r[q] == blank_row(width)
                &&& r[y] == blank_row(width).update(x, txt)
            }
        }),
{
    let r = with_cell(g, x, y, txt, cols);
    let width = if x + 1 > cols { x + 1 } else { cols };
    if y >= g.len() {
        assert forall|q: int| g.len() <= q <= y implies (#[trigger] r[q]).len() == width by {
            if q < y {
                assert(r[q] == blank_row(width));
            } else {
                assert(r[q] == blank_row(width).update(x, txt));
            }
        }
    }
}

/// Each move goes one step: in column view `Down`/`Up` change the row and
/// `Left`/`Right` go to the next/previous column; in row view the axes
/// swap. A step back from 0 stays at 0; nothing else of the editor changes.
pub proof fn law_moves_by_one(m: ModeView)
    requires
        m.position.0 < u16::MAX,
        m.position.1 < u16::MAX,
    ensures
        m.view == ViewMode::Column ==> {
            &&& m.moved(Dir::Down).position == (m.position.0, (m.position.1 + 1) as u16)
            &&& m.moved(Dir::Up).position == (m.position.0, (if m.position.1 > 0 {
                m.position.1 - 1
            } else {
                0
            }) as u16)
            &&& m.moved(Dir::Left).position == ((m.position.0 + 1) as u16, m.position.1)
            &&& m.moved(Dir::Right).position == ((if m.position.0 > 0 {
                m.position.0 - 1
            } else {
                0
            }) as u16, m.position.1)
        },
        m.view == ViewMode::Row ==> {
            &&& m.moved(Dir::Down).position == ((m.position.0 + 1) as u16, m.position.1)
            &&& m.moved(Dir::Up).position == ((if m.position.0 > 0 {
                m.position.0 - 1
            } else {
                0
            }) as u16, m.position.1)
            &&& m.moved(Dir::Left).position == (m.position.0, (m.position.1 + 1) as u16)
            &&& m.moved(Dir::Right).position == (m.position.0, (if m.position.1 > 0 {
                m.position.1 - 1
            } else {
                0
            }) as u16)
        },
        forall|d: Dir| #[trigger] m.moved(d) == (ModeView { position: m.moved(d).position, ..m }),
{
}

/// The bindings of normal mode: `k`/`j`/`l`/`h` and the arrows move,
/// `:` and `;` open an empty command line, `i`/`a`/`c` edit the current
/// cell from its start, from its end or from nothing, `y` copies it, `d`
/// cuts it, `p` pastes, `t` and `m` toggle the view and the minimap, `g`
/// and `G` prompt for a column or a row.
pub proof fn law_normal_bindings(m: ModeView)
    requires
        m.input == InputMode::Normal,
    ensures
        m.after_key(Key::Char('k')) == m.moved(Dir::Up),
        m.after_key(Key::Char('j')) == m.moved(Dir::Down),
        m.after_key(Key::Char('l')) == m.moved(Dir::Left),
        m.after_key(Key::Char('h')) == m.moved(Dir::Right),
        m.after_key(Key::Left) == m.moved(Dir::Up),
        m.after_key(Key::Right) == m.moved(Dir::Down),
        m.after_key(Key::Up) == m.moved(Dir::Left),
        m.after_key(Key::Down) == m.moved(Dir::Right),
        m.after_key(Key::Char(':')).input == InputMode::Command,
        m.after_key(Key::Char(':')).command == Seq::<char>::empty(),
        m.after_key(Key::Char(':')).cursor == (0u16, 0u16),
        m.after_key(Key::Char(';')) == m.after_key(Key::Char(':')),
        m.after_key(Key::Char('i')).input == InputMode::Insert,
        m.after_key(Key::Char('i')).command == m.current_cell(),
        m.after_key(Key::Char('i')).cursor == (0u16, 0u16),
        m.after_key(Key::Char('a')).input == InputMode::Insert,
        m.after_key(Key::Char('a')).command == m.current_cell(),
        m.after_key(Key::Char('a')).cursor == ((byte_len(m.current_cell())) as u16, 0u16),
        m.after_key(Key::Char('c')).input == InputMode::Insert,
        m.after_key(Key::Char('c')).command == Seq::<char>::empty(),
        m.after_key(Key::Char('y')) == (ModeView { paste: m.current_cell(), ..m }),
        m.after_key(Key::Char('d')).paste == m.current_cell(),
        cell_at(m.after_key(Key::Char('d')).cells, m.position.0 as int, m.position.1 as int)
            == Seq::<char>::empty(),
        cell_at(m.after_key(Key::Char('p')).cells, m.position.0 as int, m.position.1 as int)
            == m.paste,
        m.after_key(Key::Char('t')).view != m.view,
        m.after_key(Key::Char('m')).minimap != m.minimap,
        m.after_key(Key::Char('g')).input == InputMode::Command,
        m.after_key(Key::Char('g')).command == "gc "@,
        m.after_key(Key::Char('G')).command == "gr "@,
        m.after_key(Key::Char('g')).cursor == (3u16, 0u16),
        m.after_key(Key::Char('G')).cursor == (3u16, 0u16),
{
    reveal_strlit("gc ");
    reveal_strlit("gr ");
    assert(byte_len("gc "@) == 3) by {
        lemma_byte_len_concat(seq!['g'], seq!['c', ' ']);
        lemma_byte_len_concat(seq!['c'], seq![' ']);
        lemma_byte_len_single('g');
        lemma_byte_len_single('c');
        lemma_byte_len_single(' ');
        assert(seq!['g'] + (seq!['c'] + seq![' ']) =~= "gc "@);
        assert(seq!['c'] + seq![' '] =~= seq!['c', ' ']);
    }
    assert(byte_len("gr "@) == 3) by {
        lemma_byte_len_concat(seq!['g'], seq!['r', ' ']);
        lemma_byte_len_concat(seq!['r'], seq![' ']);
        lemma_byte_len_single('g');
        lemma_byte_len_single('r');
        lemma_byte_len_single(' ');
        assert(seq!['g'] + (seq!['r'] + seq![' ']) =~= "gr "@);
        assert(seq!['r'] + seq![' '] =~= seq!['r', ' ']);
    }
    law_write_then_read(m.cells, m.position.0 as int, m.position.1 as int, Seq::empty(), m.cols as int);
    law_write_then_read(m.cells, m.position.0 as int, m.position.1 as int, m.paste, m.cols as int);
}

/// Typing puts the character's bytes at the cursor's byte offset, with the
/// bytes before and after it unchanged, and moves the cursor one byte on.
pub proof fn law_type_inserts_at_cursor(m: ModeView, c: char)
    requires
        m.can_type(),
    ensures
        byte_len(m.typed(c).command) == byte_len(m.command) + byte_len(seq![c]),
        m.typed(c).command == m.command.take(char_index(m.command, m.cursor.0 as int)) + seq![c]
            + m.command.skip(char_index(m.command, m.cursor.0 as int)),
        byte_len(m.command.take(char_index(m.command, m.cursor.0 as int))) == m.cursor.0,
        m.typed(c).cursor.0 == m.cursor.0 + 1,
{
    let s = m.command;
    let k = char_index(s, m.cursor.0 as int);
    lemma_boundary_prefix(s, m.cursor.0 as int);
    assert(s.insert(k, c) =~= s.take(k) + seq![c] + s.skip(k));
    assert(s =~= s.take(k) + s.skip(k));
    lemma_byte_len_concat(s.take(k) + seq![c], s.skip(k));
    lemma_byte_len_concat(s.take(k), seq![c]);
    lemma_byte_len_concat(s.take(k), s.skip(k));
}

/// Every body line shows exactly `text_width` characters (where the
/// terminal is that wide): the start of its cell's text, padded with spaces.
/// The current cell, while edited, shows the edited text.
pub proof fn law_line_text(d: ModeView, i: int)
    requires
        0 <= d.text_width(),
    ensures
        d.line_text(i).len() == d.text_width(),
        ({
            let (x, y) = d.line_cell(i);
            let t = if x == d.position.0 && y == d.position.1 && d.input == InputMode::Insert {
                d.command
            } else if has_cell(d.cells, x, y) {
                d.cells[y][x]
            } else {
                "¶"@
            };
            let n = if t.len() < d.text_width() { t.len() as int } else { d.text_width() };
            &&& d.line_text(i).take(n) == t.take(n)
            &&& forall|k: int| n <= k < d.text_width() ==> #[trigger] d.line_text(i)[k] == ' '
        }),
{
    let (x, y) = d.line_cell(i);
    let t = if x == d.position.0 && y == d.position.1 && d.input == InputMode::Insert {
        d.command
    } else if has_cell(d.cells, x, y) {
        d.cells[y][x]
    } else {
        "¶"@
    };
    let n = if t.len() < d.text_width() { t.len() as int } else { d.text_width() };
    assert(d.line_text(i).take(n) =~= t.take(n));
}

/// The colour of a body line: in normal mode the current cell is inverted,
/// a cell missing from a row that exists is red, the rest normal; in insert
/// mode the edited cell is normal and the rest dull.
pub proof fn law_line_styles(d: ModeView, i: int)
    ensures
        ({
            let (x, y) = d.line_cell(i);
            let current = x == d.position.0 && y == d.position.1;
            let missing = 0 <= y < d.cells.len() && !has_cell(d.cells, x, y);
            &&& d.input == InputMode::Normal ==> (d.line_style(i) == Style::Invr) == current
            &&& d.input == InputMode::Normal ==> (d.line_style(i) == Style::Red) == (!current
                && missing)
            &&& d.input != InputMode::Normal ==> (d.line_style(i) == Style::Norm) == current
            &&& d.input != InputMode::Normal ==> (d.line_style(i) == Style::Dull) == !current
        }),
{
}

/// A key of normal mode bound to nothing is shown escaped, ending at the
/// right edge of the terminal on its bottom row, and changes nothing but
/// keeping the bottom line.
pub proof fn law_unbound_key_shown(m: ModeView, c: char)
    requires
        m.input == InputMode::Normal,
        !ModeView::is_bound(c),
        m.dims.0 >= byte_len(crate::text::escaped(c)),
    ensures
        m.key_effect(Key::Char(c)) == (EffectView::ShowKey {
            code: crate::text::escaped(c),
            column: (m.dims.0 - byte_len(crate::text::escaped(c))) as u16,
            at: m.dims.1,
        }),
        m.after_key(Key::Char(c)) == (ModeView { no_clear: true, ..m }),
{
}

/// `set minimap` toggles the minimap; `set minimap width N` and `set
/// minimap height N` set that size to N, and without N to 10 and 6.
pub proof fn law_set_minimap(m: ModeView, w: Seq<Seq<char>>)
    requires
        w.len() >= 2,
        w[0] == "set"@,
        w[1] == "minimap"@,
    ensures
        w.len() == 2 ==> m.after_command(w) == (ModeView { minimap: !m.minimap, ..m }),
        w.len() == 3 && w[2] == "width"@ ==> m.after_command(w).minimap_width == 10,
        w.len() == 3 && w[2] == "height"@ ==> m.after_command(w).minimap_height == 6,
        w.len() >= 4 && w[2] == "width"@ && parsed_u16(w[3]) is Some
            ==> m.after_command(w).minimap_width == parsed_u16(w[3])->0,
        w.len() >= 4 && w[2] == "height"@ && parsed_u16(w[3]) is Some
            ==> m.after_command(w).minimap_height == parsed_u16(w[3])->0,
        command_effect(w) == EffectView::Nothing,
        m.after_command(w).position == m.position,
        m.after_command(w).cells == m.cells,
        !m.after_command(w).exit || m.exit,
{
    reveal_strlit("q");
    reveal_strlit("w");
    reveal_strlit("set");
    reveal_strlit("width");
    reveal_strlit("height");
    assert("set"@.len() != "q"@.len());
    assert("set"@.len() != "w"@.len());
    assert("width"@.len() != "height"@.len());
}

} // verus!
