use ted::draw::{draw, Frame, MiniCell, Style};
use ted::mode::{key_delegate, InputMode, Key, Mode};

fn editor(rows: &[&[&str]], dims: (u16, u16)) -> Mode {
    Mode::new(rows.iter().map(|r| csv::StringRecord::from(r.to_vec())).collect(), dims)
}

fn frame(m: &mut Mode) -> Frame {
    assert!(m.can_draw());
    draw(m)
}

#[test]
fn body_shows_the_column_being_walked() {
    let mut m = editor(&[&["a", "b"], &["c"]], (40, 6));
    m.minimap = false;
    match frame(&mut m) {
        Frame::Sheet { minimap, body } => {
            assert!(minimap.is_none());
            let b = body.unwrap();
            assert_eq!(b.margin, 0);
            assert_eq!(b.lines.len(), 5);
            let labels: Vec<u16> = b.lines.iter().map(|l| l.label).collect();
            assert_eq!(labels, vec![0, 1, 2, 3, 4]);
            let at: Vec<u16> = b.lines.iter().map(|l| l.at).collect();
            assert_eq!(at, vec![1, 2, 3, 4, 5]);
            assert_eq!(b.lines[0].text, format!("{:<35}", "a"));
            assert_eq!(b.lines[1].text, format!("{:<35}", "c"));
            assert_eq!(b.lines[2].text, format!("{:<35}", "¶"));
            assert!(b.lines[0].style == Style::Invr);
            assert!(b.lines[1].style == Style::Norm);
            assert!(b.lines[2].style == Style::Norm);
            assert_eq!(b.status_at, 6);
            assert_eq!((b.row, b.col), (0, 0));
            assert_eq!(b.cursor, (6, 1));
        }
        _ => panic!("no sheet drawn"),
    }
    assert_eq!(m.margin, 0);
    assert_eq!(m.offset, 0);
}

#[test]
fn a_missing_field_of_an_existing_row_is_red() {
    let mut m = editor(&[&["a", "b"], &["c"]], (40, 6));
    m.minimap = false;
    m.position = (1, 0);
    match frame(&mut m) {
        Frame::Sheet { body: Some(b), .. } => {
            assert_eq!(b.lines[0].text, format!("{:<35}", "b"));
            assert!(b.lines[0].style == Style::Invr);
            assert_eq!(b.lines[1].text, format!("{:<35}", "¶"));
            assert!(b.lines[1].style == Style::Red);
            assert!(b.lines[2].style == Style::Norm);
        }
        _ => panic!("no body drawn"),
    }
}

#[test]
fn long_cells_are_cut_to_the_width() {
    let mut m = editor(&[&["abcdefghij"]], (12, 4));
    m.minimap = false;
    match frame(&mut m) {
        Frame::Sheet { body: Some(b), .. } => {
            assert_eq!(b.lines[0].text, "abcdefg");
        }
        _ => panic!("no body drawn"),
    }
}

#[test]
fn the_body_scrolls_to_the_current_cell() {
    let mut m = editor(&[&["a"]], (40, 6));
    m.minimap = false;
    m.position = (0, 10);
    match frame(&mut m) {
        Frame::Sheet { body: Some(b), .. } => {
            let labels: Vec<u16> = b.lines.iter().map(|l| l.label).collect();
            assert_eq!(labels, vec![6, 7, 8, 9, 10]);
            assert!(b.lines[4].style == Style::Invr);
            assert_eq!(b.cursor, (6, 5));
            assert_eq!((b.row, b.col), (10, 0));
        }
        _ => panic!("no body drawn"),
    }
    assert_eq!(m.offset, 6);
    m.position = (0, 2);
    frame(&mut m);
    assert_eq!(m.offset, 2);
}

#[test]
fn row_view_walks_along_the_row() {
    let mut m = editor(&[&["a", "b", "c"]], (40, 5));
    m.minimap = false;
    key_delegate(Key::Char('t'), &mut m);
    match frame(&mut m) {
        Frame::Sheet { body: Some(b), .. } => {
            assert_eq!(b.lines[1].text, format!("{:<35}", "b"));
            assert_eq!(b.lines[2].text, format!("{:<35}", "c"));
            assert_eq!(b.lines[3].text, format!("{:<35}", "¶"));
            assert!(b.lines[3].style == Style::Red);
        }
        _ => panic!("no body drawn"),
    }
}

#[test]
fn the_edited_cell_shows_the_edit() {
    let mut m = editor(&[&["a"], &["b"]], (40, 5));
    m.minimap = false;
    key_delegate(Key::Char('c'), &mut m);
    key_delegate(Key::Char('z'), &mut m);
    assert!(m.input == InputMode::Insert);
    match frame(&mut m) {
        Frame::Sheet { body: Some(b), .. } => {
            assert_eq!(b.lines[0].text, format!("{:<35}", "z"));
            assert!(b.lines[0].style == Style::Norm);
            assert!(b.lines[1].style == Style::Dull);
            assert_eq!(b.cursor, (7, 1));
        }
        _ => panic!("no body drawn"),
    }
}

#[test]
fn the_minimap_marks_the_current_cell_and_line() {
    let mut m = editor(&[&["a", "b"], &["c"]], (80, 24));
    match frame(&mut m) {
        Frame::Sheet { minimap: Some(mm), body: Some(b) } => {
            assert_eq!(mm.width, 15);
            assert_eq!(mm.pad, 11);
            assert_eq!((mm.top, mm.left, mm.right, mm.bottom), (0, 0, 5, 5));
            assert_eq!((mm.bottom_at, mm.corner_col, mm.corner_at, mm.below_at), (9, 13, 8, 10));
            assert_eq!(mm.blank_rows, (11..=23).collect::<Vec<u16>>());
            assert_eq!(mm.rows.len(), 6);
            assert_eq!(mm.rows[0].at, 3);
            assert_eq!(mm.rows[5].at, 8);
            assert!(mm.rows[0].squares[0].cell == MiniCell::Current);
            assert!(mm.rows[1].squares[0].cell == MiniCell::Line);
            assert!(mm.rows[0].squares[1].cell == MiniCell::Other { exists: true });
            assert!(mm.rows[1].squares[1].cell == MiniCell::Other { exists: false });
            assert!(mm.rows[0].squares[1].reset);
            assert_eq!(b.margin, 14);
            assert_eq!(b.lines[0].text.chars().count(), 61);
        }
        _ => panic!("no minimap drawn"),
    }
    assert_eq!(m.margin, 14);
}

#[test]
fn the_minimap_follows_the_cursor_a_page_at_a_time() {
    let mut m = editor(&[&["a"]], (80, 24));
    m.position = (7, 0);
    frame(&mut m);
    assert_eq!(m.mode_pos, (6, 0));
    m.position = (3, 0);
    frame(&mut m);
    assert_eq!(m.mode_pos, (0, 0));
    m.position = (0, 20);
    frame(&mut m);
    assert_eq!(m.mode_pos, (0, 6));
}

#[test]
fn a_shown_key_keeps_the_body() {
    let mut m = editor(&[&["a"]], (80, 24));
    key_delegate(Key::Char('z'), &mut m);
    match frame(&mut m) {
        Frame::Sheet { minimap, body } => {
            assert!(minimap.is_some());
            assert!(body.is_none());
        }
        _ => panic!("no sheet drawn"),
    }
}

#[test]
fn the_command_line_is_drawn_on_the_bottom_row() {
    let mut m = editor(&[&["a"]], (80, 24));
    key_delegate(Key::Char(':'), &mut m);
    key_delegate(Key::Char('g'), &mut m);
    key_delegate(Key::Char('r'), &mut m);
    match frame(&mut m) {
        Frame::Command { at, text, cursor_col } => {
            assert_eq!(at, 24);
            assert_eq!(text, "gr");
            assert_eq!(cursor_col, 4);
        }
        _ => panic!("no command line drawn"),
    }
}

#[test]
fn select_mode_draws_nothing() {
    let mut m = editor(&[&["a"]], (80, 24));
    m.input = InputMode::Select;
    match frame(&mut m) {
        Frame::Blank => {}
        _ => panic!("something drawn"),
    }
}

#[test]
fn a_terminal_too_small_is_refused() {
    let mut m = editor(&[&["a"]], (10, 24));
    assert!(!m.can_draw());
    m.minimap = false;
    assert!(m.can_draw());
    m.dims = (10, 1);
    assert!(!m.can_draw());
    m.no_clear = true;
    assert!(m.can_draw());
    let mut m = editor(&[&["a"]], (80, 24));
    m.minimap_width = 0;
    assert!(!m.can_draw());
}
