use ted::mode::{
    command_parse, get_cell, key_delegate, mod_r, set_cell, valid, Dir, Effect, InputMode, Key,
    Mode, ViewMode,
};

fn sheet(rows: &[&[&str]]) -> Vec<csv::StringRecord> {
    rows.iter().map(|r| csv::StringRecord::from(r.to_vec())).collect()
}

fn grid(m: &Mode) -> Vec<Vec<String>> {
    m.cells.iter().map(|r| r.iter().map(|f| f.to_string()).collect()).collect()
}

fn editor(rows: &[&[&str]]) -> Mode {
    Mode::new(sheet(rows), (80, 24))
}

fn press(m: &mut Mode, key: Key) -> Effect {
    assert!(m.accepts(key), "key {:?} refused", key_name(key));
    key_delegate(key, m)
}

fn key_name(key: Key) -> String {
    match key {
        Key::Char(c) => format!("{:?}", c),
        _ => "special".to_string(),
    }
}

fn type_text(m: &mut Mode, s: &str) {
    for c in s.chars() {
        press(m, Key::Char(c));
    }
}

#[test]
fn new_mode_starts_in_normal_column_view() {
    let m = editor(&[&["a", "b", "c"], &["d"]]);
    assert!(m.view == ViewMode::Column);
    assert!(m.input == InputMode::Normal);
    assert_eq!(m.position, (0, 0));
    assert_eq!(m.cols, 3);
    assert!(m.minimap);
    assert_eq!((m.minimap_width, m.minimap_height), (6, 6));
    assert_eq!(m.dims, (80, 24));
    assert!(!m.exit);
}

#[test]
fn new_mode_on_empty_sheet_has_no_columns() {
    let m = Mode::new(Vec::new(), (80, 24));
    assert_eq!(m.cols, 0);
}

#[test]
fn get_cell_reads_cells_and_empty_outside() {
    let mut m = editor(&[&["a", "b"], &["c"]]);
    assert_eq!(get_cell(&mut m), "a");
    m.position = (1, 0);
    assert_eq!(get_cell(&mut m), "b");
    m.position = (1, 1);
    assert_eq!(get_cell(&mut m), "");
    m.position = (0, 7);
    assert_eq!(get_cell(&mut m), "");
}

#[test]
fn set_cell_replaces_an_existing_cell() {
    let mut m = editor(&[&["a", "b"], &["c"]]);
    m.position = (1, 0);
    set_cell("B", &mut m);
    assert_eq!(grid(&m), vec![vec!["a", "B"], vec!["c"]]);
}

#[test]
fn set_cell_extends_a_short_row() {
    let mut m = editor(&[&["a", "b"], &["c"]]);
    m.position = (3, 1);
    set_cell("x", &mut m);
    assert_eq!(grid(&m), vec![vec!["a", "b"], vec!["c", "", "", "x"]]);
}

#[test]
fn set_cell_adds_rows_as_wide_as_the_first() {
    let mut m = editor(&[&["a", "b", "c"]]);
    m.position = (1, 3);
    set_cell("x", &mut m);
    assert_eq!(
        grid(&m),
        vec![
            vec!["a", "b", "c"],
            vec!["", "", ""],
            vec!["", "", ""],
            vec!["", "x", ""],
        ]
    );
}

#[test]
fn set_cell_adds_rows_wide_enough_for_the_cell() {
    let mut m = editor(&[&["a"]]);
    m.position = (2, 1);
    set_cell("x", &mut m);
    assert_eq!(grid(&m), vec![vec!["a"], vec!["", "", "x"]]);
}

#[test]
fn mod_r_replaces_one_field_only() {
    let r = csv::StringRecord::from(vec!["a", "b", "c"]);
    let m = mod_r(&r, 1, "X");
    assert_eq!(m.iter().collect::<Vec<_>>(), vec!["a", "X", "c"]);
    let m = mod_r(&r, 5, "X");
    assert_eq!(m.iter().collect::<Vec<_>>(), vec!["a", "b", "c"]);
}

#[test]
fn valid_tells_existing_cells() {
    let cells = sheet(&[&["a", "b"], &["c"]]);
    assert!(valid(&cells, 1, 0));
    assert!(!valid(&cells, 1, 1));
    assert!(!valid(&cells, 0, 2));
}

#[test]
fn moves_in_column_view() {
    let mut m = editor(&[&["a"]]);
    press(&mut m, Key::Char('j'));
    press(&mut m, Key::Char('j'));
    assert_eq!(m.position, (0, 2));
    press(&mut m, Key::Char('k'));
    assert_eq!(m.position, (0, 1));
    press(&mut m, Key::Char('l'));
    assert_eq!(m.position, (1, 1));
    press(&mut m, Key::Char('h'));
    press(&mut m, Key::Char('h'));
    assert_eq!(m.position, (0, 1));
    press(&mut m, Key::Right);
    assert_eq!(m.position, (0, 2));
    press(&mut m, Key::Left);
    assert_eq!(m.position, (0, 1));
    press(&mut m, Key::Up);
    assert_eq!(m.position, (1, 1));
    press(&mut m, Key::Down);
    assert_eq!(m.position, (0, 1));
}

#[test]
fn moves_swap_axes_in_row_view() {
    let mut m = editor(&[&["a"]]);
    press(&mut m, Key::Char('t'));
    assert!(m.view == ViewMode::Row);
    press(&mut m, Key::Char('j'));
    assert_eq!(m.position, (1, 0));
    press(&mut m, Key::Char('l'));
    assert_eq!(m.position, (1, 1));
    press(&mut m, Key::Char('k'));
    press(&mut m, Key::Char('k'));
    assert_eq!(m.position, (0, 1));
    press(&mut m, Key::Char('t'));
    assert!(m.view == ViewMode::Column);
}

#[test]
fn moves_stop_at_zero_and_refuse_to_overflow() {
    let mut m = editor(&[&["a"]]);
    press(&mut m, Key::Char('k'));
    press(&mut m, Key::Char('h'));
    assert_eq!(m.position, (0, 0));
    m.position = (0, u16::MAX);
    assert!(!m.accepts(Key::Char('j')));
    m.position = (u16::MAX, 0);
    assert!(!m.accepts(Key::Char('l')));
    assert!(!m.accepts(Key::Char('d')));
}

#[test]
fn edit_type_and_enter_writes_the_cell() {
    let mut m = editor(&[&["abc"]]);
    press(&mut m, Key::Char('i'));
    assert!(m.input == InputMode::Insert);
    assert_eq!(m.command, "abc");
    assert_eq!(m.cursor, (0, 0));
    type_text(&mut m, "X");
    assert_eq!(m.command, "Xabc");
    assert_eq!(m.cursor, (1, 0));
    press(&mut m, Key::Char('\n'));
    assert!(m.input == InputMode::Normal);
    assert_eq!(grid(&m), vec![vec!["Xabc"]]);
}

#[test]
fn append_starts_at_the_end() {
    let mut m = editor(&[&["abc"]]);
    press(&mut m, Key::Char('a'));
    assert_eq!(m.cursor, (3, 0));
    type_text(&mut m, "!\n");
    assert_eq!(grid(&m), vec![vec!["abc!"]]);
}

#[test]
fn append_puts_the_cursor_after_the_bytes() {
    let mut m = editor(&[&["é"]]);
    press(&mut m, Key::Char('a'));
    assert_eq!(m.cursor, (2, 0));
}

#[test]
fn change_starts_from_nothing() {
    let mut m = editor(&[&["abc", "d"]]);
    press(&mut m, Key::Char('c'));
    assert_eq!(m.command, "");
    type_text(&mut m, "zz\n");
    assert_eq!(grid(&m), vec![vec!["zz", "d"]]);
}

#[test]
fn escape_drops_the_edit() {
    let mut m = editor(&[&["abc"]]);
    press(&mut m, Key::Char('i'));
    type_text(&mut m, "XYZ");
    press(&mut m, Key::Esc);
    assert!(m.input == InputMode::Normal);
    assert_eq!(grid(&m), vec![vec!["abc"]]);
}

#[test]
fn editing_a_missing_cell_creates_it() {
    let mut m = editor(&[&["a"]]);
    press(&mut m, Key::Char('j'));
    press(&mut m, Key::Char('i'));
    assert_eq!(m.command, "");
    type_text(&mut m, "new\n");
    assert_eq!(grid(&m), vec![vec!["a"], vec!["new"]]);
}

#[test]
fn backspace_and_cursor_moves_on_the_line() {
    let mut m = editor(&[&["abc"]]);
    press(&mut m, Key::Char('a'));
    press(&mut m, Key::Backspace);
    assert_eq!(m.command, "ab");
    assert_eq!(m.cursor, (2, 0));
    press(&mut m, Key::Left);
    press(&mut m, Key::Left);
    press(&mut m, Key::Left);
    assert_eq!(m.cursor, (0, 0));
    press(&mut m, Key::Backspace);
    assert_eq!(m.command, "ab");
    press(&mut m, Key::Right);
    press(&mut m, Key::Right);
    press(&mut m, Key::Right);
    assert_eq!(m.cursor, (2, 0));
    press(&mut m, Key::Up);
    press(&mut m, Key::Down);
    assert_eq!(m.cursor, (2, 0));
}

#[test]
fn typing_after_a_wide_character_is_refused() {
    let mut m = editor(&[&[""]]);
    press(&mut m, Key::Char('i'));
    press(&mut m, Key::Char('é'));
    assert_eq!(m.command, "é");
    assert_eq!(m.cursor, (1, 0));
    assert!(!m.accepts(Key::Char('x')));
    press(&mut m, Key::Backspace);
    assert_eq!(m.command, "");
    assert_eq!(m.cursor, (0, 0));
}

#[test]
fn yank_then_paste_copies_a_cell() {
    let mut m = editor(&[&["a", "b"]]);
    press(&mut m, Key::Char('y'));
    assert_eq!(m.paste, "a");
    press(&mut m, Key::Char('l'));
    press(&mut m, Key::Char('p'));
    assert_eq!(grid(&m), vec![vec!["a", "a"]]);
}

#[test]
fn delete_then_paste_puts_the_cell_back() {
    let mut m = editor(&[&["a", "b"]]);
    press(&mut m, Key::Char('l'));
    press(&mut m, Key::Char('d'));
    assert_eq!(grid(&m), vec![vec!["a", ""]]);
    assert_eq!(m.paste, "b");
    press(&mut m, Key::Char('p'));
    assert_eq!(grid(&m), vec![vec!["a", "b"]]);
}

#[test]
fn colon_opens_the_command_line() {
    let mut m = editor(&[&["a"]]);
    press(&mut m, Key::Char(':'));
    assert!(m.input == InputMode::Command);
    assert_eq!(m.command, "");
    press(&mut m, Key::Esc);
    press(&mut m, Key::Char(';'));
    assert!(m.input == InputMode::Command);
}

#[test]
fn command_q_asks_to_exit() {
    let mut m = editor(&[&["a"]]);
    press(&mut m, Key::Char(':'));
    type_text(&mut m, "q");
    assert!(!m.exit);
    press(&mut m, Key::Char('\n'));
    assert!(m.exit);
    assert!(m.input == InputMode::Normal);
}

#[test]
fn command_w_asks_to_save() {
    let mut m = editor(&[&["a"]]);
    press(&mut m, Key::Char(':'));
    type_text(&mut m, "w");
    match press(&mut m, Key::Char('\n')) {
        Effect::Save => {}
        _ => panic!("no save asked"),
    }
    assert!(!m.exit);
}

#[test]
fn command_esc_runs_nothing() {
    let mut m = editor(&[&["a"]]);
    press(&mut m, Key::Char(':'));
    type_text(&mut m, "q");
    press(&mut m, Key::Esc);
    assert!(!m.exit);
    assert!(m.input == InputMode::Normal);
}

#[test]
fn goto_row_and_column() {
    let mut m = editor(&[&["a"]]);
    command_parse("gr 12", &mut m);
    assert_eq!(m.position, (0, 12));
    command_parse("gc 7", &mut m);
    assert_eq!(m.position, (7, 12));
    command_parse("gc nope", &mut m);
    assert_eq!(m.position, (7, 12));
    command_parse("gc 70000", &mut m);
    assert_eq!(m.position, (7, 12));
    command_parse("gr", &mut m);
    assert_eq!(m.position, (7, 0));
    command_parse("  gc  ", &mut m);
    assert_eq!(m.position, (0, 0));
}

#[test]
fn g_and_capital_g_prompt_for_a_jump() {
    let mut m = editor(&[&["a"]]);
    press(&mut m, Key::Char('g'));
    assert!(m.input == InputMode::Command);
    assert_eq!(m.command, "gc ");
    assert_eq!(m.cursor, (3, 0));
    type_text(&mut m, "4\n");
    assert_eq!(m.position, (4, 0));
    press(&mut m, Key::Char('G'));
    assert_eq!(m.command, "gr ");
    type_text(&mut m, "9\n");
    assert_eq!(m.position, (4, 9));
}

#[test]
fn set_minimap_commands() {
    let mut m = editor(&[&["a"]]);
    command_parse("set minimap", &mut m);
    assert!(!m.minimap);
    command_parse("set minimap", &mut m);
    assert!(m.minimap);
    command_parse("set minimap width 8", &mut m);
    assert_eq!(m.minimap_width, 8);
    command_parse("set minimap width x", &mut m);
    assert_eq!(m.minimap_width, 8);
    command_parse("set minimap width", &mut m);
    assert_eq!(m.minimap_width, 10);
    command_parse("set minimap height 3", &mut m);
    assert_eq!(m.minimap_height, 3);
    command_parse("set minimap height", &mut m);
    assert_eq!(m.minimap_height, 6);
    command_parse("set minimap depth 3", &mut m);
    command_parse("set other", &mut m);
    command_parse("unknown", &mut m);
    assert!(m.minimap);
    assert_eq!((m.minimap_width, m.minimap_height), (10, 6));
}

#[test]
fn m_toggles_the_minimap() {
    let mut m = editor(&[&["a"]]);
    press(&mut m, Key::Char('m'));
    assert!(!m.minimap);
    press(&mut m, Key::Char('m'));
    assert!(m.minimap);
}

#[test]
fn unbound_keys_are_shown_at_the_bottom_right() {
    let mut m = editor(&[&["a"]]);
    match press(&mut m, Key::Char('z')) {
        Effect::ShowKey { code, column, at } => {
            assert_eq!(code, "z");
            assert_eq!(column, 79);
            assert_eq!(at, 24);
        }
        _ => panic!("key not shown"),
    }
    assert!(m.no_clear);
    match press(&mut m, Key::Char('\u{1}')) {
        Effect::ShowKey { code, column, .. } => {
            assert_eq!(code, "\\u{1}");
            assert_eq!(column, 75);
        }
        _ => panic!("key not shown"),
    }
}

#[test]
fn other_keys_do_nothing() {
    let mut m = editor(&[&["a"]]);
    match press(&mut m, Key::Other) {
        Effect::Nothing => {}
        _ => panic!("unexpected effect"),
    }
    press(&mut m, Key::Backspace);
    press(&mut m, Key::Esc);
    assert_eq!(m.position, (0, 0));
    assert!(m.input == InputMode::Normal);
}

#[test]
fn select_mode_ignores_keys() {
    let mut m = editor(&[&["a"]]);
    m.input = InputMode::Select;
    press(&mut m, Key::Char('j'));
    assert_eq!(m.position, (0, 0));
}

#[test]
fn move_cell_directly() {
    let mut m = editor(&[&["a"]]);
    m.move_cell(Dir::Down);
    m.move_cell(Dir::Left);
    assert_eq!(m.position, (1, 1));
}
