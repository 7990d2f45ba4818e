use ted::mode::{command_parse, get_cell, key_delegate, normal_mode, set_cell, Dir, Key, Mode};

fn editor(rows: &[&[&str]]) -> Mode {
    Mode::new(rows.iter().map(|r| csv::StringRecord::from(r.to_vec())).collect(), (80, 24))
}

fn reads(m: &mut Mode, x: u16, y: u16) -> String {
    let keep = m.position;
    m.position = (x, y);
    let s = get_cell(m);
    m.position = keep;
    s
}

#[test]
fn a_written_cell_reads_back_and_others_stay() {
    let mut m = editor(&[&["a", "b"], &["c"]]);
    let before: Vec<String> = (0..4).flat_map(|y| (0..4).map(move |x| (x, y)))
        .map(|(x, y)| reads(&mut m, x, y)).collect();
    m.position = (2, 3);
    set_cell("new", &mut m);
    assert_eq!(get_cell(&mut m), "new");
    let mut k = 0;
    for y in 0..4 {
        for x in 0..4 {
            if (x, y) != (2, 3) {
                assert_eq!(reads(&mut m, x, y), before[k], "cell {} {}", x, y);
            }
            k += 1;
        }
    }
}

#[test]
fn paste_after_yank_changes_no_reading() {
    let mut m = editor(&[&["a", "b"], &["c"]]);
    m.position = (3, 4);
    key_delegate(Key::Char('y'), &mut m);
    key_delegate(Key::Char('p'), &mut m);
    for y in 0..6 {
        for x in 0..6 {
            let expected = match (x, y) {
                (0, 0) => "a",
                (1, 0) => "b",
                (0, 1) => "c",
                _ => "",
            };
            assert_eq!(reads(&mut m, x, y), expected);
        }
    }
}

#[test]
fn paste_after_delete_restores_the_cell() {
    let mut m = editor(&[&["a", "b"], &["c"]]);
    m.position = (0, 1);
    key_delegate(Key::Char('d'), &mut m);
    assert_eq!(get_cell(&mut m), "");
    key_delegate(Key::Char('p'), &mut m);
    assert_eq!(get_cell(&mut m), "c");
}

#[test]
fn toggles_twice_undo() {
    let mut m = editor(&[&["a"]]);
    let (v, mm) = (m.view, m.minimap);
    m.view_toggle();
    m.view_toggle();
    m.minimap_toggle();
    m.minimap_toggle();
    assert!(m.view == v);
    assert_eq!(m.minimap, mm);
}

#[test]
fn opposite_moves_undo() {
    let mut m = editor(&[&["a"]]);
    m.position = (4, 9);
    for _ in 0..2 {
        m.move_cell(Dir::Down);
        m.move_cell(Dir::Up);
        assert_eq!(m.position, (4, 9));
        m.move_cell(Dir::Left);
        m.move_cell(Dir::Right);
        assert_eq!(m.position, (4, 9));
        m.view_toggle();
    }
}

#[test]
fn typing_then_erasing_gives_the_line_back() {
    let mut m = editor(&[&["héllo"]]);
    key_delegate(Key::Char('a'), &mut m);
    let (line, cursor) = (m.command.clone(), m.cursor);
    for c in ['x', 'é', '日', '\u{1f600}'] {
        key_delegate(Key::Char(c), &mut m);
        key_delegate(Key::Backspace, &mut m);
        assert_eq!(m.command, line);
        assert_eq!(m.cursor, cursor);
    }
}

#[test]
fn keys_keep_the_cursor_within_the_line() {
    let mut m = editor(&[&["abc"], &["é"]]);
    let keys = [
        Key::Char('i'), Key::Right, Key::Right, Key::Right, Key::Right, Key::Backspace,
        Key::Char('z'), Key::Esc, Key::Char('j'), Key::Char('a'), Key::Backspace, Key::Left,
        Key::Char('\n'), Key::Char(':'), Key::Char('g'), Key::Left, Key::Backspace, Key::Esc,
        Key::Char('g'),
    ];
    for k in keys {
        if m.accepts(k) {
            key_delegate(k, &mut m);
        }
        assert_eq!(m.cursor.1, 0);
        assert!(m.cursor.0 as usize <= m.command.len());
    }
}

#[test]
fn spacing_makes_no_difference_to_a_command() {
    let cmds = ["  set\tminimap   width  9 ", " gr   4", "q  ", "\tgc\t2\t"];
    for cmd in cmds {
        let joined = cmd.split_ascii_whitespace().collect::<Vec<_>>().join(" ");
        let mut m1 = editor(&[&["a"]]);
        let mut m2 = editor(&[&["a"]]);
        command_parse(cmd, &mut m1);
        command_parse(&joined, &mut m2);
        assert_eq!(m1.position, m2.position);
        assert_eq!(m1.exit, m2.exit);
        assert_eq!((m1.minimap_width, m1.minimap_height), (m2.minimap_width, m2.minimap_height));
    }
}

#[test]
fn normal_bindings_work_from_any_mode() {
    let mut m = editor(&[&["a"]]);
    m.input = ted::mode::InputMode::Insert;
    normal_mode(Key::Char('j'), &mut m);
    assert_eq!(m.position, (0, 1));
}
