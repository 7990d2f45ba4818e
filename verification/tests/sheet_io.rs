use ted::mode::{key_delegate, Effect, Key, Mode};
use ted::sheet::{read_cells, write_cells, LoadError};

fn fields(rows: &[csv::StringRecord]) -> Vec<Vec<String>> {
    rows.iter().map(|r| r.iter().map(|f| f.to_string()).collect()).collect()
}

#[test]
fn read_cells_accepts_rows_of_any_length() {
    let rows = read_cells(b"a,b,c\nd\n,e\n").unwrap();
    assert_eq!(
        fields(&rows),
        vec![vec!["a", "b", "c"], vec!["d"], vec!["", "e"]]
    );
}

#[test]
fn read_cells_takes_no_header_row() {
    let rows = read_cells(b"name,price\nx,1\n").unwrap();
    assert_eq!(rows.len(), 2);
    assert_eq!(&rows[0][0], "name");
}

#[test]
fn read_cells_unquotes_fields() {
    let rows = read_cells(b"\"x,y\",\"say \"\"hi\"\"\"\n").unwrap();
    assert_eq!(fields(&rows), vec![vec!["x,y", "say \"hi\""]]);
}

#[test]
fn read_cells_refuses_invalid_utf8() {
    match read_cells(b"a,\xff\xfe\n") {
        Err(LoadError::Csv(_)) => {}
        Ok(_) => panic!("invalid UTF-8 was accepted"),
    }
}

#[test]
fn read_cells_of_empty_input_is_empty() {
    assert!(read_cells(b"").unwrap().is_empty());
}

#[test]
fn write_cells_writes_rows_of_any_length() {
    let rows = vec![
        csv::StringRecord::from(vec!["a", "b"]),
        csv::StringRecord::from(vec!["c"]),
    ];
    assert_eq!(write_cells(&rows).unwrap(), b"a,b\nc\n".to_vec());
}

#[test]
fn write_cells_quotes_where_needed() {
    let rows = vec![csv::StringRecord::from(vec!["x,y", "plain", "q\"t"])];
    assert_eq!(
        String::from_utf8(write_cells(&rows).unwrap()).unwrap(),
        "\"x,y\",plain,\"q\"\"t\"\n"
    );
}

#[test]
fn write_then_read_gives_the_rows_back() {
    let rows = vec![
        csv::StringRecord::from(vec!["a", "b,c", ""]),
        csv::StringRecord::from(vec!["d", "e"]),
    ];
    let bytes = write_cells(&rows).unwrap();
    assert_eq!(fields(&read_cells(&bytes).unwrap()), fields(&rows));
}

#[test]
fn write_cells_of_no_rows_is_empty() {
    assert!(write_cells(&Vec::new()).unwrap().is_empty());
}

#[test]
fn editing_one_value_and_saving_changes_only_that_value() {
    let cells = read_cells(b"item,price\napple,3\npear,5\n").unwrap();
    let mut m = Mode::new(cells, (80, 24));
    for k in [Key::Char('j'), Key::Char('l'), Key::Char('c'), Key::Char('9'), Key::Char('\n')] {
        assert!(m.accepts(k));
        key_delegate(k, &mut m);
    }
    for k in [Key::Char(':'), Key::Char('w')] {
        key_delegate(k, &mut m);
    }
    match key_delegate(Key::Char('\n'), &mut m) {
        Effect::Save => {}
        _ => panic!("no save asked"),
    }
    assert_eq!(
        String::from_utf8(write_cells(&m.cells).unwrap()).unwrap(),
        "item,price\napple,9\npear,5\n"
    );
}
