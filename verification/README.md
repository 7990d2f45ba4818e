# ted

A terminal editor for CSV files. The sheet is shown one column (or one row)
at a time beside a minimap of the cells around the cursor; keys move between
cells, edit them, cut, copy and paste them, and `:` opens a command line
(`q` to quit, `w` to save, `gr N` / `gc N` to jump, `set minimap ...`).

- `src/` is the verified library: the editor state and its key bindings
  (`mode`), the `:` commands (`words`, `mode`), the layout of the screen
  (`draw`), text helpers (`text`), the rows held as `csv::StringRecord`
  (`record`), reading and writing CSV bytes through the `csv` crate
  (`sheet`), and the laws that hold across operations (`laws`).
- `app/` is the terminal program: it reads and writes the file, turns
  termion keys into the editor's keys and draws each frame with termion.
- `tests/` runs the library on concrete sheets, keys and screens.
