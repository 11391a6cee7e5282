# rs_diffcopy

Compares two directory trees (or three, against a common ancestor), copies
the differences into an output tree with the same layout, writes unified-diff
patches, and reports the result as a console/text summary and an Excel
workbook.

The crate is written in Verus:

- `src/` is the verified library. Each module states its behaviour in
  `requires`/`ensures` contracts over spec functions:
  - `types`, `filter`, `cli`, `config`: statuses, status filters, options and
    the merging of command line, configuration file and settings; the saved
    TOML text.
  - `comparator`, `three_way`, `path_order`: classification of each path
    from what the file system shows of it, statistics, the order of paths and
    the assembly of a result; the three-way copy plan.
  - `copier`, `patch`, `scanner`, `safety`, `run`: what is copied where, patch
    text, exclusion patterns, output-directory safety and exit codes.
  - `summary`, `three_way_summary`, `path_tree`, `report_text`: the text
    reports, including the file tree drawing.
  - `excel`, `three_way_excel`, `sheet`, `tree_layout`: the workbook reports
    as sheets of cells.
  - `progress`, `utils`, `text`: progress display decisions, display width,
    sizes, CP932 conversion and string helpers.
  Calls into `globset`, `similar`, `unicode-width`, `encoding_rs`, `blake3`
  and `colored` go through small trusted wrappers whose contracts are
  documented where they stand.
- `app/` is the program around the library: argument parsing (clap),
  configuration files (serde/toml), walking and reading the file system
  (the library hashes the bytes read), copying, progress bars (indicatif), saving workbooks
  (rust_xlsxwriter) and the console.
- `tests/` exercises the library on concrete values.
