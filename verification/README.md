# disk_reviewer

A disk space viewer: it scans a drive, shows the directory tree as a
treemap coloured by file category, keeps snapshots of scans in SQLite and
compares a snapshot with the current scan.

- `src/` is the library, verified with Verus: the scanned tree and its
  aggregation of small entries, file categories and colours, the order and
  content of the treemap blocks, size labels, path handling, the comparison of
  two trees, the rows a snapshot is stored as, navigation in the tree and in
  the comparison view, and the state of the snapshot dialog.
- `app/` is the program around it: the Win32 directory listing and drive
  enumeration, the background scan thread, JSON and SQLite storage, the
  floating-point placement of the treemap rectangles and the egui windows.
- `tests/` runs the library on concrete trees.
