# qingjian

The decision logic of the Qingjian Android keyboard, written in Verus and proved against
its contracts.

- `src/` is the verified library: key and bar actions (`action`, `dispatch`), fingers followed by
  pointer id on the keys, the candidate bar and the expanded panel (`fingers`, `presses`,
  `bar`, `touch`), the long-press choice row and the key preview
  bubble (`chooser`, `popup`), the clipboard
  and emoji histories (`recent`, `clipboard`, with the line format in `escape` and `lines`),
  the emoji panel's pages and tabs (`emoji_panel`, `paging`), what the shell is told after
  an event (`outbox`, `command`), settings values and the file they live in (`config`,
  `config_watch`) and the cloud prediction options (`predict`).
- `app/` is the plain Rust around it: files on disk, the settings file's path, logging,
  and the floating-point gestures (distance tests on touches, flings, slides).
- `tests/` runs the library on concrete values.
