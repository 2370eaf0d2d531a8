# zfstop

A terminal monitor for ZFS hosts: pools and their I/O, datasets, snapshots,
scrubs, pool status, NFS/SMB shares, the ARC, network interfaces and Docker
containers.

- `src/` is the verified library. It parses the output of `zpool`, `zfs` and
  the kstat files, keeps the monitor's state, and decides what each key press
  and each answer from the system does. Every function there carries a
  contract that Verus proves, except six small wrappers around outside
  functions, whose contracts Verus takes on trust:
  `output::from_utf8_lossy` (`String::from_utf8_lossy`),
  `text::push_char` (`String::push`), `text::pop_char` (`String::pop`),
  `view::is_alphanumeric` (`char::is_alphanumeric`), and
  `layout::split_middle_row` / `layout::split_middle_column` (ratatui's
  `Layout::vertical` / `Layout::horizontal` and `split`).
  - `text`: the string handling the parsers are built on (lines, words, trim,
    find, numbers).
  - `zfs`: one module per kind of output.
  - `app`: the state of the monitor, navigation, key handling, and the
    requests it makes of the system with the replies it takes back.
  - `view`: the labels and colour classes that the screens show.
- `app/` runs the program: it reads the system, performs the requests, and
  draws the screens with ratatui.
- `tests/` runs the library on concrete inputs.
