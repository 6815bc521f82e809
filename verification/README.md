# NixClip

The rules of a clipboard-history manager, verified with Verus.

- `src/` is the library. It holds the classification and processing of what is
  copied, the privacy filter, the search, the plans by which the history is
  stored, read and pruned, the message frames, and the decisions of the daemon,
  of the command line and of the popup. Every function carries a contract, and
  the functions named `law_…` state what holds across them.
- `app/` is ordinary Rust around it: the SQLite database, the socket, the
  command line, the session bus and the GTK windows.
- `tests/` runs the library on concrete values.
