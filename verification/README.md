# netru

Reading and writing the Linux desktop's system proxy settings — GNOME through
`gsettings`, KDE Plasma through `kreadconfig`/`kwriteconfig` (and `gsettings`
for GTK applications) — with the logic verified by Verus.

- `src/` — the verified library. Operations that write return the commands to
  run, in order; operations that read take the output of the commands that
  the desktop's queries name. `text.rs` holds the text primitives (trimming,
  splitting, quoting, decimal ports) with their models on `Seq<char>`;
  `desktop.rs` the desktop and the command builders; `linux.rs` the reading
  and writing of each setting; `sysproxy.rs` the settings types and the
  operations that do not depend on the desktop; `laws.rs` the read-back laws.
- `app/` — the part that touches the system: environment variables, the
  location of `kioslaverc`, running the commands, and the error type with its
  `thiserror` impls.
- `tests/` — tests of the library on concrete values.
