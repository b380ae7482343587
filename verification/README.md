# celeste

The verified core of Celeste, a desktop client that syncs local folders with
cloud storage through rclone.

- `src/` is the library, verified with Verus:
  - `text` — characters of strings, `lines`, `trim`, substring search;
  - `json` — JSON string literals and objects as rclone reads them, and the
    two reply shapes the library parses;
  - `rclone` — remotes and their configurations, read from rclone's replies;
    `rclone::sync` builds the requests of the sync operations;
  - `login` — server types, the `config/create` request of a login, and why a
    login fails; `login::import` parses and merges rclone configuration files;
  - `tray` — the tray's message and icon, and icon pixel conversion.
- `tests/` runs the library on concrete values.
- `app/` holds what surrounds it: the calls into librclone, the ksni tray
  service with gdk-pixbuf icon decoding, file access when importing a
  configuration, and the login steps.
