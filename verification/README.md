# domain

The library of a small photo diary: an admin logs in with the deployment's
token and posts entries with photos; a diary is shared read-only through a
random link.

- `src/auth.rs` — admin sessions: login, logout and validation, with the
  laws that tie them together (a session is valid until it expires, a
  logged-out or expired cookie stays refused).
- `src/diary.rs` — diaries, entries and photos; grouping entries into days;
  checking and preparing a new entry; civil time in the diary's zone.
- `src/images.rs` — blob hashes, the width ladder of variants, variant URLs,
  preparing an upload (hash, upright size, resized variants), and the
  decisions of the blob sweep.
- `src/raster.rs` — decoding an upload upright and resizing pixels.
- `src/views.rs` — the rendering model of pages (`srcset`, tilt, alt text).
- `src/error.rs`, `src/forms.rs`, `src/text.rs`, `src/tokens.rs`,
  `src/zones.rs` — errors and their HTTP statuses, form fields, decimal and
  hexadecimal numerals and trimming, random keys and base64, time zones.
- `app/` — the HTTP server around the library: routes, handlers, SQLite
  storage, WebP encoding, and the files on disk.
