# arperge

A music library server. The library crate (`src/`) holds its logic with
Verus contracts and proofs; `app/` is the server program around it.

- `storage` — normalising song metadata (lower case, punctuation removed,
  title words dropped), cutting it into byte-window tokens, the lookup
  criteria of an imported song, the SQL of the lookups (built with sqlx's
  `QueryBuilder`), and the weighting and pruning of the songs found.
- `processor` — what ffprobe reports of a file, the arguments of ffprobe and
  ffmpeg, and the import job as a state machine: each step takes what the
  outside work (probe, lookup, transcode) gave and names the next work.
- `config` — the configuration and its defaults.
- `text`, `number`, `path` — strings as characters, pattern replacement and
  trimming; decimal numbers; the file name of a path.
- `models` — songs, artists and albums.

`app/` reads the configuration file, runs ffprobe and ffmpeg, talks to
SQLite, moves imported files and serves the web API.
