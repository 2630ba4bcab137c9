# wandb_ft

A lightweight Weights & Biases client for Python, whose logic is a Rust
library verified with Verus.

## Layout

- `src/` — the verified library:
  - `text` — string helpers (decimal and hex rendering, trimming, search);
  - `error` — the client's errors and their messages;
  - `netrc` — where the netrc file lives and how the API key is read from it;
  - `artifact`, `manifest` — artifact entries, name checks, and the JSON
    manifest (entries sorted by name, the last of equal names kept);
  - `digest` — SHA-256, MD5 and base64 digests;
  - `data_value` — logged values and rows (maps with distinct keys);
  - `media` — HTML, image and video media, their upload paths and records;
  - `video` — the checks and `ffmpeg` arguments of video encoding;
  - `gql` — the replies of the backend's GraphQL operations and what is
    read from them;
  - `run`, `backend` — a run's endpoints, rows, upload targets and client ids;
  - `flow` — the request sequences of logging a row with media and of
    logging an artifact, as state machines.
- `app/` — the Python module (pyo3), the HTTP requests (reqwest), file I/O,
  serde types and the `ffmpeg` process around the library.
- `tests/` — tests of the library.
