# pixiv_downloader

The core of a downloader for pixiv and pixiv FANBOX, written in Verus with
its behaviour stated in `requires` / `ensures` contracts and proved.

## Layout

- `src/` – the verified library
  - `downloader/pd_file/` – the resumable download state file (the "pd
    file"): its byte layout, the state of each part, versions, and the
    proof that reading back what is written gives the same state
  - `downloader/plan.rs`, `downloader/state.rs` – the decisions of a
    download: which range to ask for, what to do with a response, with each
    event of its stream and with each finished task, and when to retry
  - `cookies.rs`, `set_cookie.rs` – cookies and cookie jars, Netscape cookie
    files (with the proof that a saved jar reads back as itself) and
    `Set-Cookie` headers
  - `author_name_filter.rs` – filters that clean author names, simple or
    regular expressions
  - `artwork.rs`, `data/` – what is read from the JSON of an artwork, the
    metadata saved next to it and given to the video of an animation
  - `db/`, `ext/`, `exif.rs`, `dur.rs`, `json_value.rs`, `text.rs` –
    configuration types, small helpers and the text functions the proofs use
- `tests/` – tests of the library
- `app/` – the command line program around it: files on disk, JSON parsing,
  shared cookie jars
