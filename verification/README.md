# cliphist-tui

A terminal browser for the `cliphist` clipboard history, on top of `fzf`, with previews of
pictures and videos.

- `src/` is the library. It decides which row stands for a clipboard entry, what is previewed,
  copied or opened for its content, and which program is called with which arguments. Every
  function has a contract, and Verus proves it.
- `src/outside.rs` holds all that is taken on trust: what is said of the functions of `infer`,
  `rand`, `regex`, `urlencoding`, `xxhash-rust` and of the standard library that the library calls.
- `app/` is the program: processes, files, the terminal and the command line.
- `tests/` runs the library on concrete values.

The main laws are public proof functions beside the functions they speak of:

- a path written into a `file://` URL is read back unchanged (`url::url_names_its_path`), so that
  what is copied for a path opens and previews that path (`open::copied_url_opens_path`,
  `preview::copied_url_previews_path`);
- the rows of the list follow its entries, numbered without a gap (`list::rows_follow_entries`),
  and the id in a row leads back to its line (`list::row_begins_with_id`,
  `list::id_leads_to_its_line`);
- copying an entry deletes it once, after all else (`copy::copy_ends_in_deletion`);
- line ends behind an entry change no preview (`preview::run_preview`,
  `preview::line_ends_change_no_preview`), if the entry is neither empty without them nor a picture;
- a label is not labelled again (`label::label_is_kept`), if the extension that it may repeat is
  ASCII, or holds no quote and no space;
- content without a known mark is shown as it is (`label::plain_content_is_kept`);
- what is noted of a terminal is read back (`display::cache_is_read_back`).
