# oxideterm

Verified core logic of a terminal and SFTP workspace, written in Verus.

- `src/` is the verified library. Every public function states what it
  returns over mathematical models (`Seq`, `Option`, spec functions), and the
  laws that relate several functions are public proof functions.
  - `text` — character-level string operations (`trim`, `split`, `replace`,
    number parsing and formatting, UTF-8 widths) with exact specifications.
  - `sftp` — remote path quoting and normalisation, archive and copy command
    planning, the `ls -l` listing parser, session decisions, what an
    accepted file dialog (rename, new folder or file, delete) does, and the
    step order of content writes and configuration-file replacement.
  - `remote_paste`, `external_edit` — state machines that a driver feeds with
    the outcomes of remote operations and file polls; `begin_remote_paste`
    answers a paste request and consumes a cut clipboard as the paste starts.
  - `settings_model`, `settings_view`, `workspace`, `ui` — settings identities,
    navigation, sidebar persistence keys, session readiness and labels, and
    which runtime session each saved connection claims.
  - `sidebar_layout` — the order of the session sidebar's rows: folders and
    their entries, ungrouped entries, ad-hoc sessions, unclaimed runtime rows.
  - `i18n` — message catalogs, JSON flattening and locale fallback. Callers
    hand the locale files in as JSON documents (`CatalogSources`,
    `I18n::with_sources`; `app/i18n_json.rs` reads JSON text into them). The
    built-in catalogs behind `I18n::new` hold only a few messages: they are a
    stand-in for the application's locale files, which are not part of this
    crate, and every other key falls back to the key itself there.
  - `launcher`, `theme` — `wsl.exe` output decoding, colour notations, and the
    assembly of custom theme palettes from decoded colours.
- `app/` holds what the library leaves to its callers: process spawning,
  file-system work, JSON parsing with `serde_json`, floating-point geometry
  and `std::error::Error` types.
- `tests/` exercise the library on concrete values.
