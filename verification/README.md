# frontlane_static

The verified core of a static-site archiver: it maps the URLs of a crawled
site to files in a backup directory and rewrites the links inside HTML pages
and stylesheets so that the copy works offline.

- `src/` is the library, written in Verus. Every function carries a contract
  that Verus proves; `src/laws.rs` states the properties that span functions
  (every local file stays below the output directory, chunks cover an asset,
  a recorded file is what a lookup returns, foreign links are kept, ...).
  Calls into `url`, `scraper`, `pathdiff`, `mime_guess` and `base64` stand
  behind small trusted wrappers whose contracts name or state their results.
- `app/` is the command-line crawler around it: argument parsing, the
  `spider` crawl, HTTP downloads, files, progress bars, Markdown export and
  headless rendering.
- `tests/` runs the library on concrete inputs.
