# voanews

A reader for VOA news pages with a small web server around it.

* `src/` is the library, verified with Verus:
  * `app/parse_titles.rs` – which listing addresses are read, and how the
    media blocks of a listing page become headline entries;
  * `app/parse_ps.rs` – article addresses and the rows an article or
    newscast page becomes;
  * `app/main.rs` – the entry and row types, the `/api/desc` decision and the
    `/<id>` redirect;
  * `app/impls/transcribe.rs`, `util/youdao_transcribe.rs` – newscast audio
    addresses, local file paths and the Youdao upload form;
  * `app/impls/translate.rs` – the signed Youdao translation form and the
    lines shown for its answer;
  * `my_trait/query.rs` – CSS queries on a page or an element;
  * `text.rs` – trimming, numerals, integer parsing, joining;
  * `deps.rs` – the calls into `regex`, `sha256`, `base64`, `uuid` and
    `scraper`, whose contracts are assumed.
* `app/` is the Rocket server: routes, HTTP requests, files and JSON.
* `tests/` runs the library on concrete pages and values.

The server reads the Youdao credentials from `YOUDAO_APP_KEY` and
`YOUDAO_APP_SECRET`.
