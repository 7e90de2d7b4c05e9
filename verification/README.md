# dcscrape

Saves the articles on the first board page of a DC Inside mobile gallery,
with their comments, as text files under `data/{gallery}/{time}/`.

- `src/` is the library, verified with Verus: the article and comment
  model, the saved text of an article, reading the board page, an
  article's page and the comment service's answer, page addresses, and the
  character-level operations these rest on. The calls into `scraper`,
  `regex` and `html2text` are in `src/outside.rs`, with the contracts that
  are believed of them.
- `app/` is the program: it reads the gallery name from the command line,
  fetches the pages with `reqwest` on `tokio`, and writes the files.
- `tests/` runs the library on sample pages and values.

Usage: `dcscrape <gallery>`.
