# fit_portal

A client for the student portal at www.fit.ba: logging in, fetching pages
with stored cookies, reading the news list and single news items.

- `src/` is the verified library (Verus). It describes every request the
  client sends (`http`, `portal`, `home`), reads the portal's answers
  (`portal`, `home`, `details`), orders the exchanges of a login and of a
  news-list reading as step functions (`flow`), picks values out of HTML pages with the
  `scraper` crate (`scrape`), and holds the text utilities the rest is built
  on (`text`). Each public function's contract states its result exactly;
  proof functions state laws such as reading back saved cookie lines and
  the word structure of news texts.
- `app/` performs the network and file I/O with `reqwest`, turns results
  into JSON with `serde_json`, and holds the `dioxus` login screen.
- `tests/` runs the library on concrete pages and values.
