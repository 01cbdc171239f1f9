# rehyke_core

A web crawler that turns pages into clean Markdown, with its logic verified
by Verus.

- `src/` is the library, whose functions carry contracts that Verus proves:
  URL parsing and normalization, robots.txt rules, the crawl frontier and its
  limits, politeness delays, proxy rotation, content-type detection, the HTML,
  feed, sitemap and JSON readers, link extraction and classification, the
  Markdown converter, the command-line and Python option handling, and the
  crawl state machine (`crawl.rs`) that decides what to fetch next. Calls into
  `url`, `percent-encoding`, `regex`, `quick-xml`, `scraper`, `serde_json`,
  `rand` and `dashmap` (the crawl frontier's sets of seen URLs and its
  per-host access times) stand behind small trusted wrappers whose contracts
  name what the outside crate returns or holds.
- `app/` is the `rehyke` command: argument parsing, HTTP with `reqwest`, the
  async crawl loop that performs what the library's state machine asks for,
  file output, and the floating-point parts of browser fingerprints.
- `tests/` exercises the library on concrete values.
