# web_crawler

A small breadth-first web crawler whose logic is verified with Verus.

- `src/` is the verified library:
  - `frontier` — the FIFO queue of URLs to crawl and the set of every URL ever
    admitted, with laws on deduplication and ordering;
  - `crawler` — the crawler state, the decisions of the crawl loop
    (`next_step`, `record_page`, `record_fetch_failure`) and of the control
    requests (`seed`, `start`, `stop`, `status`);
  - `parser` — title and link extraction from HTML (queried with `scraper`);
  - `robots` — robots.txt rules (read with `texting_robots`) and the
    per-origin cache;
  - `web_url` — URLs by their serialization (parsed and joined with `url`);
  - `fetcher`, `storage` — fetch errors and statuses, crawl records;
  - `text` — decimal rendering and white-space trimming.
- `app/` is the HTTP server (axum), the network fetches (reqwest), the crawl
  loop that drives the state machine, and the JSON-lines output file.
- `tests/` exercises the library on concrete values.
