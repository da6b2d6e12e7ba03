# webdown

Converts web pages to Markdown. The library (`src/`, verified with Verus)
holds the decisions; the program (`app/`) does the I/O around them.

- `config` — the configuration types and their defaults.
- `matcher` — domain patterns (`example.com`, `*.example.com`, `*`) and the
  choice of the first matching rule, with the defaults merged in.
- `weburl` — the parts of a URL that the rules read, as the `url` crate parses them.
- `fetcher` — the requested URL (an HTML source fetches the page's own
  URL; an API source the URL rewritten by `url_template`), the
  authentication header, the status check, and the extraction of HTML from
  a response (JSON `body_path` through `serde_json`, CSS `selector` through `scraper`).
- `loader` — which configuration file is used, and the user's configuration directory.
- `engine` — the converter's options and the JSON document it reads
  (strings written by `serde_json`).
- `text` — character-sequence operations the above are built from.

`app/` reads the environment and the configuration file (YAML through
`serde_yaml`), performs the HTTP request (`reqwest`), and runs the
Turndown.js converter in Wasmtime; the compiled `turndown.wasm`
(built from Turndown.js with Javy) is embedded in the binary.
