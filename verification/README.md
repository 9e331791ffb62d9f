# org_wiki

A wiki whose pages are org-mode files in a git repository, served over HTTP.

- `src/` is the library, with its contracts and proofs: page paths
  (`paths`), the HTML cache layout (`cache`), page metadata (`page`), commit
  messages and repository decisions (`git`), Pandoc output (`export`),
  configuration merging (`config`), webhook signatures, payloads and the
  order of a webhook's steps (`webhook`), request and response bodies and
  the order of a save's steps (`api`), and serving a page as a state
  machine (`view`).  `text` holds the character-sequence helpers.
- `app/` is the web server around it: command line, file system, git,
  Pandoc, HTTP routes, sessions, templates and metrics.
- `tests/` exercises the library on concrete values.
