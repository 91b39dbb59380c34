# paintbrush

A command-line client for Canvas LMS, written so that its logic is verified
with Verus.

- `src/` is the verified library: Link-header pagination and the rule that
  pagination stays on the Canvas domain, token freshness and refresh
  decisions, the web-session fetch decisions, the profile file (a sorted set
  of names with a default), the text of every listing and detail view, and
  the parsing of wiki-page URLs.
- `app/` is the program around it: command-line parsing, HTTP, OAuth, the
  OS keychain, the profiles file on disk, the browser, and printing.
- `tests/` runs the library on concrete values.
