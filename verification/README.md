# rdfwalk

A terminal browser for RDF data reached through a SPARQL endpoint. The
library under `src/` holds its logic, verified with Verus:

- `util::string` — shortening to a width, collapsing text to one line,
  padding, joining, decimal numbers.
- `app::model` — RDF terms, the browser's items and results.
- `app` — what each key press does in each screen, where the browser starts,
  moving the selection, toggling and removing bookmarks.
- `app::edit` — editing a text input at a byte cursor: pasting, deleting,
  moving left and right.
- `app::history` — going back and forward between visited resources.
- `app::browse` — the browser's lines for a resource, section by section, and
  the IRIs whose labels they show.
- `rdf::display` — how IRIs, blank nodes and literals are shown (label, prefixed
  form or bracketed IRI) and written into SPARQL.
- `rdf::sparql` — the queries sent for a resource, the error for a failed
  HTTP reply, the reading of a SPARQL XML results document (through
  sparesults) into a table, and how the tables are read into the browser's
  lines.
- `ui::*` — the text of each screen: address bar, section lines and jumps
  between sections, the selected triple in N-Triples, result columns, status line, cursor
  position.

`app/` is the terminal program around it: arguments, the HTTP request,
drawing with ratatui, the clipboard, the bookmarks file (confy), and the
event loop.
