# wiki

A command-line client for Wikipedia that picks the language edition from the
script of the query.

- `src/` is the verified library:
  - `lang` — detection of the language edition from the characters of a query;
  - `wiki` — form encoding of the query and the sorting of failed requests;
  - `json` — decoding of the API's answer (through serde_json) into a JSON value,
    and the first page found in it;
  - `cli` — command-line options, the language choice, the search address and
    the messages printed;
  - `output` — terminal widths, article header and footer, page addresses;
  - `interactive` — a cursor over a list of entries and the text that shows it;
  - `text` — byte-level comparison of strings and decimal digits.
- `app/` is the program: argument input, the HTTP request, printing (including
  the JSON output), and the terminal handling of the list.
- `tests/` runs the library on concrete inputs.
