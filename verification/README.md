# fund_core

Fund queries and portfolio tracking against the Tiantian fund service, with
the query planning, page reading and bookkeeping rules proved in Verus.

- `src/` is the verified library. It plans every request (`api`, `f10`,
  `realtime`), reads the archive pages and replies (`html`, `f10`,
  `realtime`), and holds the date arithmetic (`calendar`, `clock`), the
  portfolio rules (`holdings`, `config`, `retry`), the scoring combination
  (`scoring`, `analysis`) and the terminal layout helpers (`layout`).
- `app/` is the `fund` command-line program around it: HTTP, JSON decoding,
  the SQLite ledger, the holdings file, floating-point statistics and the
  terminal output.
- `tests/` runs the library on concrete inputs.
