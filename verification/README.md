# treasuror

A ledger for the treasury of a nomic game, verified with Verus.

The state file (`data/state.txt`) names the assets in use, the entities and their
holdings, the flotation and the report counter. The transaction logs (`data/tll/*`) hold
blocks of dated lines: transfers, payments, destructions and commands such as `#payday`,
`#nuke`, `#relevel` or `#report`. The ledger enters them in order, keeps every entity's
balances and a history of what happened, and writes the weekly report.

Layout:

- `src/text.rs`, `src/clock.rs`, `src/words.rs`, `src/tabulate.rs`: text, dates and
  times, numbers in words, wrapped text and laid-out tables.
- `src/parser/`: the tokenizer, the parsers of amounts, transactions, commands, log
  lines and state directives, and the line-by-line readers of both kinds of file.
- `src/model/`: currencies, entities and their table, the ledger (`context.rs`) with the
  rules it follows (`ledger.rs`) and what holds across its operations (`laws.rs`), the
  history, the report, and the day-by-day samples that the charts draw (`chart.rs`).
- `app/`: the program, which reads the files, enters the logs, and draws the chart of
  coins over time (`treasuror [DATE [TIME]]`, or `treasuror plotter [DATE [TIME]]` for the
  chart of each large holder).
