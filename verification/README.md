# trade_tracker

A tracker for bitcoin and bitcoin-option trading on the LedgerX exchange:
it follows the exchange's order books and our own orders, keeps a price
history, and turns the account history into lot-by-lot tax reports.

The library in `src/` is written in Verus. Its functions carry contracts
over mathematical models (sequences, maps and integers standing for
prices, quantities and times), and Verus proves that each function meets
its contract and never panics. The public `law_*` proof functions state
properties that span several functions, such as what a cancel does to an
order book or that sorting tax events keeps them all.

Layout of `src/`:

- `units/`: prices and quantities as exact decimals, dates and times,
  assets, and the bounds within which arithmetic on them is defined.
- `ledgerx/`: contracts, the data-feed messages, order books, own-order
  tracking, the exchange-wide tracker, and under `history/` the account
  history with lots, tax events and the CSV reports.
- `price.rs`, `timemap.rs`: the bitcoin price history and the time-ordered
  map that holds it.
- `coinbase.rs`, `connect.rs`, `transaction.rs`, `csv.rs`, `text.rs`,
  `terminal.rs`, `option.rs`: price messages, the connection's decision
  loop, bitcoin transactions, CSV and text helpers, terminal colours and
  option values.

Calls into outside crates (`rust_decimal`, `chrono`, `time`, `bitcoin`)
stand behind small trusted wrappers whose contracts say what those crates
document; everything around them is verified.

`app/` is the program around the library: command-line handling, files,
HTTP and websocket I/O, logging, and the floating-point option statistics.
