//! A ledger for the treasury of a nomic game: parses the state file and the
//! transaction logs, and keeps the balances, history and report figures.

pub mod model;
pub mod text;
pub mod words;
pub mod clock;
pub mod parser;
pub mod tabulate;
