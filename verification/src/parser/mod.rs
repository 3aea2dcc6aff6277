pub mod combinators;
pub mod command;
pub mod directive;
pub mod error;
pub mod expect;
pub mod gsdl;
pub mod line;
pub mod tll;
pub mod token;
pub mod transaction;

pub use crate::parser::error::{AnyError, ErrorKind, ParseError, ParseResult, SyntaxError, SyntaxResult};
pub use crate::parser::token::{Decimal, Operator, Token, TokenIterator};
pub use crate::parser::transaction::{AtomicTransaction, Trade, Transaction};
pub use crate::parser::command::Command;
pub use crate::parser::line::Line;
pub use crate::parser::directive::Directive;
