use vstd::prelude::*;

use crate::clock::{Date, DateTime, Time};
use crate::parser::command::{parse_command, Command, CommandView};
use crate::parser::error::{AnyError, ErrorKind, ParseError, SyntaxError, SyntaxErrorView};
use crate::parser::token::{tokenize, Token, TokenIterator, TokenView};
use crate::parser::transaction::{parse_transaction, Transaction};
use crate::text::{is_blank, trim};

verus! {

pub enum AnyErrorView {
    Parse(Seq<char>),
    Syntax(SyntaxErrorView),
}

impl View for AnyError {
    type V = AnyErrorView;

    open spec fn view(&self) -> AnyErrorView {
        match self {
            AnyError::Parse(ParseError::Unparseable(s)) => AnyErrorView::Parse(s@),
            AnyError::Syntax(e) => AnyErrorView::Syntax(e@),
        }
    }
}

/// The error for a line with nothing on it.
pub open spec fn empty_line_error() -> AnyErrorView {
    AnyErrorView::Syntax(SyntaxErrorView { message: Seq::empty(), kind: ErrorKind::Empty })
}

/// A dated command from a transaction log.
#[derive(Debug)]
pub struct Line {
    datetime: DateTime,
    action: Command,
}

pub struct LineView {
    pub datetime: DateTime,
    pub action: CommandView,
}

impl View for Line {
    type V = LineView;

    closed spec fn view(&self) -> LineView {
        LineView { datetime: self.datetime, action: self.action@ }
    }
}

/// The command of a line's tokens (after any time): `#name args` for a named command,
/// and a transaction otherwise.
pub open spec fn parse_action(t: Seq<TokenView>) -> Result<CommandView, SyntaxErrorView> {
    if t.len() > 0 && t[0] is Command {
        match t[0] {
            TokenView::Command(c) => parse_command(c, t.drop_first()),
            _ => Err(SyntaxErrorView { message: Seq::empty(), kind: ErrorKind::Empty }),
        }
    } else {
        match parse_transaction(t).0 {
            Ok(tv) => Ok(CommandView::Transaction(tv)),
            Err(e) => Err(e),
        }
    }
}

/// A line of a log under the date `date`: an optional `[HH:MM]` time (midnight where
/// there is none), then a command.
pub open spec fn parse_line(date: Date, s: Seq<char>) -> Result<LineView, AnyErrorView> {
    if trim(s).len() == 0 {
        Err(empty_line_error())
    } else {
        match tokenize(s) {
            Err(e) => Err(AnyErrorView::Parse(e)),
            Ok(ts) => {
                let (datetime, rest) = if ts.len() > 0 && ts[0] is Time {
                    (
                        DateTime {
                            date,
                            time: match ts[0] {
                                TokenView::Time(t) => t,
                                _ => Time { hour: 0, minute: 0 },
                            },
                        },
                        ts.drop_first(),
                    )
                } else {
                    (DateTime { date, time: Time { hour: 0, minute: 0 } }, ts)
                };
                match parse_action(rest) {
                    Ok(action) => Ok(LineView { datetime, action }),
                    Err(e) => Err(AnyErrorView::Syntax(e)),
                }
            },
        }
    }
}

impl Line {
    /// The line `ln` of a log, under the date `date`.
    pub fn with_date_from_str(date: Date, ln: &str) -> (r: Result<Line, AnyError>)
        ensures
            match parse_line(date, ln@) {
                Ok(v) => r matches Ok(l) && l@ == v,
                Err(e) => r matches Err(x) && x@ == e,
            },
    {
        if is_blank(ln) {
            return Err(AnyError::Syntax(SyntaxError { message: String::new(), kind: ErrorKind::Empty }));
        }
        let mut tokens = match TokenIterator::with_source(ln).collect_all() {
            Ok(v) => v,
            Err(e) => {
                return Err(AnyError::Parse(e));
            },
        };
        let datetime = if tokens.len() > 0 && match &tokens[0] {
            Token::Time(_) => true,
            _ => false,
        } {
            proof { crate::parser::expect::lemma_tokens_view_remove_first(tokens@); }
            match tokens.remove(0) {
                Token::Time(t) => date.and_time(t),
                _ => date.at_midnight(),
            }
        } else {
            date.at_midnight()
        };
        let is_command = tokens.len() > 0 && match &tokens[0] {
            Token::Command(_) => true,
            _ => false,
        };
        let action = if is_command {
            proof { crate::parser::expect::lemma_tokens_view_remove_first(tokens@); }
            match tokens.remove(0) {
                Token::Command(c) => match Command::from_name_and_vec(c, tokens) {
                    Ok(c) => c,
                    Err(e) => {
                        return Err(AnyError::Syntax(e));
                    },
                },
                _ => {
                    return Err(AnyError::Syntax(SyntaxError { message: String::new(), kind: ErrorKind::Empty }));
                },
            }
        } else {
            match Transaction::from_vec(tokens) {
                Ok(t) => Command::Transaction(t),
                Err(e) => {
                    return Err(AnyError::Syntax(e));
                },
            }
        };
        Ok(Line { datetime, action })
    }

    pub fn datetime(&self) -> (r: DateTime)
        ensures
            r == self@.datetime,
    {
        self.datetime
    }

    pub fn action(&self) -> (r: &Command)
        ensures
            r@ == self@.action,
    {
        &self.action
    }

    /// The same as `datetime`, under another name.
    pub fn get_datetime(&self) -> (r: DateTime)
        ensures
            r == self@.datetime,
    {
        self.datetime
    }

    /// The same as `action`, under another name.
    pub fn get_action(&self) -> (r: &Command)
        ensures
            r@ == self@.action,
    {
        &self.action
    }
}

} // verus!
