use vstd::prelude::*;

use crate::clock::{chrono_ymd, parse_date_ymd, Date};
use crate::parser::error::AnyError;
use crate::parser::line::{parse_line, Line};
use crate::text::{is_blank, string_of, trim, trimmed_chars};

verus! {

/// What a line of a transaction log amounts to.
#[derive(Debug)]
pub enum TllEvent {
    /// A blank line, or the date that heads a block.
    Skip,
    /// A line of a dated block, or why it is not one.
    Line(Result<Line, AnyError>),
    /// A line outside any block that is not a date.
    Stray,
}

/// Reads a transaction log line by line: the caller reads each line and hands it over.
/// The log is made of blocks, each a date on a line of its own and then the lines of
/// that date; a blank line ends a block.
#[derive(Debug)]
pub struct Parser {
    date: Option<Date>,
    linum: u32,
}

pub struct ParserView {
    pub date: Option<Date>,
    pub linum: u32,
}

impl View for Parser {
    type V = ParserView;

    closed spec fn view(&self) -> ParserView {
        ParserView { date: self.date, linum: self.linum }
    }
}

impl Parser {
    /// A reader before the first line, outside any block.
    pub fn new() -> (r: Parser)
        ensures
            r@ == (ParserView { date: None, linum: 1 }),
    {
        Parser { date: None, linum: 1 }
    }

    /// The number of the last line handed over, counted from two.
    pub fn linum(&self) -> (r: u32)
        ensures
            r == self@.linum,
    {
        self.linum
    }

    /// The date of the block being read, if any.
    pub fn date(&self) -> (r: Option<Date>)
        ensures
            r == self@.date,
    {
        self.date
    }

    /// Takes the next line of the log.
    pub fn feed(&mut self, text: &str) -> (r: TllEvent)
        requires
            old(self)@.linum < u32::MAX,
        ensures
            final(self)@.linum == old(self)@.linum + 1,
            trim(text@).len() == 0 ==> r is Skip && final(self)@.date is None,
            trim(text@).len() != 0 && old(self)@.date is Some ==> final(self)@.date == old(
                self,
            )@.date && (r matches TllEvent::Line(l) && match parse_line(
                old(self)@.date->0,
                text@,
            ) {
                Ok(v) => l matches Ok(x) && x@ == v,
                Err(e) => l matches Err(x) && x@ == e,
            }),
            trim(text@).len() != 0 && old(self)@.date is None ==> match chrono_ymd(trim(text@)) {
                Some((y, m, d)) => r is Skip && final(self)@.date == Some(
                    Date { year: y, month: m, day: d },
                ),
                None => r is Stray && final(self)@.date is None,
            },
    {
        self.linum = self.linum + 1;
        if is_blank(text) {
            self.date = None;
            return TllEvent::Skip;
        }
        match self.date {
            Some(d) => TllEvent::Line(Line::with_date_from_str(d, text)),
            None => {
                let t = trimmed_chars(text);
                let s = string_of(t.as_slice());
                match parse_date_ymd(s.as_str()) {
                    Some(d) => {
                        self.date = Some(d);
                        TllEvent::Skip
                    },
                    None => TllEvent::Stray,
                }
            },
        }
    }
}

} // verus!
