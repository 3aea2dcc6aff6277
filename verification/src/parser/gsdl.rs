use vstd::prelude::*;

use crate::parser::directive::{parse_directive, Directive};
use crate::parser::error::AnyError;
use crate::text::{is_blank, trim};

verus! {

/// What a line of the state file amounts to.
#[derive(Debug)]
pub enum GsdlEvent {
    /// A blank line.
    Skip,
    /// A directive, or why the line is not one.
    Directive(Result<Directive, AnyError>),
}

/// Reads the state file line by line: the caller reads each line and hands it over.
#[derive(Debug)]
pub struct Parser {
    linum: u32,
}

impl View for Parser {
    type V = u32;

    closed spec fn view(&self) -> u32 {
        self.linum
    }
}

impl Parser {
    /// A reader before the first line.
    pub fn new() -> (r: Parser)
        ensures
            r@ == 0,
    {
        Parser { linum: 0 }
    }

    /// The number of lines handed over so far.
    pub fn linum(&self) -> (r: u32)
        ensures
            r == self@,
    {
        self.linum
    }

    /// Takes the next line of the file: a blank line is skipped; any other is a directive.
    pub fn feed(&mut self, text: &str) -> (r: GsdlEvent)
        requires
            old(self)@ < u32::MAX,
        ensures
            final(self)@ == old(self)@ + 1,
            trim(text@).len() == 0 ==> r is Skip,
            trim(text@).len() != 0 ==> (r matches GsdlEvent::Directive(d) && match parse_directive(
                text@,
            ) {
                Ok(v) => d matches Ok(x) && x@ == v,
                Err(e) => d matches Err(x) && x@ == e,
            }),
    {
        self.linum = self.linum + 1;
        if is_blank(text) {
            GsdlEvent::Skip
        } else {
            GsdlEvent::Directive(Directive::with_source(text))
        }
    }
}

} // verus!
