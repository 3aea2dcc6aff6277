use vstd::prelude::*;

verus! {

/// What kind of token or construct a parse was missing or found wrong.
#[derive(Clone, Copy, Debug, PartialEq, Eq, Structural)]
pub enum ErrorKind {
    Empty,
    ExpectedBlob,
    ExpectedCommand,
    ExpectedFloat,
    ExpectedIdentifier,
    ExpectedInteger,
    ExpectedOperator,
    ExpectedSeparator,
    ExpectedStringlike,
    ExpectedTime,
    IncompleteAmount,
    IncompleteUnit,
    InvalidCurrency,
    InvalidEntityType,
    InvalidPrefix,
    UnrecognizedCommand,
    UnrecognizedDirective,
}

/// A list of tokens that does not make the construct expected of it.
#[derive(Clone, Debug)]
pub struct SyntaxError {
    pub message: String,
    pub kind: ErrorKind,
}

pub type SyntaxResult<T> = Result<T, SyntaxError>;

pub struct SyntaxErrorView {
    pub message: Seq<char>,
    pub kind: ErrorKind,
}

impl View for SyntaxError {
    type V = SyntaxErrorView;

    open spec fn view(&self) -> SyntaxErrorView {
        SyntaxErrorView { message: self.message@, kind: self.kind }
    }
}

/// The error with message `message` and kind `kind`.
pub open spec fn serr(message: Seq<char>, kind: ErrorKind) -> SyntaxErrorView {
    SyntaxErrorView { message, kind }
}

/// `r` is what the specification `s` says: the same value, or the same error.
pub open spec fn agrees<T: View>(r: SyntaxResult<T>, s: Result<T::V, SyntaxErrorView>) -> bool {
    match s {
        Ok(v) => r matches Ok(x) && x@ == v,
        Err(e) => r matches Err(x) && x@ == e,
    }
}

impl SyntaxError {
    /// An error of the given kind with an empty message.
    pub fn empty(kind: ErrorKind) -> (r: SyntaxError)
        ensures
            r.message@ == Seq::<char>::empty(),
            r.kind == kind,
    {
        SyntaxError { message: String::new(), kind }
    }

    /// An error of the given kind with the given message.
    pub fn from(message: &str, kind: ErrorKind) -> (r: SyntaxError)
        ensures
            r.message@ == message@,
            r.kind == kind,
    {
        SyntaxError { message: message.to_owned(), kind }
    }
}

/// A text that does not split into tokens.
#[derive(Clone, Debug, PartialEq, Eq)]
pub enum ParseError {
    /// No token starts the text that is held.
    Unparseable(String),
}

pub type ParseResult<T> = Result<T, ParseError>;

/// Either way a line can fail: it does not split into tokens, or its tokens do not parse.
#[derive(Clone, Debug)]
pub enum AnyError {
    Parse(ParseError),
    Syntax(SyntaxError),
}

} // verus!
