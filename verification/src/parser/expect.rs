//! Parsers over a list of tokens. Each takes what it needs from the front of the list;
//! a parser that fails on the first token leaves the list as it was.

use vstd::prelude::*;

use crate::clock::{Date, Time};
use crate::model::unit::currency_of_abbr;
use crate::model::{Amount, Currency, FullUnit};
use crate::parser::error::{agrees, serr, ErrorKind, SyntaxError, SyntaxErrorView, SyntaxResult};
use crate::parser::token::{tokens_view, Decimal, Operator, OperatorView, Token, TokenView};
use crate::text::{debug_string, debug_text, push_str, same_text, string_of};

verus! {

pub type TokensView = Seq<TokenView>;

/// A parse step over tokens: what it yields and the tokens left after it.
pub type Step<T> = (Result<T, SyntaxErrorView>, TokensView);

pub proof fn lemma_tokens_view_remove_first(v: Seq<Token>)
    requires
        v.len() > 0,
    ensures
        tokens_view(v.remove(0)) == tokens_view(v).drop_first(),
{
    assert(tokens_view(v.remove(0)) =~= tokens_view(v).drop_first());
}

pub open spec fn pop_blob(t: TokensView, msg: Seq<char>) -> Step<()> {
    if t.len() > 0 && t[0] is Blob {
        (Ok(()), t.drop_first())
    } else {
        (Err(serr(msg, ErrorKind::ExpectedBlob)), t)
    }
}

pub open spec fn pop_command(t: TokensView, msg: Seq<char>) -> Step<Seq<char>> {
    if t.len() > 0 {
        match t[0] {
            TokenView::Command(s) => (Ok(s), t.drop_first()),
            _ => (Err(serr(msg, ErrorKind::ExpectedCommand)), t),
        }
    } else {
        (Err(serr(msg, ErrorKind::ExpectedCommand)), t)
    }
}

/// A date; the error it reports is of kind `ExpectedTime`.
pub open spec fn pop_date(t: TokensView, msg: Seq<char>) -> Step<Date> {
    if t.len() > 0 {
        match t[0] {
            TokenView::Date(d) => (Ok(d), t.drop_first()),
            _ => (Err(serr(msg, ErrorKind::ExpectedTime)), t),
        }
    } else {
        (Err(serr(msg, ErrorKind::ExpectedTime)), t)
    }
}

pub open spec fn pop_float(t: TokensView, msg: Seq<char>) -> Step<(Seq<char>, Seq<char>)> {
    if t.len() > 0 {
        match t[0] {
            TokenView::Float(w, f) => (Ok((w, f)), t.drop_first()),
            _ => (Err(serr(msg, ErrorKind::ExpectedFloat)), t),
        }
    } else {
        (Err(serr(msg, ErrorKind::ExpectedFloat)), t)
    }
}

pub open spec fn pop_identifier(t: TokensView, msg: Seq<char>) -> Step<Seq<char>> {
    if t.len() > 0 {
        match t[0] {
            TokenView::Identifier(s) => (Ok(s), t.drop_first()),
            _ => (Err(serr(msg, ErrorKind::ExpectedIdentifier)), t),
        }
    } else {
        (Err(serr(msg, ErrorKind::ExpectedIdentifier)), t)
    }
}

pub open spec fn pop_integer(t: TokensView, msg: Seq<char>) -> Step<u32> {
    if t.len() > 0 {
        match t[0] {
            TokenView::Integer(i) => (Ok(i), t.drop_first()),
            _ => (Err(serr(msg, ErrorKind::ExpectedInteger)), t),
        }
    } else {
        (Err(serr(msg, ErrorKind::ExpectedInteger)), t)
    }
}

pub open spec fn pop_separator(t: TokensView, msg: Seq<char>) -> Step<()> {
    if t.len() > 0 && t[0] is Separator {
        (Ok(()), t.drop_first())
    } else {
        (Err(serr(msg, ErrorKind::ExpectedSeparator)), t)
    }
}

pub open spec fn pop_operator(t: TokensView, msg: Seq<char>) -> Step<OperatorView> {
    if t.len() > 0 {
        match t[0] {
            TokenView::Op(o) => (Ok(o), t.drop_first()),
            _ => (Err(serr(msg, ErrorKind::ExpectedOperator)), t),
        }
    } else {
        (Err(serr(msg, ErrorKind::ExpectedOperator)), t)
    }
}

/// A quoted string or an identifier.
pub open spec fn pop_stringlike(t: TokensView, msg: Seq<char>) -> Step<Seq<char>> {
    if t.len() > 0 {
        match t[0] {
            TokenView::String(s) => (Ok(s), t.drop_first()),
            TokenView::Identifier(s) => (Ok(s), t.drop_first()),
            _ => (Err(serr(msg, ErrorKind::ExpectedStringlike)), t),
        }
    } else {
        (Err(serr(msg, ErrorKind::ExpectedStringlike)), t)
    }
}

pub open spec fn pop_time(t: TokensView, msg: Seq<char>) -> Step<Time> {
    if t.len() > 0 {
        match t[0] {
            TokenView::Time(x) => (Ok(x), t.drop_first()),
            _ => (Err(serr(msg, ErrorKind::ExpectedTime)), t),
        }
    } else {
        (Err(serr(msg, ErrorKind::ExpectedTime)), t)
    }
}

/// The currency written `s`.
pub open spec fn into_currency(s: Seq<char>) -> Result<Currency, SyntaxErrorView> {
    match currency_of_abbr(s) {
        Some(c) => Ok(c),
        None => Err(
            serr("unrecognized currency abbreviation: "@ + s, ErrorKind::InvalidCurrency),
        ),
    }
}

/// `currency`, `bl:currency`.
pub open spec fn parse_full_unit(t: TokensView) -> Step<FullUnit> {
    match pop_identifier(t, ""@) {
        (Err(_), t1) => (
            Err(serr("expected identifier to begin unit"@, ErrorKind::IncompleteUnit)),
            t1,
        ),
        (Ok(i1), t1) => match pop_separator(t1, ""@) {
            (Ok(_), t2) => match pop_identifier(t2, ""@) {
                (Ok(i2), t3) => if i1 == "bl"@ {
                    match into_currency(i2) {
                        Ok(c) => (Ok(FullUnit::Boatload(c)), t3),
                        Err(e) => (Err(e), t3),
                    }
                } else {
                    (
                        Err(
                            serr(
                                "invalid prefix "@ + debug_text(i1) + " in unit"@,
                                ErrorKind::InvalidPrefix,
                            ),
                        ),
                        t3,
                    )
                },
                (Err(_), t3) => (
                    Err(
                        serr(
                            "expected currency after separator in unit"@,
                            ErrorKind::IncompleteUnit,
                        ),
                    ),
                    t3,
                ),
            },
            (Err(_), t2) => match into_currency(i1) {
                Ok(c) => (Ok(FullUnit::Bare(c)), t2),
                Err(e) => (Err(e), t2),
            },
        },
    }
}

/// `number unit`, `*currency` or `*`.
pub open spec fn parse_amount(t: TokensView) -> Step<Amount> {
    match pop_integer(t, ""@) {
        (Ok(i), t1) => match parse_full_unit(t1) {
            (Ok(u), t2) => (Ok(Amount::PartOf(u, i)), t2),
            (Err(e), t2) => (Err(e), t2),
        },
        (Err(_), t1) => match pop_blob(t1, ""@) {
            (Ok(_), t2) => match pop_identifier(t2, ""@) {
                (Ok(s), t3) => match into_currency(s) {
                    Ok(c) => (Ok(Amount::AllOf(c)), t3),
                    Err(e) => (Err(e), t3),
                },
                (Err(_), t3) => (Ok(Amount::Everything), t3),
            },
            (Err(_), t2) => (
                Err(
                    serr(
                        "expected integer or blob at start of amount"@,
                        ErrorKind::IncompleteAmount,
                    ),
                ),
                t2,
            ),
        },
    }
}

/// `tokens` now holds `st`, and `r` is `sr`.
pub open spec fn stepped<T: View>(
    r: SyntaxResult<T>,
    tokens: Seq<Token>,
    step: Step<T::V>,
) -> bool {
    agrees(r, step.0) && tokens_view(tokens) == step.1
}

pub fn expect_blob(tokens: &mut Vec<Token>, message: &str) -> (r: SyntaxResult<()>)
    ensures
        stepped(r, final(tokens)@, pop_blob(tokens_view(old(tokens)@), message@)),
{
    if tokens.len() > 0 {
        if let Token::Blob = &tokens[0] {
            proof { lemma_tokens_view_remove_first(tokens@); }
            tokens.remove(0);
            return Ok(());
        }
    }
    Err(SyntaxError::from(message, ErrorKind::ExpectedBlob))
}

pub fn expect_command(tokens: &mut Vec<Token>, message: &str) -> (r: SyntaxResult<String>)
    ensures
        stepped(r, final(tokens)@, pop_command(tokens_view(old(tokens)@), message@)),
{
    if tokens.len() > 0 {
        if let Token::Command(_) = &tokens[0] {
            proof { lemma_tokens_view_remove_first(tokens@); }
            if let Token::Command(s) = tokens.remove(0) {
                return Ok(s);
            }
        }
    }
    Err(SyntaxError::from(message, ErrorKind::ExpectedCommand))
}

/// A date token; when there is none, the error is of kind `ExpectedTime`.
pub fn expect_date(tokens: &mut Vec<Token>, message: &str) -> (r: SyntaxResult<Date>)
    ensures
        stepped(r, final(tokens)@, pop_date(tokens_view(old(tokens)@), message@)),
{
    if tokens.len() > 0 {
        if let Token::Date(_) = &tokens[0] {
            proof { lemma_tokens_view_remove_first(tokens@); }
            if let Token::Date(d) = tokens.remove(0) {
                return Ok(d);
            }
        }
    }
    Err(SyntaxError::from(message, ErrorKind::ExpectedTime))
}

pub fn expect_float(tokens: &mut Vec<Token>, message: &str) -> (r: SyntaxResult<Decimal>)
    ensures
        stepped(r, final(tokens)@, pop_float(tokens_view(old(tokens)@), message@)),
{
    if tokens.len() > 0 {
        if let Token::Float(_) = &tokens[0] {
            proof { lemma_tokens_view_remove_first(tokens@); }
            if let Token::Float(f) = tokens.remove(0) {
                return Ok(f);
            }
        }
    }
    Err(SyntaxError::from(message, ErrorKind::ExpectedFloat))
}

pub fn expect_identifier(tokens: &mut Vec<Token>, message: &str) -> (r: SyntaxResult<String>)
    ensures
        stepped(r, final(tokens)@, pop_identifier(tokens_view(old(tokens)@), message@)),
{
    if tokens.len() > 0 {
        if let Token::Identifier(_) = &tokens[0] {
            proof { lemma_tokens_view_remove_first(tokens@); }
            if let Token::Identifier(s) = tokens.remove(0) {
                return Ok(s);
            }
        }
    }
    Err(SyntaxError::from(message, ErrorKind::ExpectedIdentifier))
}

pub fn expect_integer(tokens: &mut Vec<Token>, message: &str) -> (r: SyntaxResult<u32>)
    ensures
        stepped(r, final(tokens)@, pop_integer(tokens_view(old(tokens)@), message@)),
{
    if tokens.len() > 0 {
        if let Token::Integer(_) = &tokens[0] {
            proof { lemma_tokens_view_remove_first(tokens@); }
            if let Token::Integer(i) = tokens.remove(0) {
                return Ok(i);
            }
        }
    }
    Err(SyntaxError::from(message, ErrorKind::ExpectedInteger))
}

pub fn expect_separator(tokens: &mut Vec<Token>, message: &str) -> (r: SyntaxResult<()>)
    ensures
        stepped(r, final(tokens)@, pop_separator(tokens_view(old(tokens)@), message@)),
{
    if tokens.len() > 0 {
        if let Token::Separator = &tokens[0] {
            proof { lemma_tokens_view_remove_first(tokens@); }
            tokens.remove(0);
            return Ok(());
        }
    }
    Err(SyntaxError::from(message, ErrorKind::ExpectedSeparator))
}

pub fn expect_operator(tokens: &mut Vec<Token>, message: &str) -> (r: SyntaxResult<Operator>)
    ensures
        stepped(r, final(tokens)@, pop_operator(tokens_view(old(tokens)@), message@)),
{
    if tokens.len() > 0 {
        if let Token::Op(_) = &tokens[0] {
            proof { lemma_tokens_view_remove_first(tokens@); }
            if let Token::Op(o) = tokens.remove(0) {
                return Ok(o);
            }
        }
    }
    Err(SyntaxError::from(message, ErrorKind::ExpectedOperator))
}

/// A quoted string or an identifier.
pub fn expect_stringlike(tokens: &mut Vec<Token>, message: &str) -> (r: SyntaxResult<String>)
    ensures
        stepped(r, final(tokens)@, pop_stringlike(tokens_view(old(tokens)@), message@)),
{
    if tokens.len() > 0 {
        match &tokens[0] {
            Token::String(_) | Token::Identifier(_) => {
                proof { lemma_tokens_view_remove_first(tokens@); }
                match tokens.remove(0) {
                    Token::String(s) => {
                        return Ok(s);
                    },
                    Token::Identifier(s) => {
                        return Ok(s);
                    },
                    _ => {},
                }
            },
            _ => {},
        }
    }
    Err(SyntaxError::from(message, ErrorKind::ExpectedStringlike))
}

pub fn expect_time(tokens: &mut Vec<Token>, message: &str) -> (r: SyntaxResult<Time>)
    ensures
        stepped(r, final(tokens)@, pop_time(tokens_view(old(tokens)@), message@)),
{
    if tokens.len() > 0 {
        if let Token::Time(_) = &tokens[0] {
            proof { lemma_tokens_view_remove_first(tokens@); }
            if let Token::Time(x) = tokens.remove(0) {
                return Ok(x);
            }
        }
    }
    Err(SyntaxError::from(message, ErrorKind::ExpectedTime))
}

/// The currency whose abbreviation is `s`.
pub fn try_into_currency(s: &str) -> (r: SyntaxResult<Currency>)
    ensures
        agrees(r, into_currency(s@)),
{
    match Currency::from_abbr(s) {
        Some(c) => Ok(c),
        None => {
            let mut m: Vec<char> = Vec::new();
            push_str(&mut m, "unrecognized currency abbreviation: ");
            push_str(&mut m, s);
            Err(SyntaxError { message: string_of(m.as_slice()), kind: ErrorKind::InvalidCurrency })
        },
    }
}

fn is_bl(s: &String) -> (r: bool)
    ensures
        r == (s@ == "bl"@),
{
    same_text(s.as_str(), "bl")
}

/// `currency` or `bl:currency`.
pub fn expect_full_unit(tokens: &mut Vec<Token>) -> (r: SyntaxResult<FullUnit>)
    ensures
        stepped(r, final(tokens)@, parse_full_unit(tokens_view(old(tokens)@))),
{
    if let Ok(i1) = expect_identifier(tokens, "") {
        if let Ok(()) = expect_separator(tokens, "") {
            if let Ok(i2) = expect_identifier(tokens, "") {
                if is_bl(&i1) {
                    Ok(FullUnit::Boatload(try_into_currency(i2.as_str())?))
                } else {
                    let mut m: Vec<char> = Vec::new();
                    push_str(&mut m, "invalid prefix ");
                    let d = debug_string(i1.as_str());
                    push_str(&mut m, d.as_str());
                    push_str(&mut m, " in unit");
                    Err(SyntaxError { message: string_of(m.as_slice()), kind: ErrorKind::InvalidPrefix })
                }
            } else {
                Err(
                    SyntaxError::from(
                        "expected currency after separator in unit",
                        ErrorKind::IncompleteUnit,
                    ),
                )
            }
        } else {
            Ok(FullUnit::Bare(try_into_currency(i1.as_str())?))
        }
    } else {
        Err(SyntaxError::from("expected identifier to begin unit", ErrorKind::IncompleteUnit))
    }
}

impl Amount {
    /// `number unit` (a number of units), `*currency` (all of one currency) or `*`
    /// (everything).
    /// The same as `from_tokens`, under another name.
    pub fn from_vec(tokens: &mut Vec<Token>) -> (r: SyntaxResult<Amount>)
        ensures
            stepped(r, final(tokens)@, parse_amount(tokens_view(old(tokens)@))),
    {
        Amount::from_tokens(tokens)
    }

    pub fn from_tokens(tokens: &mut Vec<Token>) -> (r: SyntaxResult<Amount>)
        ensures
            stepped(r, final(tokens)@, parse_amount(tokens_view(old(tokens)@))),
    {
        if let Ok(i) = expect_integer(tokens, "") {
            Ok(Amount::PartOf(expect_full_unit(tokens)?, i))
        } else if let Ok(()) = expect_blob(tokens, "") {
            if let Ok(c) = expect_identifier(tokens, "") {
                Ok(Amount::AllOf(try_into_currency(c.as_str())?))
            } else {
                Ok(Amount::Everything)
            }
        } else {
            Err(
                SyntaxError::from(
                    "expected integer or blob at start of amount",
                    ErrorKind::IncompleteAmount,
                ),
            )
        }
    }
}

impl FullUnit {
    /// `currency` or `bl:currency`, read from the front of `tokens`.
    pub fn from_vec(tokens: &mut Vec<Token>) -> (r: SyntaxResult<FullUnit>)
        ensures
            stepped(r, final(tokens)@, parse_full_unit(tokens_view(old(tokens)@))),
    {
        expect_full_unit(tokens)
    }
}

} // verus!
