//! The token grammar applied to the start of a text, one kind of token at a time. Each
//! parser returns the text that follows what it matched, with what it matched; when
//! nothing matches it returns the text given, as `ParseError::Unparseable`.

use vstd::prelude::*;

use crate::parser::error::ParseError;
use crate::parser::token::{
    lex_any, lex_any_chars, lex_blob, lex_bracketed, lex_bracketed_chars, lex_command,
    lex_command_chars, lex_date, lex_date_chars, lex_float, lex_float_chars, lex_identifier,
    lex_identifier_chars, lex_identifier_text, lex_integer, lex_integer_chars, lex_minus,
    lex_operator, lex_operator_chars, lex_plus, lex_separator, lex_string, lex_string_chars,
    lex_time, lex_time_chars, lex_transfer, lex_transfer_chars, Operator, Token, TokenView,
};
use crate::text::chars_of;

pub use crate::text::is_id_char;

verus! {

/// What a parser over `s` returns when the grammar gives `spec`.
pub open spec fn parsed(
    s: Seq<char>,
    r: Result<(&str, Token), ParseError>,
    spec: Option<(TokenView, int)>,
) -> bool {
    match spec {
        Some((tv, n)) => r matches Ok((rest, tok)) && rest@ == s.skip(n) && tok@ == tv,
        None => r matches Err(ParseError::Unparseable(e)) && e@ == s,
    }
}

fn finish<'a>(s: &'a str, cs: &Vec<char>, lexed: Option<(Token, usize)>) -> (r: Result<
    (&'a str, Token),
    ParseError,
>)
    requires
        cs@ == s@,
        lexed matches Some((_, n)) ==> n <= cs@.len(),
    ensures
        match lexed {
            Some((tok, n)) => r matches Ok((rest, t)) && rest@ == s@.skip(n as int) && t@ == tok@,
            None => r matches Err(ParseError::Unparseable(e)) && e@ == s@,
        },
{
    match lexed {
        Some((tok, n)) => {
            let rest = s.substring_char(n, cs.len());
            assert(rest@ =~= s@.skip(n as int));
            Ok((rest, tok))
        },
        None => Err(ParseError::Unparseable(s.to_owned())),
    }
}

/// `[text]`: the text up to the first `]`.
pub fn bracketed<'a>(s: &'a str) -> (r: Result<(&'a str, &'a str), ParseError>)
    ensures
        match lex_bracketed(s@) {
            Some((inner, n)) => r matches Ok((rest, m)) && rest@ == s@.skip(n) && m@ == inner,
            None => r matches Err(ParseError::Unparseable(e)) && e@ == s@,
        },
{
    let cs = chars_of(s);
    match lex_bracketed_chars(&cs) {
        Some((_, n)) => {
            proof { crate::parser::token::lemma_until_end(s@, 1, ']'); }
            let inner = s.substring_char(1, n - 1);
            let rest = s.substring_char(n, cs.len());
            assert(rest@ =~= s@.skip(n as int));
            Ok((rest, inner))
        },
        None => Err(ParseError::Unparseable(s.to_owned())),
    }
}

/// `[HH:MM]`
pub fn token_time<'a>(s: &'a str) -> (r: Result<(&'a str, Token), ParseError>)
    ensures
        parsed(s@, r, lex_time(s@)),
{
    let cs = chars_of(s);
    proof { if s@.len() > 0 { crate::parser::token::lemma_until_end(s@, 1, ']'); } }
    let l = lex_time_chars(&cs);
    finish(s, &cs, l)
}

/// `[YYYY-MM-DD]`
pub fn token_date<'a>(s: &'a str) -> (r: Result<(&'a str, Token), ParseError>)
    ensures
        parsed(s@, r, lex_date(s@)),
{
    let cs = chars_of(s);
    proof { if s@.len() > 0 { crate::parser::token::lemma_until_end(s@, 1, ']'); } }
    let l = lex_date_chars(&cs);
    finish(s, &cs, l)
}

/// One or more identifier characters.
pub fn identifier<'a>(s: &'a str) -> (r: Result<(&'a str, &'a str), ParseError>)
    ensures
        match lex_identifier_text(s@) {
            Some((m, n)) => r matches Ok((rest, id)) && rest@ == s@.skip(n) && id@ == m,
            None => r matches Err(ParseError::Unparseable(e)) && e@ == s@,
        },
{
    let cs = chars_of(s);
    proof { crate::parser::token::lemma_id_end(s@, 0); }
    match lex_identifier_chars(&cs) {
        Some((_, n)) => {
            let id = s.substring_char(0, n);
            let rest = s.substring_char(n, cs.len());
            assert(rest@ =~= s@.skip(n as int));
            assert(id@ =~= s@.take(n as int));
            Ok((rest, id))
        },
        None => Err(ParseError::Unparseable(s.to_owned())),
    }
}

pub fn token_identifier<'a>(s: &'a str) -> (r: Result<(&'a str, Token), ParseError>)
    ensures
        parsed(s@, r, lex_identifier(s@)),
{
    let cs = chars_of(s);
    proof { crate::parser::token::lemma_id_end(s@, 0); }
    let l = match lex_identifier_chars(&cs) {
        Some((id, n)) => Some((Token::Identifier(id), n)),
        None => None,
    };
    finish(s, &cs, l)
}

/// Digits whose value fits in a `u32`.
pub fn token_integer<'a>(s: &'a str) -> (r: Result<(&'a str, Token), ParseError>)
    ensures
        parsed(s@, r, lex_integer(s@)),
{
    let cs = chars_of(s);
    proof { crate::parser::token::lemma_digit_end(s@, 0); }
    let l = lex_integer_chars(&cs);
    finish(s, &cs, l)
}

/// `*`
pub fn token_blob<'a>(s: &'a str) -> (r: Result<(&'a str, Token), ParseError>)
    ensures
        parsed(s@, r, lex_blob(s@)),
{
    let cs = chars_of(s);
    let l = if cs.len() > 0 && cs[0] == '*' {
        Some((Token::Blob, 1))
    } else {
        None
    };
    finish(s, &cs, l)
}

/// `:`
pub fn token_separator<'a>(s: &'a str) -> (r: Result<(&'a str, Token), ParseError>)
    ensures
        parsed(s@, r, lex_separator(s@)),
{
    let cs = chars_of(s);
    let l = if cs.len() > 0 && cs[0] == ':' {
        Some((Token::Separator, 1))
    } else {
        None
    };
    finish(s, &cs, l)
}

/// Digits, a point, digits, with at least one digit.
pub fn token_float<'a>(s: &'a str) -> (r: Result<(&'a str, Token), ParseError>)
    ensures
        parsed(s@, r, lex_float(s@)),
{
    let cs = chars_of(s);
    proof {
        crate::parser::token::lemma_digit_end(s@, 0);
        let a = crate::parser::token::digit_end(s@, 0);
        if a < s@.len() {
            crate::parser::token::lemma_digit_end(s@, a + 1);
        }
    }
    let l = lex_float_chars(&cs);
    finish(s, &cs, l)
}

/// `"text"`
pub fn token_string<'a>(s: &'a str) -> (r: Result<(&'a str, Token), ParseError>)
    ensures
        parsed(s@, r, lex_string(s@)),
{
    let cs = chars_of(s);
    proof { if s@.len() > 0 { crate::parser::token::lemma_until_end(s@, 1, '"'); } }
    let l = lex_string_chars(&cs);
    finish(s, &cs, l)
}

/// `+`
pub fn token_plus<'a>(s: &'a str) -> (r: Result<(&'a str, Token), ParseError>)
    ensures
        parsed(s@, r, lex_plus(s@)),
{
    let cs = chars_of(s);
    let l = if cs.len() > 0 && cs[0] == '+' {
        Some((Token::Op(Operator::Plus), 1))
    } else {
        None
    };
    finish(s, &cs, l)
}

/// `-`
pub fn token_minus<'a>(s: &'a str) -> (r: Result<(&'a str, Token), ParseError>)
    ensures
        parsed(s@, r, lex_minus(s@)),
{
    let cs = chars_of(s);
    let l = if cs.len() > 0 && cs[0] == '-' {
        Some((Token::Op(Operator::Minus), 1))
    } else {
        None
    };
    finish(s, &cs, l)
}

/// `>` and an identifier.
pub fn token_transfer<'a>(s: &'a str) -> (r: Result<(&'a str, Token), ParseError>)
    ensures
        parsed(s@, r, lex_transfer(s@)),
{
    let cs = chars_of(s);
    proof { if s@.len() > 0 { crate::parser::token::lemma_id_end(s@, 1); } }
    let l = lex_transfer_chars(&cs);
    finish(s, &cs, l)
}

/// `+`, `-` or a transfer.
pub fn token_operator<'a>(s: &'a str) -> (r: Result<(&'a str, Token), ParseError>)
    ensures
        parsed(s@, r, lex_operator(s@)),
{
    let cs = chars_of(s);
    proof { if s@.len() > 0 { crate::parser::token::lemma_id_end(s@, 1); } }
    let l = lex_operator_chars(&cs);
    finish(s, &cs, l)
}

/// `#` and an identifier.
pub fn token_command<'a>(s: &'a str) -> (r: Result<(&'a str, Token), ParseError>)
    ensures
        parsed(s@, r, lex_command(s@)),
{
    let cs = chars_of(s);
    proof { if s@.len() > 0 { crate::parser::token::lemma_id_end(s@, 1); } }
    let l = lex_command_chars(&cs);
    finish(s, &cs, l)
}

/// Any one token, the kinds tried in the order of `lex_any`.
pub fn token_any<'a>(s: &'a str) -> (r: Result<(&'a str, Token), ParseError>)
    ensures
        parsed(s@, r, lex_any(s@)),
{
    let cs = chars_of(s);
    proof { crate::parser::token::lemma_lex_any_progress(s@); }
    let l = lex_any_chars(&cs);
    finish(s, &cs, l)
}

} // verus!
