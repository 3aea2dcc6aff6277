use vstd::prelude::*;

use crate::clock::Date;
use crate::model::entity::{parse_entity, Entity, EntityView};
use crate::model::Currency;
use crate::parser::error::{serr, AnyError, ErrorKind, SyntaxError, SyntaxErrorView};
use crate::parser::expect::{
    expect_date, expect_float, expect_identifier, expect_integer, into_currency, pop_date,
    pop_float, pop_identifier, pop_integer, try_into_currency, TokensView,
};
use crate::parser::line::{empty_line_error, AnyErrorView};
use crate::parser::token::{tokenize, tokens_view, Decimal, Token, TokenIterator, TokenView};
use crate::text::{is_blank, lowercase, push_str, same_text, string_of, to_lowercase, trim};

verus! {

/// A line of the state file.
#[derive(Debug)]
pub enum Directive {
    /// The currencies in use, in the order of the report's columns.
    Assets(Vec<Currency>),
    /// The date at which the state holds.
    Date(Date),
    /// An entity and its holdings.
    Entity(Entity),
    /// The number of units a boatload is worth.
    Flotation(Decimal),
    /// The number of reports still to come.
    Forbes(u32),
}

pub enum DirectiveView {
    Assets(Seq<Currency>),
    Date(Date),
    Entity(EntityView),
    Flotation((Seq<char>, Seq<char>)),
    Forbes(u32),
}

impl View for Directive {
    type V = DirectiveView;

    open spec fn view(&self) -> DirectiveView {
        match self {
            Directive::Assets(v) => DirectiveView::Assets(v@),
            Directive::Date(d) => DirectiveView::Date(*d),
            Directive::Entity(e) => DirectiveView::Entity(e@),
            Directive::Flotation(d) => DirectiveView::Flotation(d@),
            Directive::Forbes(i) => DirectiveView::Forbes(*i),
        }
    }
}

pub open spec fn assets_message() -> Seq<char> {
    "parameters to CURRENCY must be identifiers"@
}

/// The currencies that the remaining tokens name, each an identifier.
pub open spec fn parse_assets(t: TokensView) -> Result<Seq<Currency>, SyntaxErrorView>
    decreases t.len(),
{
    if t.len() == 0 {
        Ok(Seq::empty())
    } else {
        match t[0] {
            TokenView::Identifier(id) => match into_currency(id) {
                Err(e) => Err(e),
                Ok(c) => match parse_assets(t.drop_first()) {
                    Ok(rest) => Ok(seq![c] + rest),
                    Err(e) => Err(e),
                },
            },
            _ => Err(serr(assets_message(), ErrorKind::ExpectedIdentifier)),
        }
    }
}

/// The directive named `l` (in lowercase) with the arguments `t`.
pub open spec fn directive_body(l: Seq<char>, t: TokensView) -> Result<
    DirectiveView,
    SyntaxErrorView,
> {
    if l == "assets"@ {
        match parse_assets(t) {
            Ok(v) => Ok(DirectiveView::Assets(v)),
            Err(e) => Err(e),
        }
    } else if l == "flotation"@ {
        match pop_float(t, "FLOTATION requires a float argument"@).0 {
            Ok(f) => Ok(DirectiveView::Flotation(f)),
            Err(e) => Err(e),
        }
    } else if l == "date"@ {
        match pop_date(t, "DATE requires a date argument"@).0 {
            Ok(d) => Ok(DirectiveView::Date(d)),
            Err(e) => Err(e),
        }
    } else if l == "ent"@ {
        match parse_entity(t).0 {
            Ok(e) => Ok(DirectiveView::Entity(e)),
            Err(e) => Err(e),
        }
    } else if l == "forbes"@ {
        match pop_integer(t, "FORBES requires an integer argunent"@).0 {
            Ok(i) => Ok(DirectiveView::Forbes(i)),
            Err(e) => Err(e),
        }
    } else {
        Err(serr("no such directive: "@ + l, ErrorKind::UnrecognizedDirective))
    }
}

/// A line of the state file: a directive's name (in any case), then its arguments.
pub open spec fn parse_directive(s: Seq<char>) -> Result<DirectiveView, AnyErrorView> {
    if trim(s).len() == 0 {
        Err(empty_line_error())
    } else {
        match tokenize(s) {
            Err(e) => Err(AnyErrorView::Parse(e)),
            Ok(ts) => match pop_identifier(ts, "need an identifier to begin an identifier"@) {
                (Err(e), _) => Err(AnyErrorView::Syntax(e)),
                (Ok(name), t1) => match directive_body(lowercase(name), t1) {
                    Ok(d) => Ok(d),
                    Err(e) => Err(AnyErrorView::Syntax(e)),
                },
            },
        }
    }
}

/// The currencies of an `ASSETS` directive.
fn assets_from(tokens: &mut Vec<Token>) -> (r: Result<Vec<Currency>, SyntaxError>)
    ensures
        match parse_assets(tokens_view(old(tokens)@)) {
            Ok(v) => r matches Ok(x) && x@ == v,
            Err(e) => r matches Err(x) && x@ == e,
        },
{
    let ghost t0 = tokens_view(tokens@);
    let mut result: Vec<Currency> = Vec::new();
    while tokens.len() > 0
        invariant
            t0 == tokens_view(old(tokens)@),
            parse_assets(t0) == match parse_assets(tokens_view(tokens@)) {
                Ok(rest) => Ok(result@ + rest),
                Err(e) => Err(e),
            },
        decreases tokens@.len(),
    {
        let ghost t = tokens_view(tokens@);
        let id = match expect_identifier(tokens, "parameters to CURRENCY must be identifiers") {
            Ok(s) => s,
            Err(e) => {
                assert(parse_assets(t) == Err::<Seq<Currency>, SyntaxErrorView>(e@));
                return Err(e);
            },
        };
        let c = match try_into_currency(id.as_str()) {
            Ok(c) => c,
            Err(e) => {
                assert(parse_assets(t) == Err::<Seq<Currency>, SyntaxErrorView>(e@));
                return Err(e);
            },
        };
        proof {
            assert(tokens_view(tokens@) == t.drop_first());
            if let Ok(rest) = parse_assets(tokens_view(tokens@)) {
                assert(result@.push(c) + rest =~= result@ + (seq![c] + rest));
            }
        }
        result.push(c);
    }
    assert(result@ + Seq::<Currency>::empty() =~= result@);
    Ok(result)
}

impl Directive {
    /// The directive on the line `ln` of a state file; `None` for a blank line.
    pub fn from_str(ln: &str) -> (r: Option<Result<Directive, AnyError>>)
        ensures
            trim(ln@).len() == 0 ==> r is None,
            trim(ln@).len() != 0 ==> (r matches Some(d) && match parse_directive(ln@) {
                Ok(v) => d matches Ok(x) && x@ == v,
                Err(e) => d matches Err(x) && x@ == e,
            }),
    {
        if is_blank(ln) {
            None
        } else {
            Some(Directive::with_source(ln))
        }
    }

    /// The directive on the line `ln` of a state file.
    pub fn with_source(ln: &str) -> (r: Result<Directive, AnyError>)
        ensures
            match parse_directive(ln@) {
                Ok(v) => r matches Ok(d) && d@ == v,
                Err(e) => r matches Err(x) && x@ == e,
            },
    {
        if is_blank(ln) {
            return Err(AnyError::Syntax(SyntaxError { message: String::new(), kind: ErrorKind::Empty }));
        }
        let mut tokens = match TokenIterator::with_source(ln).collect_all() {
            Ok(v) => v,
            Err(e) => {
                return Err(AnyError::Parse(e));
            },
        };
        let name = match expect_identifier(&mut tokens, "need an identifier to begin an identifier") {
            Ok(s) => s,
            Err(e) => {
                return Err(AnyError::Syntax(e));
            },
        };
        let lower = to_lowercase(name.as_str());
        let l = lower.as_str();
        let r = if same_text(l, "assets") {
            match assets_from(&mut tokens) {
                Ok(v) => Ok(Directive::Assets(v)),
                Err(e) => Err(e),
            }
        } else if same_text(l, "flotation") {
            match expect_float(&mut tokens, "FLOTATION requires a float argument") {
                Ok(f) => Ok(Directive::Flotation(f)),
                Err(e) => Err(e),
            }
        } else if same_text(l, "date") {
            match expect_date(&mut tokens, "DATE requires a date argument") {
                Ok(d) => Ok(Directive::Date(d)),
                Err(e) => Err(e),
            }
        } else if same_text(l, "ent") {
            match Entity::from_vec(&mut tokens) {
                Ok(e) => Ok(Directive::Entity(e)),
                Err(e) => Err(e),
            }
        } else if same_text(l, "forbes") {
            match expect_integer(&mut tokens, "FORBES requires an integer argunent") {
                Ok(i) => Ok(Directive::Forbes(i)),
                Err(e) => Err(e),
            }
        } else {
            let mut m: Vec<char> = Vec::new();
            push_str(&mut m, "no such directive: ");
            push_str(&mut m, l);
            Err(
                SyntaxError {
                    message: string_of(m.as_slice()),
                    kind: ErrorKind::UnrecognizedDirective,
                },
            )
        };
        match r {
            Ok(d) => Ok(d),
            Err(e) => Err(AnyError::Syntax(e)),
        }
    }
}

} // verus!
