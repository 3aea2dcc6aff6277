use vstd::prelude::*;

use crate::model::unit::{abbr_of, Currency, FullUnit};
use crate::text::{decimal, push_decimal, push_str, string_of};

verus! {

/// How much of an entity's holdings a transaction moves.
#[derive(Clone, Copy, Debug, PartialEq, Eq, Structural)]
pub enum Amount {
    /// Every asset the entity holds.
    Everything,
    /// The whole balance of one currency.
    AllOf(Currency),
    /// A number of units.
    PartOf(FullUnit, u32),
}

impl View for Amount {
    type V = Amount;

    open spec fn view(&self) -> Amount {
        *self
    }
}

/// How an amount is written back out.
pub open spec fn pretty_of(a: Amount) -> Seq<char> {
    match a {
        Amount::Everything => "everything"@,
        Amount::AllOf(c) => "all of "@ + abbr_of(c),
        Amount::PartOf(u, n) => decimal(n as nat) + match u {
            FullUnit::Bare(_) => Seq::<char>::empty(),
            FullUnit::Boatload(_) => "bl:"@,
        } + abbr_of(u.currency_spec()),
    }
}

impl Amount {
    pub fn pretty(&self) -> (r: String)
        ensures
            r@ == pretty_of(*self),
    {
        let mut v: Vec<char> = Vec::new();
        match self {
            Amount::Everything => {
                push_str(&mut v, "everything");
            },
            Amount::AllOf(c) => {
                push_str(&mut v, "all of ");
                push_str(&mut v, c.abbr());
            },
            Amount::PartOf(u, n) => {
                push_decimal(&mut v, *n as u64);
                match u {
                    FullUnit::Bare(_) => {},
                    FullUnit::Boatload(_) => {
                        push_str(&mut v, "bl:");
                    },
                }
                push_str(&mut v, u.currency().abbr());
            },
        }
        assert(v@ =~= pretty_of(*self));
        string_of(v.as_slice())
    }
}

} // verus!
