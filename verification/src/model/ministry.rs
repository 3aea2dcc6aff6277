use vstd::prelude::*;

use crate::text::{lowercase, same_text, to_lowercase};

verus! {

/// A ministry of the game's government.
#[derive(Clone, Copy, Debug, PartialEq, Eq, Structural)]
pub enum Ministry {
    Compliance,
    Legislation,
    Economy,
    Legacy,
    Participation,
}

/// The ministry that the lowercase abbreviation `l` names.
pub open spec fn ministry_of(l: Seq<char>) -> Option<Ministry> {
    if l == "c"@ || l == "co"@ || l == "com"@ || l == "compliance"@ {
        Some(Ministry::Compliance)
    } else if l == "l"@ || l == "legis"@ || l == "legislation"@ {
        Some(Ministry::Legislation)
    } else if l == "e"@ || l == "eco"@ || l == "econ"@ || l == "economy"@ {
        Some(Ministry::Economy)
    } else if l == "w"@ || l == "win"@ || l == "legacy"@ {
        Some(Ministry::Legacy)
    } else if l == "v"@ || l == "voting"@ || l == "p"@ || l == "par"@ || l == "part"@
        || l == "participation"@ {
        Some(Ministry::Participation)
    } else {
        None
    }
}

impl Ministry {
    /// The ministry that `s` abbreviates, in any case.
    pub fn from_abbr(s: &str) -> (r: Option<Ministry>)
        ensures
            r == ministry_of(lowercase(s@)),
    {
        let lower = to_lowercase(s);
        let l = lower.as_str();
        if same_text(l, "c") || same_text(l, "co") || same_text(l, "com") || same_text(
            l,
            "compliance",
        ) {
            Some(Ministry::Compliance)
        } else if same_text(l, "l") || same_text(l, "legis") || same_text(l, "legislation") {
            Some(Ministry::Legislation)
        } else if same_text(l, "e") || same_text(l, "eco") || same_text(l, "econ") || same_text(
            l,
            "economy",
        ) {
            Some(Ministry::Economy)
        } else if same_text(l, "w") || same_text(l, "win") || same_text(l, "legacy") {
            Some(Ministry::Legacy)
        } else if same_text(l, "v") || same_text(l, "voting") || same_text(l, "p") || same_text(
            l,
            "par",
        ) || same_text(l, "part") || same_text(l, "participation") {
            Some(Ministry::Participation)
        } else {
            None
        }
    }
}

} // verus!
