use vstd::prelude::*;

verus! {

/// The assets that the treasury tracks.
#[derive(Clone, Copy, Debug, PartialEq, Eq, Structural, Hash)]
pub enum Currency {
    Coin,
    WinCard,
    JusticeCard,
    LegiCard,
    VoteCard,
    WinPoint,
    Winsome,
    BlotBGone,
    Pendant,
    ExtraVote,
    Votive,
}

impl View for Currency {
    type V = Currency;

    open spec fn view(&self) -> Currency {
        *self
    }
}

/// The two-letter abbreviation under which a currency is written in the logs.
pub open spec fn abbr_of(c: Currency) -> Seq<char> {
    match c {
        Currency::Coin => seq!['c', 'n'],
        Currency::WinCard => seq!['w', 'c'],
        Currency::JusticeCard => seq!['j', 'c'],
        Currency::LegiCard => seq!['l', 'c'],
        Currency::VoteCard => seq!['v', 'c'],
        Currency::WinPoint => seq!['w', 'p'],
        Currency::Winsome => seq!['w', 's'],
        Currency::BlotBGone => seq!['b', 'g'],
        Currency::Pendant => seq!['p', 'd'],
        Currency::ExtraVote => seq!['x', 'v'],
        Currency::Votive => seq!['v', 'o'],
    }
}

/// The currency written as `s`, if any.
pub open spec fn currency_of_abbr(s: Seq<char>) -> Option<Currency> {
    if s == abbr_of(Currency::Coin) {
        Some(Currency::Coin)
    } else if s == abbr_of(Currency::WinCard) {
        Some(Currency::WinCard)
    } else if s == abbr_of(Currency::JusticeCard) {
        Some(Currency::JusticeCard)
    } else if s == abbr_of(Currency::LegiCard) {
        Some(Currency::LegiCard)
    } else if s == abbr_of(Currency::VoteCard) {
        Some(Currency::VoteCard)
    } else if s == abbr_of(Currency::WinPoint) {
        Some(Currency::WinPoint)
    } else if s == abbr_of(Currency::Winsome) {
        Some(Currency::Winsome)
    } else if s == abbr_of(Currency::BlotBGone) {
        Some(Currency::BlotBGone)
    } else if s == abbr_of(Currency::Pendant) {
        Some(Currency::Pendant)
    } else if s == abbr_of(Currency::ExtraVote) {
        Some(Currency::ExtraVote)
    } else if s == abbr_of(Currency::Votive) {
        Some(Currency::Votive)
    } else {
        None
    }
}

/// The currency written as `s` among the nine that `from_str` knows (all but `Winsome`
/// and `Votive`), if any.
pub open spec fn first_currency_of_abbr(s: Seq<char>) -> Option<Currency> {
    match currency_of_abbr(s) {
        Some(c) => if c == Currency::Winsome || c == Currency::Votive {
            None
        } else {
            Some(c)
        },
        None => None,
    }
}

pub open spec fn is_card_spec(c: Currency) -> bool {
    c == Currency::WinCard || c == Currency::JusticeCard || c == Currency::LegiCard
        || c == Currency::VoteCard
}

/// `s` holds exactly the two characters `a`, `b`.
fn is_pair(s: &str, a: char, b: char) -> (r: bool)
    ensures
        r == (s@ == seq![a, b]),
{
    if s.unicode_len() != 2 {
        return false;
    }
    let c0 = s.get_char(0);
    let c1 = s.get_char(1);
    if c0 == a && c1 == b {
        assert(s@ =~= seq![a, b]);
        true
    } else {
        false
    }
}

impl Currency {
    pub fn from_abbr(s: &str) -> (r: Option<Currency>)
        ensures
            r == currency_of_abbr(s@),
    {
        if is_pair(s, 'c', 'n') {
            Some(Currency::Coin)
        } else if is_pair(s, 'w', 'c') {
            Some(Currency::WinCard)
        } else if is_pair(s, 'j', 'c') {
            Some(Currency::JusticeCard)
        } else if is_pair(s, 'l', 'c') {
            Some(Currency::LegiCard)
        } else if is_pair(s, 'v', 'c') {
            Some(Currency::VoteCard)
        } else if is_pair(s, 'w', 'p') {
            Some(Currency::WinPoint)
        } else if is_pair(s, 'w', 's') {
            Some(Currency::Winsome)
        } else if is_pair(s, 'b', 'g') {
            Some(Currency::BlotBGone)
        } else if is_pair(s, 'p', 'd') {
            Some(Currency::Pendant)
        } else if is_pair(s, 'x', 'v') {
            Some(Currency::ExtraVote)
        } else if is_pair(s, 'v', 'o') {
            Some(Currency::Votive)
        } else {
            None
        }
    }

    /// The currency that `s` abbreviates, among nine of them: `cn`, `wc`, `jc`, `lc`, `vc`,
    /// `wp`, `bg`, `pd` and `xv`. `ws` (Winsome) and `vo` (Votive) are known to `from_abbr`
    /// alone.
    pub fn from_str(s: &str) -> (r: Option<Currency>)
        ensures
            r == first_currency_of_abbr(s@),
    {
        if is_pair(s, 'w', 's') || is_pair(s, 'v', 'o') {
            None
        } else {
            Currency::from_abbr(s)
        }
    }

    pub fn abbr(&self) -> (r: &'static str)
        ensures
            r@ == abbr_of(*self),
    {
        match self {
            Currency::Coin => {
                proof { reveal_strlit("cn"); }
                "cn"
            },
            Currency::WinCard => {
                proof { reveal_strlit("wc"); }
                "wc"
            },
            Currency::JusticeCard => {
                proof { reveal_strlit("jc"); }
                "jc"
            },
            Currency::LegiCard => {
                proof { reveal_strlit("lc"); }
                "lc"
            },
            Currency::VoteCard => {
                proof { reveal_strlit("vc"); }
                "vc"
            },
            Currency::WinPoint => {
                proof { reveal_strlit("wp"); }
                "wp"
            },
            Currency::Winsome => {
                proof { reveal_strlit("ws"); }
                "ws"
            },
            Currency::BlotBGone => {
                proof { reveal_strlit("bg"); }
                "bg"
            },
            Currency::Pendant => {
                proof { reveal_strlit("pd"); }
                "pd"
            },
            Currency::ExtraVote => {
                proof { reveal_strlit("xv"); }
                "xv"
            },
            Currency::Votive => {
                proof { reveal_strlit("vo"); }
                "vo"
            },
        }
    }

    pub fn is_card(&self) -> (r: bool)
        ensures
            r == is_card_spec(*self),
    {
        *self == Currency::WinCard || *self == Currency::JusticeCard || *self == Currency::LegiCard
            || *self == Currency::VoteCard
    }
}

/// Every currency is found again under its own abbreviation.
pub proof fn lemma_abbr_round_trip(c: Currency)
    ensures
        currency_of_abbr(abbr_of(c)) == Some(c),
{
}

/// No two currencies share an abbreviation.
pub proof fn lemma_abbr_injective(c: Currency, d: Currency)
    requires
        abbr_of(c) == abbr_of(d),
    ensures
        c == d,
{
    lemma_abbr_round_trip(c);
    lemma_abbr_round_trip(d);
}

/// A unit in which an amount is written: a currency by itself, or boatloads of it.
#[derive(Clone, Copy, Debug, PartialEq, Eq, Structural)]
pub enum FullUnit {
    Bare(Currency),
    Boatload(Currency),
}

impl View for FullUnit {
    type V = FullUnit;

    open spec fn view(&self) -> FullUnit {
        *self
    }
}

impl FullUnit {
    pub open spec fn currency_spec(self) -> Currency {
        match self {
            FullUnit::Bare(c) => c,
            FullUnit::Boatload(c) => c,
        }
    }

    pub fn currency(&self) -> (r: Currency)
        ensures
            r == self.currency_spec(),
    {
        match self {
            FullUnit::Bare(c) => *c,
            FullUnit::Boatload(c) => *c,
        }
    }

    /// The same as `currency`, under another name.
    pub fn get_currency(&self) -> (r: Currency)
        ensures
            r == self.currency_spec(),
    {
        self.currency()
    }
}

} // verus!
