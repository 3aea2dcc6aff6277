use vstd::prelude::*;

use crate::model::unit::{abbr_of, currency_of_abbr};
use crate::model::Currency;
use crate::parser::error::{serr, ErrorKind, SyntaxError, SyntaxErrorView, SyntaxResult};
use crate::parser::expect::{expect_identifier, expect_integer, pop_identifier, pop_integer, stepped, Step, TokensView};
use crate::parser::token::{tokens_view, Token, TokenView};
use crate::text::{decimal, lowercase, push_decimal, push_str, same_text, string_of, to_lowercase};

verus! {

// ---------------------------------------------------------------------------
// Inventory
// ---------------------------------------------------------------------------

/// The place of a currency in an inventory.
pub open spec fn slot(c: Currency) -> int {
    match c {
        Currency::Coin => 0,
        Currency::WinCard => 1,
        Currency::JusticeCard => 2,
        Currency::LegiCard => 3,
        Currency::VoteCard => 4,
        Currency::WinPoint => 5,
        Currency::Winsome => 6,
        Currency::BlotBGone => 7,
        Currency::Pendant => 8,
        Currency::ExtraVote => 9,
        Currency::Votive => 10,
    }
}

fn slot_of(c: Currency) -> (r: usize)
    ensures
        r == slot(c),
{
    match c {
        Currency::Coin => 0,
        Currency::WinCard => 1,
        Currency::JusticeCard => 2,
        Currency::LegiCard => 3,
        Currency::VoteCard => 4,
        Currency::WinPoint => 5,
        Currency::Winsome => 6,
        Currency::BlotBGone => 7,
        Currency::Pendant => 8,
        Currency::ExtraVote => 9,
        Currency::Votive => 10,
    }
}

/// What an entity holds: an amount for each currency that it has an entry for.
#[derive(Clone, Debug)]
pub struct Inventory {
    slots: Vec<Option<u32>>,
}

impl View for Inventory {
    type V = Map<Currency, u32>;

    closed spec fn view(&self) -> Map<Currency, u32> {
        Map::new(
            |c: Currency| slot(c) < self.slots@.len() && self.slots@[slot(c)] is Some,
            |c: Currency| self.slots@[slot(c)].unwrap(),
        )
    }
}

impl Inventory {
    pub fn new() -> (r: Inventory)
        ensures
            r@ == Map::<Currency, u32>::empty(),
    {
        let r = Inventory { slots: Vec::new() };
        assert(r@ =~= Map::<Currency, u32>::empty());
        r
    }

    /// The entry for `c`, if there is one.
    pub fn get(&self, c: Currency) -> (r: Option<u32>)
        ensures
            r == (if self@.contains_key(c) {
                Some(self@[c])
            } else {
                None
            }),
    {
        let i = slot_of(c);
        if i < self.slots.len() {
            self.slots[i]
        } else {
            None
        }
    }

    /// Sets the entry for `c` to `v`.
    pub fn insert(&mut self, c: Currency, v: u32)
        ensures
            final(self)@ == old(self)@.insert(c, v),
    {
        let i = slot_of(c);
        while self.slots.len() <= i
            invariant
                i < 11,
                forall|d: Currency|
                    (slot(d) < self.slots@.len() && self.slots@[slot(d)] is Some) == old(
                        self,
                    )@.contains_key(d),
                forall|d: Currency|
                    #![trigger old(self)@[d]]
                    old(self)@.contains_key(d) ==> self.slots@[slot(d)] == Some(old(self)@[d]),
            decreases 11 - self.slots@.len(),
        {
            self.slots.push(None);
        }
        self.slots.set(i, Some(v));
        assert(self@ =~= old(self)@.insert(c, v));
    }

    /// Takes out the entry for `c`, if there is one.
    pub fn remove(&mut self, c: Currency) -> (r: Option<u32>)
        ensures
            r == (if old(self)@.contains_key(c) {
                Some(old(self)@[c])
            } else {
                None
            }),
            final(self)@ == old(self)@.remove(c),
    {
        let i = slot_of(c);
        if i < self.slots.len() {
            let r = self.slots[i];
            self.slots.set(i, None);
            assert(self@ =~= old(self)@.remove(c));
            r
        } else {
            assert(self@ =~= old(self)@.remove(c));
            None
        }
    }
}

impl Inventory {
    /// A copy of this inventory.
    pub fn duplicate(&self) -> (r: Inventory)
        ensures
            r@ == self@,
    {
        let mut slots: Vec<Option<u32>> = Vec::new();
        let mut i: usize = 0;
        while i < self.slots.len()
            invariant
                0 <= i <= self.slots@.len(),
                slots@ == self.slots@.take(i as int),
            decreases self.slots@.len() - i,
        {
            slots.push(self.slots[i]);
            assert(slots@ =~= self.slots@.take(i + 1));
            i = i + 1;
        }
        assert(slots@ =~= self.slots@);
        let r = Inventory { slots };
        assert(r@ =~= self@);
        r
    }
}

/// The balance that an inventory gives for `c`: its entry, or zero.
pub open spec fn balance_in(inv: Map<Currency, u32>, c: Currency) -> u32 {
    if inv.contains_key(c) {
        inv[c]
    } else {
        0
    }
}

// ---------------------------------------------------------------------------
// Kinds of entities
// ---------------------------------------------------------------------------

#[derive(Clone, Copy, Debug, PartialEq, Eq, Structural, Hash, PartialOrd, Ord)]
pub struct PlayerParams {
    pub is_active: bool,
}

impl PlayerParams {
    /// An active player.
    pub fn new() -> (r: PlayerParams)
        ensures
            r.is_active,
    {
        PlayerParams { is_active: true }
    }
}

#[derive(Clone, Copy, Debug, PartialEq, Eq, Structural, Hash, PartialOrd, Ord)]
pub struct ContractParams {
    pub donation_level: u32,
}

impl ContractParams {
    /// A contract that donates nothing.
    pub fn new() -> (r: ContractParams)
        ensures
            r.donation_level == 0,
    {
        ContractParams { donation_level: 0 }
    }
}

/// What sort of entity something is; the order of the variants is the order of the
/// report's groups.
#[derive(Clone, Copy, Debug, PartialEq, Eq, Structural, Hash, PartialOrd, Ord)]
pub enum EntityKind {
    Player(PlayerParams),
    Contract(ContractParams),
    Other,
}

/// How a kind heads its group in the report.
pub open spec fn kind_label(k: EntityKind) -> Seq<char> {
    match k {
        EntityKind::Player(p) => if p.is_active {
            "Player(+a)"@
        } else {
            "Player(-a)"@
        },
        EntityKind::Contract(c) => "Contract("@ + if c.donation_level < 10 {
            "0"@ + decimal(c.donation_level as nat)
        } else {
            decimal(c.donation_level as nat)
        } + ")"@,
        EntityKind::Other => "Entity"@,
    }
}

/// The order of kinds as a pair of numbers: players (inactive before active), then
/// contracts by donation level, then the rest. It is the order that `Ord` derives.
pub open spec fn kind_key(k: EntityKind) -> (int, int) {
    match k {
        EntityKind::Player(p) => (0, if p.is_active { 1 } else { 0 }),
        EntityKind::Contract(c) => (1, c.donation_level as int),
        EntityKind::Other => (2, 0),
    }
}

pub open spec fn kind_lt(a: EntityKind, b: EntityKind) -> bool {
    kind_key(a).0 < kind_key(b).0 || (kind_key(a).0 == kind_key(b).0 && kind_key(a).1 < kind_key(
        b,
    ).1)
}

pub proof fn lemma_kind_key_injective(a: EntityKind, b: EntityKind)
    ensures
        kind_key(a) == kind_key(b) ==> a == b,
{
}

impl EntityKind {
    /// The text that `Display` shows for the kind, before padding.
    pub fn label(&self) -> (r: String)
        ensures
            r@ == kind_label(*self),
    {
        let mut v: Vec<char> = Vec::new();
        match self {
            EntityKind::Player(p) => {
                if p.is_active {
                    push_str(&mut v, "Player(+a)");
                } else {
                    push_str(&mut v, "Player(-a)");
                }
            },
            EntityKind::Contract(c) => {
                push_str(&mut v, "Contract(");
                if c.donation_level < 10 {
                    push_str(&mut v, "0");
                }
                push_decimal(&mut v, c.donation_level as u64);
                push_str(&mut v, ")");
            },
            EntityKind::Other => {
                push_str(&mut v, "Entity");
            },
        }
        assert(v@ =~= kind_label(*self));
        string_of(v.as_slice())
    }

    /// Whether `self` comes before `other` in the order of kinds.
    pub fn precedes(&self, other: &EntityKind) -> (r: bool)
        ensures
            r == kind_lt(*self, *other),
    {
        let (a0, a1) = kind_key_of(self);
        let (b0, b1) = kind_key_of(other);
        a0 < b0 || (a0 == b0 && a1 < b1)
    }
}

fn kind_key_of(k: &EntityKind) -> (r: (u8, u32))
    ensures
        r.0 as int == kind_key(*k).0,
        r.1 as int == kind_key(*k).1,
{
    match k {
        EntityKind::Player(p) => (0, if p.is_active { 1 } else { 0 }),
        EntityKind::Contract(c) => (1, c.donation_level),
        EntityKind::Other => (2, 0),
    }
}

// ---------------------------------------------------------------------------
// Entity
// ---------------------------------------------------------------------------

/// A player, contract or other holder of assets.
#[derive(Clone, Debug)]
pub struct Entity {
    full_name: String,
    identifier: String,
    kind: EntityKind,
    inventory: Inventory,
}

pub struct EntityView {
    pub full_name: Seq<char>,
    pub identifier: Seq<char>,
    pub kind: EntityKind,
    pub inventory: Map<Currency, u32>,
}

impl EntityView {
    pub open spec fn balance(self, c: Currency) -> u32 {
        balance_in(self.inventory, c)
    }

    pub open spec fn donation_level(self) -> u32 {
        match self.kind {
            EntityKind::Contract(c) => c.donation_level,
            _ => 0,
        }
    }
}

impl View for Entity {
    type V = EntityView;

    closed spec fn view(&self) -> EntityView {
        EntityView {
            full_name: self.full_name@,
            identifier: self.identifier@,
            kind: self.kind,
            inventory: self.inventory@,
        }
    }
}

/// The warning that a revoke gives when the balance does not cover it.
pub open spec fn below_zero_warning(
    full_name: Seq<char>,
    balance: u32,
    amount: u32,
    c: Currency,
) -> Seq<char> {
    "attempt to retract from "@ + full_name + " below zero: "@ + decimal(balance as nat) + " < "@
        + decimal(amount as nat) + " ("@ + abbr_of(c) + ")"@
}

/// The kind that an `ENT` directive names with `letter`.
pub open spec fn kind_of_letter(letter: Seq<char>) -> Option<EntityKind> {
    if lowercase(letter) == "p"@ {
        Some(EntityKind::Player(PlayerParams { is_active: true }))
    } else if lowercase(letter) == "c"@ {
        Some(EntityKind::Contract(ContractParams { donation_level: 0 }))
    } else if lowercase(letter) == "o"@ {
        Some(EntityKind::Other)
    } else {
        None
    }
}

/// The holdings of an `ENT` directive: pairs of a number and a currency, to the end of
/// the tokens, each pair setting that currency's entry.
pub open spec fn parse_holdings(t: TokensView, inv: Map<Currency, u32>) -> Step<
    Map<Currency, u32>,
>
    decreases t.len(),
{
    if t.len() == 0 {
        (Ok(inv), t)
    } else {
        match pop_integer(t, "expected number"@) {
            (Err(e), t1) => (Err(e), t1),
            (Ok(n), t1) => match pop_identifier(t1, "expected currency identifier"@) {
                (Err(e), t2) => (Err(e), t2),
                (Ok(s), t2) => match currency_of_abbr(s) {
                    None => (
                        Err(
                            serr(
                                "invalid currency: '"@ + s + "'!"@,
                                ErrorKind::InvalidCurrency,
                            ),
                        ),
                        t2,
                    ),
                    Some(c) => parse_holdings(t2, inv.insert(c, n)),
                },
            },
        }
    }
}

/// The arguments of an `ENT` directive: a kind letter (`P`, `C` or `O`), for a contract an
/// optional donation level, the identifier, an optional quoted full name, and holdings.
pub open spec fn parse_entity(t: TokensView) -> Step<EntityView> {
    if t.len() == 0 || !(t[0] is Identifier) {
        (
            Err(
                serr(
                    "Expected first arg of ENT directive to be identifier"@,
                    ErrorKind::ExpectedIdentifier,
                ),
            ),
            t,
        )
    } else {
        let letter = match t[0] {
            TokenView::Identifier(s) => s,
            _ => Seq::empty(),
        };
        let t0 = t.drop_first();
        match kind_of_letter(letter) {
            None => (Err(serr("Expected 'P', 'C', or 'O'"@, ErrorKind::InvalidEntityType)), t0),
            Some(k0) => {
                let (kind, t1) = match k0 {
                    EntityKind::Contract(_) => match pop_integer(t0, ""@) {
                        (Ok(i), t1) => (
                            EntityKind::Contract(ContractParams { donation_level: i }),
                            t1,
                        ),
                        (Err(_), t1) => (k0, t1),
                    },
                    _ => (k0, t0),
                };
                match pop_identifier(t1, "Expected name"@) {
                    (Err(e), t2) => (Err(e), t2),
                    (Ok(identifier), t2) => {
                        let (full_name, t3) = if t2.len() > 0 && t2[0] is String {
                            (
                                match t2[0] {
                                    TokenView::String(s) => s,
                                    _ => Seq::empty(),
                                },
                                t2.drop_first(),
                            )
                        } else {
                            (identifier, t2)
                        };
                        match parse_holdings(t3, Map::empty()) {
                            (Err(e), t4) => (Err(e), t4),
                            (Ok(inventory), t4) => (
                                Ok(EntityView { full_name, identifier, kind, inventory }),
                                t4,
                            ),
                        }
                    },
                }
            },
        }
    }
}

fn is_letter(s: &String, lower: char) -> (r: bool)
    ensures
        r == (lowercase(s@) == seq![lower]),
{
    let l = to_lowercase(s.as_str());
    let cs = crate::text::chars_of(l.as_str());
    if cs.len() == 1 && cs[0] == lower {
        assert(cs@ =~= seq![lower]);
        true
    } else {
        false
    }
}

impl Entity {
    /// An entity read from the arguments of an `ENT` directive.
    pub fn from_vec(tokens: &mut Vec<Token>) -> (r: SyntaxResult<Entity>)
        ensures
            stepped(r, final(tokens)@, parse_entity(tokens_view(old(tokens)@))),
    {
        let first_ok = tokens.len() > 0 && match &tokens[0] {
            Token::Identifier(_) => true,
            _ => false,
        };
        if !first_ok {
            return Err(
                SyntaxError::from(
                    "Expected first arg of ENT directive to be identifier",
                    ErrorKind::ExpectedIdentifier,
                ),
            );
        }
        let letter = match expect_identifier(tokens, "") {
            Ok(s) => s,
            Err(e) => {
                return Err(e);
            },
        };
        proof {
            reveal_strlit("p");
            reveal_strlit("c");
            reveal_strlit("o");
            assert("p"@ =~= seq!['p']);
            assert("c"@ =~= seq!['c']);
            assert("o"@ =~= seq!['o']);
        }
        let ghost t0 = tokens_view(tokens@);
        assert(t0 == tokens_view(old(tokens)@).drop_first());
        let mut kind = if is_letter(&letter, 'p') {
            EntityKind::Player(PlayerParams::new())
        } else if is_letter(&letter, 'c') {
            EntityKind::Contract(ContractParams::new())
        } else if is_letter(&letter, 'o') {
            EntityKind::Other
        } else {
            return Err(SyntaxError::from("Expected 'P', 'C', or 'O'", ErrorKind::InvalidEntityType));
        };
        assert(kind_of_letter(letter@) == Some(kind));
        if let EntityKind::Contract(_) = kind {
            if let Ok(i) = expect_integer(tokens, "") {
                kind = EntityKind::Contract(ContractParams { donation_level: i });
            }
        }
        let identifier = expect_identifier(tokens, "Expected name")?;
        let full_name = if tokens.len() > 0 && match &tokens[0] {
            Token::String(_) => true,
            _ => false,
        } {
            proof { crate::parser::expect::lemma_tokens_view_remove_first(tokens@); }
            match tokens.remove(0) {
                Token::String(s) => s,
                _ => identifier.clone(),
            }
        } else {
            identifier.clone()
        };
        let mut inventory = Inventory::new();
        loop
            invariant
                parse_entity(tokens_view(old(tokens)@)) == match parse_holdings(
                    tokens_view(tokens@),
                    inventory@,
                ) {
                    (Err(e), t4) => (Err(e), t4),
                    (Ok(inv), t4) => (
                        Ok(
                            EntityView {
                                full_name: full_name@,
                                identifier: identifier@,
                                kind,
                                inventory: inv,
                            },
                        ),
                        t4,
                    ),
                },
            ensures
                tokens@.len() == 0,
                parse_entity(tokens_view(old(tokens)@)) == match parse_holdings(
                    tokens_view(tokens@),
                    inventory@,
                ) {
                    (Err(e), t4) => (Err(e), t4),
                    (Ok(inv), t4) => (
                        Ok(
                            EntityView {
                                full_name: full_name@,
                                identifier: identifier@,
                                kind,
                                inventory: inv,
                            },
                        ),
                        t4,
                    ),
                },
            decreases tokens@.len(),
        {
            if tokens.len() == 0 {
                break;
            }
            let amount = expect_integer(tokens, "expected number")?;
            let cur = expect_identifier(tokens, "expected currency identifier")?;
            match crate::model::Currency::from_abbr(cur.as_str()) {
                Some(c) => {
                    inventory.insert(c, amount);
                },
                None => {
                    let mut m: Vec<char> = Vec::new();
                    push_str(&mut m, "invalid currency: '");
                    push_str(&mut m, cur.as_str());
                    push_str(&mut m, "'!");
                    return Err(
                        SyntaxError {
                            message: string_of(m.as_slice()),
                            kind: ErrorKind::InvalidCurrency,
                        },
                    );
                },
            }
        }
        assert(tokens_view(tokens@).len() == 0);
        assert(parse_holdings(tokens_view(tokens@), inventory@) == (
            Ok::<Map<Currency, u32>, SyntaxErrorView>(inventory@),
            tokens_view(tokens@),
        ));
        let r = Entity { full_name, identifier, kind, inventory };
        assert(r@ == EntityView {
            full_name: full_name@,
            identifier: identifier@,
            kind,
            inventory: inventory@,
        });
        Ok(r)
    }

    pub fn player(identifier: String, full_name: String) -> (r: Entity)
        ensures
            r@ == (EntityView {
                full_name: full_name@,
                identifier: identifier@,
                kind: EntityKind::Player(PlayerParams { is_active: true }),
                inventory: Map::empty(),
            }),
    {
        Entity {
            full_name,
            identifier,
            kind: EntityKind::Player(PlayerParams::new()),
            inventory: Inventory::new(),
        }
    }

    pub fn contract(identifier: String, full_name: String) -> (r: Entity)
        ensures
            r@ == (EntityView {
                full_name: full_name@,
                identifier: identifier@,
                kind: EntityKind::Contract(ContractParams { donation_level: 0 }),
                inventory: Map::empty(),
            }),
    {
        Entity {
            full_name,
            identifier,
            kind: EntityKind::Contract(ContractParams::new()),
            inventory: Inventory::new(),
        }
    }

    /// The amount of `c` held, zero where there is no entry.
    pub fn balance(&self, c: Currency) -> (r: u32)
        ensures
            r == self@.balance(c),
    {
        match self.inventory.get(c) {
            Some(v) => v,
            None => 0,
        }
    }

    /// Adds `a` to the balance of `c`.
    pub fn grant(&mut self, c: Currency, a: u32)
        requires
            old(self)@.balance(c) + a <= u32::MAX,
        ensures
            final(self)@ == (EntityView {
                inventory: old(self)@.inventory.insert(c, (old(self)@.balance(c) + a) as u32),
                ..old(self)@
            }),
    {
        let b = self.balance(c);
        self.inventory.insert(c, b + a);
    }

    /// Takes `a` from the balance of `c`. Where the balance is smaller it becomes zero,
    /// and the warning that says so is returned.
    pub fn revoke(&mut self, c: Currency, a: u32) -> (r: Option<String>)
        ensures
            final(self)@ == (EntityView {
                inventory: old(self)@.inventory.insert(
                    c,
                    if old(self)@.balance(c) < a {
                        0
                    } else {
                        (old(self)@.balance(c) - a) as u32
                    },
                ),
                ..old(self)@
            }),
            match r {
                Some(w) => old(self)@.balance(c) < a && w@ == below_zero_warning(
                    old(self)@.full_name,
                    old(self)@.balance(c),
                    a,
                    c,
                ),
                None => old(self)@.balance(c) >= a,
            },
    {
        let q = self.balance(c);
        if q < a {
            let mut m: Vec<char> = Vec::new();
            push_str(&mut m, "attempt to retract from ");
            push_str(&mut m, self.full_name.as_str());
            push_str(&mut m, " below zero: ");
            push_decimal(&mut m, q as u64);
            push_str(&mut m, " < ");
            push_decimal(&mut m, a as u64);
            push_str(&mut m, " (");
            push_str(&mut m, c.abbr());
            push_str(&mut m, ")");
            self.inventory.insert(c, 0);
            assert(m@ =~= below_zero_warning(old(self)@.full_name, q, a, c));
            Some(string_of(m.as_slice()))
        } else {
            self.inventory.insert(c, q - a);
            None
        }
    }

    /// Moves the holdings of `from` into `to`, added to what is held of `to`.
    pub fn rename(&mut self, from: Currency, to: Currency)
        requires
            from != to ==> old(self)@.balance(from) + old(self)@.balance(to) <= u32::MAX,
        ensures
            final(self)@ == (if from == to || !old(self)@.inventory.contains_key(from) {
                old(self)@
            } else {
                EntityView {
                    inventory: old(self)@.inventory.remove(from).insert(
                        to,
                        (old(self)@.balance(from) + old(self)@.balance(to)) as u32,
                    ),
                    ..old(self)@
                }
            }),
    {
        if from == to {
            return;
        }
        match self.inventory.remove(from) {
            Some(v) => {
                let b = match self.inventory.get(to) {
                    Some(w) => w,
                    None => 0,
                };
                assert(b == old(self)@.balance(to));
                self.inventory.insert(to, v + b);
            },
            None => {
                assert(self.inventory@ =~= old(self)@.inventory);
            },
        }
    }

    /// Marks a player active; other kinds are left as they are.
    pub fn activate(&mut self)
        ensures
            final(self)@ == (EntityView {
                kind: match old(self)@.kind {
                    EntityKind::Player(_) => EntityKind::Player(PlayerParams { is_active: true }),
                    k => k,
                },
                ..old(self)@
            }),
    {
        if let EntityKind::Player(_) = self.kind {
            self.kind = EntityKind::Player(PlayerParams { is_active: true });
        }
    }

    /// Marks a player inactive; other kinds are left as they are.
    pub fn deactivate(&mut self)
        ensures
            final(self)@ == (EntityView {
                kind: match old(self)@.kind {
                    EntityKind::Player(_) => EntityKind::Player(
                        PlayerParams { is_active: false },
                    ),
                    k => k,
                },
                ..old(self)@
            }),
    {
        if let EntityKind::Player(_) = self.kind {
            self.kind = EntityKind::Player(PlayerParams { is_active: false });
        }
    }

    /// Whether the full name differs from the identifier.
    pub fn has_full_name(&self) -> (r: bool)
        ensures
            r == (self@.full_name != self@.identifier),
    {
        !same_text(self.full_name.as_str(), self.identifier.as_str())
    }

    pub fn full_name(&self) -> (r: &String)
        ensures
            r@ == self@.full_name,
    {
        &self.full_name
    }

    pub fn identifier(&self) -> (r: &String)
        ensures
            r@ == self@.identifier,
    {
        &self.identifier
    }

    pub fn kind(&self) -> (r: EntityKind)
        ensures
            r == self@.kind,
    {
        self.kind
    }

    pub fn inventory(&self) -> (r: &Inventory)
        ensures
            r@ == self@.inventory,
    {
        &self.inventory
    }

    /// A copy of this entity.
    pub fn duplicate(&self) -> (r: Entity)
        ensures
            r@ == self@,
    {
        Entity {
            full_name: self.full_name.clone(),
            identifier: self.identifier.clone(),
            kind: self.kind,
            inventory: self.inventory.duplicate(),
        }
    }

    /// A contract's donation level; zero for other kinds.
    pub fn donation_level(&self) -> (r: u32)
        ensures
            r == self@.donation_level(),
    {
        match self.kind {
            EntityKind::Contract(c) => c.donation_level,
            _ => 0,
        }
    }
}


/// The kind letter of an `ENT` directive decides the entity's kind, in any case: `P` a
/// player (active), `C` a contract (with the donation level that follows, else zero), `O`
/// any other entity; with another letter the directive is refused.
pub proof fn law_entity_kind_letters(t: TokensView)
    requires
        t.len() > 0,
        t[0] is Identifier,
    ensures
        ({
            let letter = t[0]->Identifier_0;
            let r = parse_entity(t).0;
            &&& lowercase(letter) == "p"@ && r is Ok ==> r->Ok_0.kind == EntityKind::Player(
                PlayerParams { is_active: true },
            )
            &&& lowercase(letter) == "c"@ && r is Ok ==> r->Ok_0.kind == EntityKind::Contract(
                ContractParams {
                    donation_level: if t.len() > 1 && t[1] is Integer {
                        t[1]->Integer_0
                    } else {
                        0
                    },
                },
            )
            &&& lowercase(letter) == "o"@ && r is Ok ==> r->Ok_0.kind == EntityKind::Other
            &&& lowercase(letter) != "p"@ && lowercase(letter) != "c"@ && lowercase(letter)
                != "o"@ ==> r is Err
        }),
{
    reveal_strlit("p");
    reveal_strlit("c");
    reveal_strlit("o");
    let letter = t[0]->Identifier_0;
    let l = lowercase(letter);
    if t.len() > 1 {
        assert(t.drop_first()[0] == t[1]);
    }
    if l == "p"@ {
        assert(l[0] == 'p');
        assert(kind_of_letter(letter) == Some(EntityKind::Player(PlayerParams { is_active: true })));
    } else if l == "c"@ {
        assert(l[0] == 'c');
        assert(kind_of_letter(letter) == Some(EntityKind::Contract(ContractParams { donation_level: 0 })));
    } else if l == "o"@ {
        assert(l[0] == 'o');
        assert(kind_of_letter(letter) == Some(EntityKind::Other));
    }
}

/// An `ENT` directive for a player or another entity names it with the identifier right
/// after the kind letter, and gives it the quoted full name that follows, else the
/// identifier as its full name.
pub proof fn law_entity_identifier(t: TokensView)
    requires
        t.len() > 1,
        t[0] is Identifier,
        parse_entity(t).0 is Ok,
        !(parse_entity(t).0->Ok_0.kind is Contract),
    ensures
        t[1] is Identifier,
        parse_entity(t).0->Ok_0.identifier == t[1]->Identifier_0,
        parse_entity(t).0->Ok_0.full_name == if t.len() > 2 && t[2] is String {
            t[2]->String_0
        } else {
            t[1]->Identifier_0
        },
{
    assert(t.drop_first()[0] == t[1]);
    if t.len() > 2 {
        assert(t.drop_first().drop_first()[0] == t[2]);
    }
}

} // verus!
