use vstd::prelude::*;

use crate::clock::{dt_le, DateTime, Time};
use crate::model::amount::Amount;
use crate::model::entities::{
    entity_views, entries_total, has_key, key_index, rename_fits, renamed_all, sorted_by,
    EntriesView,
};
use crate::model::entity::{
    below_zero_warning, ContractParams, EntityKind, EntityView, PlayerParams,
};
use crate::model::history::{DatedView, HistoryEntryView};
use crate::model::unit::{is_card_spec, Currency, FullUnit};
use crate::parser::command::CommandView;
use crate::parser::token::OperatorView;
use crate::parser::transaction::{transfer_atoms, AtomicView, TransactionView};
use crate::parser::directive::DirectiveView;
use crate::text::{decimal, digit_char, digits_value};

verus! {

/// Why the ledger refused a line, a directive or a command.
#[derive(Clone, Debug, PartialEq, Eq)]
pub enum LedgerError {
    /// No entity has this identifier.
    NoSuchEntity(String),
    /// An entity with this identifier exists already.
    EntityExists(String),
    /// `everything` cannot be created.
    CannotAddEverything,
    /// `all` of a currency cannot be created.
    CannotAddAllOf,
    /// A line is dated before the ledger's present moment.
    TimeTravel,
    /// A balance or an amount would leave the range of its integer type.
    Overflow,
    /// The report counter is already at zero.
    ForbesExhausted,
    /// A flotation that is not written in decimal digits or does not fit.
    BadFlotation,
}

pub enum LedgerErrorView {
    NoSuchEntity(Seq<char>),
    EntityExists(Seq<char>),
    CannotAddEverything,
    CannotAddAllOf,
    TimeTravel,
    Overflow,
    ForbesExhausted,
    BadFlotation,
}

impl View for LedgerError {
    type V = LedgerErrorView;

    open spec fn view(&self) -> LedgerErrorView {
        match self {
            LedgerError::NoSuchEntity(s) => LedgerErrorView::NoSuchEntity(s@),
            LedgerError::EntityExists(s) => LedgerErrorView::EntityExists(s@),
            LedgerError::CannotAddEverything => LedgerErrorView::CannotAddEverything,
            LedgerError::CannotAddAllOf => LedgerErrorView::CannotAddAllOf,
            LedgerError::TimeTravel => LedgerErrorView::TimeTravel,
            LedgerError::Overflow => LedgerErrorView::Overflow,
            LedgerError::ForbesExhausted => LedgerErrorView::ForbesExhausted,
            LedgerError::BadFlotation => LedgerErrorView::BadFlotation,
        }
    }
}

/// The state of the ledger. `flotation` is the number of units that one boatload is
/// worth, in units of `FLOTATION_ONE` (ten to the eighteenth).
pub struct ContextView {
    pub forbes: u32,
    pub notes: Seq<Seq<char>>,
    pub assets: Seq<Currency>,
    pub entries: EntriesView,
    pub flotation: u128,
    pub total_buoyancy: u32,
    pub buoyancy_target: u32,
    pub datetime: DateTime,
    pub max_datetime: DateTime,
    pub history: Seq<DatedView>,
    pub relevel_cutoff: Option<DateTime>,
}

pub type Outcome = Result<ContextView, LedgerErrorView>;

// ---------------------------------------------------------------------------
// Amounts
// ---------------------------------------------------------------------------

/// The flotation's unit: a flotation of `FLOTATION_ONE` is one unit per boatload, so the
/// flotation holds eighteen decimals.
pub const FLOTATION_ONE: u128 = 1_000_000_000_000_000_000u128;

/// `amt` boatloads in units, at a flotation of `f`: `f * amt / FLOTATION_ONE` rounded up.
pub open spec fn boatload_units(f: u128, amt: u32) -> int {
    (f * amt + FLOTATION_ONE - 1) / (FLOTATION_ONE as int)
}

/// The flotation `f` written with four decimals, rounded to the nearest (halves up).
pub open spec fn flotation_text(f: u128) -> Seq<char> {
    fixed4(((f + 50_000_000_000_000) / 100_000_000_000_000) as nat)
}

/// `x`, or `u32::MAX` where `x` is larger.
pub open spec fn saturate(x: int) -> u32 {
    if x > u32::MAX {
        u32::MAX
    } else {
        x as u32
    }
}

/// The entity with identifier `id`, if there is one.
pub open spec fn find_entity(es: EntriesView, id: Seq<char>) -> Option<EntityView> {
    if has_key(es, id) {
        Some(es[key_index(es, id)].1)
    } else {
        None
    }
}

/// The balance of each of `assets`, with its currency.
pub open spec fn holdings(e: EntityView, assets: Seq<Currency>) -> Seq<(i32, Currency)> {
    assets.map_values(|c: Currency| (e.balance(c) as i32, c))
}

/// Every balance of `assets` fits in an `i32`.
pub open spec fn fits_i32(e: EntityView, assets: Seq<Currency>) -> bool {
    forall|i: int| 0 <= i < assets.len() ==> #[trigger] e.balance(assets[i]) <= i32::MAX
}

/// What the amount `a` of `holder` comes to, as pairs of a number of units and a currency.
pub open spec fn resolve(c: ContextView, holder: Seq<char>, a: Amount) -> Result<
    Seq<(i32, Currency)>,
    LedgerErrorView,
> {
    match a {
        Amount::Everything => if c.assets.len() == 0 {
            Ok(Seq::empty())
        } else {
            match find_entity(c.entries, holder) {
                None => Err(LedgerErrorView::NoSuchEntity(holder)),
                Some(e) => if fits_i32(e, c.assets) {
                    Ok(holdings(e, c.assets))
                } else {
                    Err(LedgerErrorView::Overflow)
                },
            }
        },
        Amount::AllOf(cur) => match find_entity(c.entries, holder) {
            None => Err(LedgerErrorView::NoSuchEntity(holder)),
            Some(e) => if e.balance(cur) <= i32::MAX {
                Ok(seq![(e.balance(cur) as i32, cur)])
            } else {
                Err(LedgerErrorView::Overflow)
            },
        },
        Amount::PartOf(FullUnit::Bare(cur), n) => if n <= i32::MAX {
            Ok(seq![(n as i32, cur)])
        } else {
            Err(LedgerErrorView::Overflow)
        },
        Amount::PartOf(FullUnit::Boatload(cur), n) => {
            let b = saturate(boatload_units(c.flotation, n));
            if b <= i32::MAX {
                Ok(seq![(b as i32, cur)])
            } else {
                Err(LedgerErrorView::Overflow)
            }
        },
    }
}

/// One change per pair, each of `sign` times its number of units.
pub open spec fn singles(
    agent: Seq<char>,
    pairs: Seq<(i32, Currency)>,
    sign: int,
    comment: Seq<char>,
) -> Seq<AtomicView> {
    pairs.map_values(
        |p: (i32, Currency)|
            AtomicView { agent, amount: (sign * p.0) as i32, currency: p.1, comment },
    )
}

/// The transfers of each pair from `agent` to `patient`.
pub open spec fn transfers(
    agent: Seq<char>,
    patient: Seq<char>,
    pairs: Seq<(i32, Currency)>,
    comment: Seq<char>,
) -> Seq<AtomicView>
    decreases pairs.len(),
{
    if pairs.len() == 0 {
        Seq::empty()
    } else {
        transfers(agent, patient, pairs.drop_last(), comment) + transfer_atoms(
            agent,
            patient,
            pairs.last().0,
            pairs.last().1,
            comment,
        )
    }
}

/// The changes to single balances that the transaction `t` comes to.
/// `trans` would create `everything` or `all` of a currency with `+`.
pub open spec fn adds_whole(t: TransactionView) -> bool {
    t.operator is Plus && !(t.amount is PartOf)
}

pub open spec fn expand_spec(c: ContextView, t: TransactionView) -> Result<
    Seq<AtomicView>,
    LedgerErrorView,
> {
    match t.operator {
        OperatorView::Plus => match t.amount {
            Amount::Everything => Err(LedgerErrorView::CannotAddEverything),
            Amount::AllOf(_) => if has_key(c.entries, t.agent) {
                Err(LedgerErrorView::CannotAddAllOf)
            } else {
                Err(LedgerErrorView::NoSuchEntity(t.agent))
            },
            Amount::PartOf(_, _) => match resolve(c, t.agent, t.amount) {
                Ok(p) => Ok(singles(t.agent, p, 1, t.comment)),
                Err(e) => Err(e),
            },
        },
        OperatorView::Minus => match resolve(c, t.agent, t.amount) {
            Ok(p) => Ok(
                singles(
                    t.agent,
                    p,
                    if t.amount is Everything {
                        1
                    } else {
                        -1
                    },
                    t.comment,
                ),
            ),
            Err(e) => Err(e),
        },
        OperatorView::Transfer(patient) => match resolve(c, t.agent, t.amount) {
            Ok(p) => Ok(transfers(t.agent, patient, p, t.comment)),
            Err(e) => Err(e),
        },
        OperatorView::Trade(tr) => match resolve(c, t.agent, t.amount) {
            Err(e) => Err(e),
            Ok(p1) => match resolve(c, tr.patient, tr.amount) {
                Err(e) => Err(e),
                Ok(p2) => Ok(
                    transfers(t.agent, tr.patient, p1, t.comment) + transfers(
                        tr.patient,
                        t.agent,
                        p2,
                        t.comment,
                    ),
                ),
            },
        },
    }
}

// ---------------------------------------------------------------------------
// Applying changes
// ---------------------------------------------------------------------------

pub open spec fn granted(e: EntityView, cur: Currency, a: int) -> EntityView {
    EntityView { inventory: e.inventory.insert(cur, (e.balance(cur) + a) as u32), ..e }
}

pub open spec fn revoked(e: EntityView, cur: Currency, a: int) -> EntityView {
    EntityView {
        inventory: e.inventory.insert(
            cur,
            if e.balance(cur) < a {
                0
            } else {
                (e.balance(cur) - a) as u32
            },
        ),
        ..e
    }
}

/// The history entry of the change `a` at `dt`.
pub open spec fn logged(a: AtomicView, dt: DateTime) -> DatedView {
    DatedView { datetime: dt, entry: HistoryEntryView::Transaction(a) }
}

/// One change applied: the agent must exist; a grant must not overflow; a revoke larger
/// than the balance empties it and leaves a note; a change other than zero is logged.
pub open spec fn apply_atom(c: ContextView, a: AtomicView, dt: DateTime) -> Outcome {
    if !has_key(c.entries, a.agent) {
        Err(LedgerErrorView::NoSuchEntity(a.agent))
    } else {
        let i = key_index(c.entries, a.agent);
        let e = c.entries[i].1;
        if a.amount > 0 {
            if e.balance(a.currency) + a.amount > u32::MAX {
                Err(LedgerErrorView::Overflow)
            } else {
                Ok(
                    ContextView {
                        entries: c.entries.update(
                            i,
                            (a.agent, granted(e, a.currency, a.amount as int)),
                        ),
                        history: c.history.push(logged(a, dt)),
                        ..c
                    },
                )
            }
        } else if a.amount < 0 {
            let n = -(a.amount as int);
            Ok(
                ContextView {
                    entries: c.entries.update(i, (a.agent, revoked(e, a.currency, n))),
                    history: c.history.push(logged(a, dt)),
                    notes: if e.balance(a.currency) < n {
                        c.notes.push(
                            below_zero_warning(e.full_name, e.balance(a.currency), n as u32, a.currency),
                        )
                    } else {
                        c.notes
                    },
                    ..c
                },
            )
        } else {
            Ok(c)
        }
    }
}

/// The changes applied one after another; the first refusal ends it.
pub open spec fn apply_atoms(c: ContextView, atoms: Seq<AtomicView>, dt: DateTime) -> Outcome
    decreases atoms.len(),
{
    if atoms.len() == 0 {
        Ok(c)
    } else {
        match apply_atoms(c, atoms.drop_last(), dt) {
            Ok(c1) => apply_atom(c1, atoms.last(), dt),
            Err(e) => Err(e),
        }
    }
}

/// A transaction applied at `dt`.
pub open spec fn apply_txn(c: ContextView, t: TransactionView, dt: DateTime) -> Outcome {
    match expand_spec(c, t) {
        Ok(atoms) => apply_atoms(c, atoms, dt),
        Err(e) => Err(e),
    }
}

/// Transactions applied one after another, each expanded in the state the ones before
/// it left.
pub open spec fn apply_txns(c: ContextView, ts: Seq<TransactionView>, dt: DateTime) -> Outcome
    decreases ts.len(),
{
    if ts.len() == 0 {
        Ok(c)
    } else {
        match apply_txns(c, ts.drop_last(), dt) {
            Ok(c1) => apply_txn(c1, ts.last(), dt),
            Err(e) => Err(e),
        }
    }
}

pub open spec fn txn(agent: Seq<char>, amount: Amount, operator: OperatorView, comment: Seq<char>) -> TransactionView {
    TransactionView { agent, amount, operator, comment }
}

// ---------------------------------------------------------------------------
// Nuke, payday, deregistration
// ---------------------------------------------------------------------------

pub open spec fn nuke_comment() -> Seq<char> {
    "ECONOMY NUKE!"@
}

pub open spec fn is_active_player(e: EntityView) -> bool {
    e.kind matches EntityKind::Player(p) && p.is_active
}

/// The deletions of every asset but coins from `id`.
pub open spec fn nuke_deletions_of(id: Seq<char>, assets: Seq<Currency>) -> Seq<TransactionView>
    decreases assets.len(),
{
    if assets.len() == 0 {
        Seq::empty()
    } else {
        nuke_deletions_of(id, assets.drop_last()) + if assets.last() != Currency::Coin {
            seq![txn(id, Amount::AllOf(assets.last()), OperatorView::Minus, nuke_comment())]
        } else {
            Seq::empty()
        }
    }
}

/// One card of every card asset for `id`, where `active` holds.
pub open spec fn nuke_grants_of(id: Seq<char>, active: bool, assets: Seq<Currency>) -> Seq<
    TransactionView,
>
    decreases assets.len(),
{
    if assets.len() == 0 {
        Seq::empty()
    } else {
        nuke_grants_of(id, active, assets.drop_last()) + if is_card_spec(assets.last())
            && active {
            seq![
                txn(
                    id,
                    Amount::PartOf(FullUnit::Bare(assets.last()), 1),
                    OperatorView::Plus,
                    nuke_comment(),
                ),
            ]
        } else {
            Seq::empty()
        }
    }
}

pub open spec fn nuke_deletions(o: Seq<EntityView>, assets: Seq<Currency>) -> Seq<TransactionView>
    decreases o.len(),
{
    if o.len() == 0 {
        Seq::empty()
    } else {
        nuke_deletions(o.drop_last(), assets) + nuke_deletions_of(o.last().identifier, assets)
    }
}

pub open spec fn nuke_grants(o: Seq<EntityView>, assets: Seq<Currency>) -> Seq<TransactionView>
    decreases o.len(),
{
    if o.len() == 0 {
        Seq::empty()
    } else {
        nuke_grants(o.drop_last(), assets) + nuke_grants_of(
            o.last().identifier,
            is_active_player(o.last()),
            assets,
        )
    }
}

/// The economy nuke, over the entities in the order `o`: every asset but coins is taken
/// from everyone, then each active player gets one of each card.
pub open spec fn nuke_spec(c: ContextView, o: Seq<EntityView>) -> Outcome {
    apply_txns(c, nuke_deletions(o, c.assets) + nuke_grants(o, c.assets), c.datetime)
}

/// The payday transactions of one entity: ten boatloads of coins for an active player;
/// for a contract that donates, half its coins destroyed and its donation level in
/// boatloads of coins.
pub open spec fn payday_of(e: EntityView) -> Seq<TransactionView> {
    match e.kind {
        EntityKind::Player(p) => if p.is_active {
            seq![
                txn(
                    e.identifier,
                    Amount::PartOf(FullUnit::Boatload(Currency::Coin), 10),
                    OperatorView::Plus,
                    "Payday"@,
                ),
            ]
        } else {
            Seq::empty()
        },
        EntityKind::Contract(cp) => if cp.donation_level > 0 {
            seq![
                txn(
                    e.identifier,
                    Amount::PartOf(FullUnit::Bare(Currency::Coin), e.balance(Currency::Coin) / 2),
                    OperatorView::Minus,
                    "Payday: charity coin destruction"@,
                ),
                txn(
                    e.identifier,
                    Amount::PartOf(FullUnit::Boatload(Currency::Coin), cp.donation_level),
                    OperatorView::Plus,
                    "Payday: donation level="@ + decimal(cp.donation_level as nat),
                ),
            ]
        } else {
            Seq::empty()
        },
        EntityKind::Other => Seq::empty(),
    }
}

pub open spec fn payday_txns(o: Seq<EntityView>) -> Seq<TransactionView>
    decreases o.len(),
{
    if o.len() == 0 {
        Seq::empty()
    } else {
        payday_txns(o.drop_last()) + payday_of(o.last())
    }
}

/// Payday over the entities in the order `o`.
pub open spec fn payday_spec(c: ContextView, o: Seq<EntityView>) -> Outcome {
    apply_txns(c, payday_txns(o), c.datetime)
}

pub open spec fn lost_and_found() -> Seq<char> {
    "L&F_Dept."@
}

/// What a deregistered entity held, handed to the lost and found department.
pub open spec fn deregister_txns(assets: Seq<Currency>, e: EntityView) -> Seq<TransactionView> {
    assets.map_values(
        |cur: Currency|
            txn(
                lost_and_found(),
                Amount::PartOf(FullUnit::Bare(cur), e.balance(cur)),
                OperatorView::Plus,
                "Indeterminate owner: was "@ + e.identifier,
            ),
    )
}

/// The entries without the one with identifier `id`.
pub open spec fn without_key(es: EntriesView, id: Seq<char>) -> EntriesView {
    if has_key(es, id) {
        es.remove(key_index(es, id))
    } else {
        es
    }
}

pub open spec fn deregister_spec(c: ContextView, id: Seq<char>) -> Outcome {
    match find_entity(c.entries, id) {
        None => Err(LedgerErrorView::NoSuchEntity(id)),
        Some(e) => match apply_txns(c, deregister_txns(c.assets, e), c.datetime) {
            Err(err) => Err(err),
            Ok(c1) => Ok(ContextView { entries: without_key(c1.entries, id), ..c1 }),
        },
    }
}

// ---------------------------------------------------------------------------
// Relevel, rename
// ---------------------------------------------------------------------------

/// A count of ten-thousandths written with four decimals.
pub open spec fn fixed4(f: nat) -> Seq<char> {
    decimal(f / 10000) + "."@ + seq![
        digit_char((f / 1000) % 10),
        digit_char((f / 100) % 10),
        digit_char((f / 10) % 10),
        digit_char(f % 10),
    ]
}

/// What a result without a value says of the state `after` that it leaves, against the
/// outcome `o` that the ledger's rules give.
pub open spec fn outcome_matches(r: Result<(), LedgerError>, after: ContextView, o: Outcome) -> bool {
    match o {
        Ok(c) => r is Ok && after == c,
        Err(e) => r matches Err(x) && x@ == e,
    }
}

/// The ledger's moment is before the date from which releveling follows the target.
pub open spec fn before_cutoff(c: ContextView) -> bool {
    match c.relevel_cutoff {
        None => true,
        Some(d) => !dt_le(d, c.datetime),
    }
}

/// Releveling with the total buoyancy `tb`: the flotation becomes `tb / 2500`; from the
/// cutoff on, the total buoyancy is the target and the flotation its 2500th rounded up.
pub open spec fn relevel_state(c: ContextView, tb: u32) -> ContextView {
    if before_cutoff(c) {
        ContextView { total_buoyancy: tb, flotation: (tb * 400_000_000_000_000) as u128, ..c }
    } else {
        ContextView {
            total_buoyancy: c.buoyancy_target,
            flotation: (((c.buoyancy_target + 2499) / 2500) * FLOTATION_ONE) as u128,
            ..c
        }
    }
}

pub open spec fn relevel_message(c: ContextView) -> Seq<char> {
    "  RELEVELING: TB="@ + decimal(c.total_buoyancy as nat) + ", UF="@ + flotation_text(c.flotation)
}

/// `s` with its first `a`, if any, replaced by `b`.
pub open spec fn rename_first(s: Seq<Currency>, a: Currency, b: Currency) -> Seq<Currency> {
    if exists|i: int| 0 <= i < s.len() && s[i] == a {
        s.update(
            choose|i: int|
                0 <= i < s.len() && s[i] == a && forall|j: int| 0 <= j < i ==> s[j] != a,
            b,
        )
    } else {
        s
    }
}

// ---------------------------------------------------------------------------
// Commands
// ---------------------------------------------------------------------------

/// The event `msg` at `dt` added to the history where `record` holds.
pub open spec fn with_event(c: ContextView, dt: DateTime, record: bool, msg: Seq<char>) -> ContextView {
    if record {
        ContextView {
            history: c.history.push(DatedView { datetime: dt, entry: HistoryEntryView::Event(msg) }),
            ..c
        }
    } else {
        c
    }
}

pub open spec fn activated(e: EntityView) -> EntityView {
    EntityView {
        kind: match e.kind {
            EntityKind::Player(_) => EntityKind::Player(PlayerParams { is_active: true }),
            k => k,
        },
        ..e
    }
}

pub open spec fn deactivated(e: EntityView) -> EntityView {
    EntityView {
        kind: match e.kind {
            EntityKind::Player(_) => EntityKind::Player(PlayerParams { is_active: false }),
            k => k,
        },
        ..e
    }
}

pub open spec fn new_contract(id: Seq<char>, full: Seq<char>) -> EntityView {
    EntityView {
        full_name: full,
        identifier: id,
        kind: EntityKind::Contract(ContractParams { donation_level: 0 }),
        inventory: Map::empty(),
    }
}

pub open spec fn new_player(id: Seq<char>, full: Seq<char>) -> EntityView {
    EntityView {
        full_name: full,
        identifier: id,
        kind: EntityKind::Player(PlayerParams { is_active: true }),
        inventory: Map::empty(),
    }
}

/// The entity `id` replaced by `changed`, with the event `msg`.
pub open spec fn change_entity(
    c: ContextView,
    id: Seq<char>,
    changed: EntityView,
    dt: DateTime,
    record: bool,
    msg: Seq<char>,
) -> Outcome {
    if !has_key(c.entries, id) {
        Err(LedgerErrorView::NoSuchEntity(id))
    } else {
        Ok(
            with_event(
                ContextView {
                    entries: c.entries.update(key_index(c.entries, id), (id, changed)),
                    ..c
                },
                dt,
                record,
                msg,
            ),
        )
    }
}

pub open spec fn relevel_outcome(c: ContextView, tb: u32, dt: DateTime, record: bool) -> Outcome {
    let c1 = relevel_state(c, tb);
    Ok(with_event(c1, dt, record, relevel_message(c1)))
}

pub open spec fn report_outcome(c: ContextView, dt: DateTime, record: bool, msg: Seq<char>) -> Outcome {
    if c.forbes == 0 {
        Err(LedgerErrorView::ForbesExhausted)
    } else {
        Ok(with_event(ContextView { forbes: (c.forbes - 1) as u32, ..c }, dt, record, msg))
    }
}

/// A command other than a nuke or a payday carried out at `dt`; `record` says whether its
/// event enters the history.
pub open spec fn exec_plain(c: ContextView, cmd: CommandView, dt: DateTime, record: bool) -> Outcome {
    match cmd {
        CommandView::Activate(name) => change_entity(
            c,
            name,
            activated(c.entries[key_index(c.entries, name)].1),
            dt,
            record,
            "  "@ + name + " becomes active"@,
        ),
        CommandView::BuoyancyTarget(bt) => Ok(
            with_event(
                ContextView { buoyancy_target: bt, ..c },
                dt,
                record,
                "  Buoyancy target set to "@ + decimal(bt as nat),
            ),
        ),
        CommandView::Deactivate(name) => change_entity(
            c,
            name,
            deactivated(c.entries[key_index(c.entries, name)].1),
            dt,
            record,
            "  "@ + name + " becomes inactive"@,
        ),
        CommandView::Deregister(id) => deregister_spec(c, id),
        CommandView::Message(s) => Ok(with_event(c, dt, record, "  "@ + s)),
        CommandView::NewContract(id, full) => if has_key(c.entries, id) {
            Err(LedgerErrorView::EntityExists(id))
        } else {
            Ok(
                with_event(
                    ContextView { entries: c.entries.push((id, new_contract(id, full))), ..c },
                    dt,
                    record,
                    "  Contract "@ + id + " created"@,
                ),
            )
        },
        CommandView::NewPlayer(id, full) => if has_key(c.entries, id) {
            Err(LedgerErrorView::EntityExists(id))
        } else {
            Ok(ContextView { entries: c.entries.push((id, new_player(id, full))), ..c })
        },
        CommandView::Relevel(opt) => match opt {
            Some(tb) => relevel_outcome(c, tb, dt, record),
            None => if entries_total(c.entries, Currency::Coin) > u32::MAX {
                Err(LedgerErrorView::Overflow)
            } else {
                relevel_outcome(c, entries_total(c.entries, Currency::Coin) as u32, dt, record)
            },
        },
        CommandView::Rename(a, b) => if !rename_fits(c.entries, a, b) {
            Err(LedgerErrorView::Overflow)
        } else {
            Ok(
                ContextView {
                    assets: rename_first(c.assets, a, b),
                    entries: renamed_all(c.entries, a, b),
                    ..c
                },
            )
        },
        CommandView::Report => report_outcome(c, dt, record, "  WEEKLY REPORT"@),
        CommandView::Revision => report_outcome(c, dt, record, "  REPORT REVISION"@),
        CommandView::Transaction(t) => apply_txn(c, t, dt),
        _ => Ok(c),
    }
}

/// The entities of `es`, sorted by lowercase identifier (equal keys in some order).
pub open spec fn sorted_order(o: Seq<EntityView>, es: EntriesView) -> bool {
    o.to_multiset() == entity_views(es).to_multiset() && sorted_by(false, o)
}

/// `r` and the state `after` are what carrying out `cmd` at `dt` can lead to. A nuke and
/// a payday go through the entities sorted by lowercase identifier; among equal keys the
/// order is not fixed.
pub open spec fn exec_rel(
    c: ContextView,
    cmd: CommandView,
    dt: DateTime,
    record: bool,
    r: Result<(), LedgerError>,
    after: ContextView,
) -> bool
    decreases cmd,
{
    match cmd {
        CommandView::Nuke => exists|o: Seq<EntityView>|
            sorted_order(o, c.entries) && outcome_matches(r, after, nuke_spec(c, o)),
        CommandView::Payday => exists|o: Seq<EntityView>|
            sorted_order(o, c.entries) && outcome_matches(r, after, payday_spec(c, o)),
        CommandView::NoRecord(inner) => exec_rel(c, *inner, dt, false, r, after),
        _ => outcome_matches(r, after, exec_plain(c, cmd, dt, record)),
    }
}


/// `r` and `after` are what entering the line `l` can lead to: a line dated before the
/// present is refused and changes nothing; otherwise the present moves to the line's
/// moment; a line after the last moment to enter is skipped (`false`); any other line's
/// command is carried out and its events recorded (`true`).
pub open spec fn enter_rel(
    c: ContextView,
    l: crate::parser::line::LineView,
    r: Result<bool, LedgerError>,
    after: ContextView,
) -> bool {
    if !dt_le(c.datetime, l.datetime) {
        r matches Err(e) && e@ == LedgerErrorView::TimeTravel && after == c
    } else {
        let c1 = ContextView { datetime: l.datetime, ..c };
        if !dt_le(l.datetime, c.max_datetime) {
            r matches Ok(b) && !b && after == c1
        } else {
            match r {
                Ok(b) => b && exec_rel(c1, l.action, l.datetime, true, Ok(()), after),
                Err(e) => exec_rel(c1, l.action, l.datetime, true, Err(e), after),
            }
        }
    }
}


// ---------------------------------------------------------------------------
// Directives
// ---------------------------------------------------------------------------

pub open spec fn all_digits(s: Seq<char>) -> bool {
    forall|i: int| 0 <= i < s.len() ==> '0' <= #[trigger] s[i] <= '9'
}

/// The first eighteen decimals of a fraction, filled up with zeros.
pub open spec fn eighteen_places(f: Seq<char>) -> Seq<char> {
    (f + Seq::new(18, |i: int| '0')).take(18)
}

/// The number `w.f` in units of `FLOTATION_ONE`: the digits of `w` followed by the first
/// eighteen decimals of `f`, where both parts are decimal digits. (Decimals past the
/// eighteenth, finer than a 32-bit float tells apart, are dropped.)
pub open spec fn decimal_units(w: Seq<char>, f: Seq<char>) -> Option<nat> {
    if all_digits(w) && all_digits(f) {
        Some(digits_value(w + eighteen_places(f)))
    } else {
        None
    }
}

/// A line of the state file applied to the ledger.
pub open spec fn process_spec(c: ContextView, d: DirectiveView) -> Outcome {
    match d {
        DirectiveView::Assets(v) => Ok(ContextView { assets: v, ..c }),
        DirectiveView::Date(x) => Ok(
            ContextView { datetime: DateTime { date: x, time: Time { hour: 0, minute: 0 } }, ..c },
        ),
        DirectiveView::Entity(e) => if has_key(c.entries, e.identifier) {
            Err(LedgerErrorView::EntityExists(e.identifier))
        } else {
            Ok(ContextView { entries: c.entries.push((e.identifier, e)), ..c })
        },
        DirectiveView::Flotation((w, f)) => match decimal_units(w, f) {
            Some(n) => if n <= u128::MAX {
                Ok(ContextView { flotation: n as u128, ..c })
            } else {
                Err(LedgerErrorView::BadFlotation)
            },
            None => Err(LedgerErrorView::BadFlotation),
        },
        DirectiveView::Forbes(i) => Ok(ContextView { forbes: i, ..c }),
    }
}

/// Among all-digit texts, a prefix is worth no more than the whole.
pub proof fn lemma_digits_prefix(s: Seq<char>, k: int)
    requires
        0 <= k <= s.len(),
        all_digits(s),
    ensures
        digits_value(s.take(k)) <= digits_value(s),
    decreases s.len(),
{
    if k < s.len() {
        let t = s.drop_last();
        assert(all_digits(t));
        assert(t.take(k) =~= s.take(k));
        lemma_digits_prefix(t, k);
        assert('0' <= s.last() <= '9');
    } else {
        assert(s.take(k) =~= s);
    }
}

// ---------------------------------------------------------------------------
// Refusals end a run of changes
// ---------------------------------------------------------------------------

/// Once a prefix of a run of changes is refused, the whole run is refused the same way.
pub proof fn lemma_atoms_refused(c: ContextView, s: Seq<AtomicView>, k: int, dt: DateTime)
    requires
        0 <= k <= s.len(),
        apply_atoms(c, s.take(k), dt) is Err,
    ensures
        apply_atoms(c, s, dt) == apply_atoms(c, s.take(k), dt),
    decreases s.len() - k,
{
    if k < s.len() {
        assert(s.take(k + 1).drop_last() =~= s.take(k));
        lemma_atoms_refused(c, s, k + 1, dt);
    } else {
        assert(s.take(k) =~= s);
    }
}

/// Once a prefix of a run of transactions is refused, the whole run is refused the same
/// way.
pub proof fn lemma_txns_refused(c: ContextView, s: Seq<TransactionView>, k: int, dt: DateTime)
    requires
        0 <= k <= s.len(),
        apply_txns(c, s.take(k), dt) is Err,
    ensures
        apply_txns(c, s, dt) == apply_txns(c, s.take(k), dt),
    decreases s.len() - k,
{
    if k < s.len() {
        assert(s.take(k + 1).drop_last() =~= s.take(k));
        lemma_txns_refused(c, s, k + 1, dt);
    } else {
        assert(s.take(k) =~= s);
    }
}

} // verus!
