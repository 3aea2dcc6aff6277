use vstd::prelude::*;

use crate::clock::{dt_le, min_datetime, min_year, Date, DateTime, Time};
use crate::model::amount::Amount;
use crate::model::entities::{has_key, key_index, refs_view, Entities};
use crate::model::entity::{Entity, EntityKind};
use crate::model::history::{DatedHistoryEntry, DatedView, HistoryEntry};
use crate::model::ledger::{
    adds_whole, FLOTATION_ONE, all_digits, apply_atom, apply_atoms, apply_txn, apply_txns, boatload_units, decimal_units,
    deregister_spec, deregister_txns, enter_rel, exec_rel, expand_spec, find_entity, fits_i32,
    fixed4, eighteen_places, flotation_text, holdings, is_active_player, lemma_atoms_refused, lemma_digits_prefix,
    lemma_txns_refused, logged, lost_and_found, new_player, nuke_comment, nuke_deletions,
    nuke_deletions_of, nuke_grants, nuke_grants_of, nuke_spec, outcome_matches, payday_of,
    payday_spec, payday_txns, process_spec, relevel_message, relevel_state, rename_first, resolve,
    saturate, singles, sorted_order, transfers, txn, with_event, ContextView, LedgerError,
    LedgerErrorView,
};
use crate::model::unit::{Currency, FullUnit};
use crate::parser::command::Command;
use crate::parser::directive::{Directive, DirectiveView};
use crate::parser::line::Line;
use crate::parser::token::{Decimal, Operator};
use crate::parser::transaction::{
    atoms_view, AtomicTransaction, AtomicView, Transaction, TransactionView,
};
use crate::text::{chars_of, digit_of, digits_value, push_decimal, push_decimal_wide, push_str, string_of};

verus! {

/// The ledger: the entities and what they hold, the assets in use, the flotation, the
/// report counter, and the history of what happened.
#[derive(Debug)]
pub struct Context {
    forbes: u32,
    notes: Vec<String>,
    assets: Vec<Currency>,
    entities: Entities,
    flotation: u128,
    total_buoyancy: u32,
    buoyancy_target: u32,
    datetime: DateTime,
    max_datetime: DateTime,
    history: Vec<DatedHistoryEntry>,
    relevel_cutoff: Option<DateTime>,
}

pub open spec fn strings_view(v: Seq<String>) -> Seq<Seq<char>> {
    v.map_values(|s: String| s@)
}

pub open spec fn history_view(v: Seq<DatedHistoryEntry>) -> Seq<DatedView> {
    v.map_values(|h: DatedHistoryEntry| h@)
}

pub open spec fn txns_view(v: Seq<Transaction>) -> Seq<TransactionView> {
    v.map_values(|t: Transaction| t@)
}

impl View for Context {
    type V = ContextView;

    closed spec fn view(&self) -> ContextView {
        ContextView {
            forbes: self.forbes,
            notes: strings_view(self.notes@),
            assets: self.assets@,
            entries: self.entities.entries(),
            flotation: self.flotation,
            total_buoyancy: self.total_buoyancy,
            buoyancy_target: self.buoyancy_target,
            datetime: self.datetime,
            max_datetime: self.max_datetime,
            history: history_view(self.history@),
            relevel_cutoff: self.relevel_cutoff,
        }
    }
}

/// The state of a fresh ledger whose logs run up to `dt`.
pub open spec fn initial_view(dt: DateTime) -> ContextView {
    ContextView {
        forbes: 500,
        notes: Seq::empty(),
        assets: Seq::empty(),
        entries: Seq::empty(),
        flotation: FLOTATION_ONE,
        total_buoyancy: 0,
        buoyancy_target: 0,
        datetime: DateTime {
            date: Date { year: min_year() as i32, month: 1, day: 1 },
            time: Time { hour: 0, minute: 0 },
        },
        max_datetime: dt,
        history: Seq::empty(),
        relevel_cutoff: None,
    }
}

/// The last minute of the latest day that the calendar holds.
pub open spec fn latest_datetime() -> DateTime {
    DateTime {
        date: Date { year: 262142, month: 12, day: 31 },
        time: Time { hour: 23, minute: 59 },
    }
}

impl Context {
    /// The ledger's table of entities is well formed.
    pub closed spec fn wf(&self) -> bool {
        self.entities.wf()
    }

    /// A fresh ledger, which enters log lines up to `dt`.
    pub fn from_datetime(dt: DateTime) -> (r: Context)
        ensures
            r.wf(),
            r@ == initial_view(dt),
    {
        let r = Context {
            forbes: 500,
            notes: Vec::new(),
            assets: Vec::new(),
            entities: Entities::new(),
            flotation: FLOTATION_ONE,
            total_buoyancy: 0,
            buoyancy_target: 0,
            datetime: min_datetime(),
            max_datetime: dt,
            history: Vec::new(),
            relevel_cutoff: None,
        };
        assert(strings_view(r.notes@) =~= Seq::<Seq<char>>::empty());
        assert(history_view(r.history@) =~= Seq::<DatedView>::empty());
        r
    }

    /// A fresh ledger with no end to the lines it enters.
    pub fn new() -> (r: Context)
        ensures
            r.wf(),
            r@ == initial_view(latest_datetime()),
    {
        Context::from_datetime(
            DateTime {
                date: Date { year: 262142, month: 12, day: 31 },
                time: Time { hour: 23, minute: 59 },
            },
        )
    }

    /// Sets the moment from which a relevel takes the buoyancy target as the total
    /// buoyancy (`None`: never).
    pub fn set_relevel_cutoff(&mut self, cutoff: Option<DateTime>)
        ensures
            final(self)@ == (ContextView { relevel_cutoff: cutoff, ..old(self)@ }),
            final(self).wf() == old(self).wf(),
    {
        self.relevel_cutoff = cutoff;
    }

    /// `amt` boatloads in units: the flotation times `amt`, rounded up, at most
    /// `u32::MAX`.
    pub fn boatloads(&self, amt: u32) -> (r: u32)
        ensures
            r == saturate(boatload_units(self@.flotation, amt)),
    {
        let f = self.flotation;
        let a = amt as u128;
        let q = f / FLOTATION_ONE;
        let m = f % FLOTATION_ONE;
        assert(q <= 0xffff_ffff_ffff_ffff_ffff) by (nonlinear_arith)
            requires
                q == f / 1_000_000_000_000_000_000u128,
                f <= u128::MAX,
        ;
        assert(q * a <= 0xffff_ffff_ffff_ffff_ffff * 0xffff_ffff) by (nonlinear_arith)
            requires
                q <= 0xffff_ffff_ffff_ffff_ffff,
                a <= 0xffff_ffff,
        ;
        assert(m * a <= 1_000_000_000_000_000_000 * 0xffff_ffff) by (nonlinear_arith)
            requires
                m < 1_000_000_000_000_000_000,
                a <= 0xffff_ffff,
        ;
        let whole = q * a;
        let part = (m * a + (FLOTATION_ONE - 1)) / FLOTATION_ONE;
        proof {
            let s = FLOTATION_ONE as int;
            vstd::arithmetic::div_mod::lemma_fundamental_div_mod(f as int, s);
            assert(f * a + s - 1 == (m * a + s - 1) + (q * a) * s) by (nonlinear_arith)
                requires
                    f == s * q + m,
            ;
            vstd::arithmetic::div_mod::lemma_hoist_over_denominator(
                m * a + s - 1,
                q * a,
                s as nat,
            );
        }
        if whole > 0xffff_ffff {
            u32::MAX
        } else {
            let total = whole + part;
            if total > 0xffff_ffff {
                u32::MAX
            } else {
                total as u32
            }
        }
    }

    /// What the amount `a` of `holder` comes to, as pairs of units and currency.
    fn resolve_amount(&self, holder: &str, a: Amount) -> (r: Result<Vec<(i32, Currency)>, LedgerError>)
        requires
            self.wf(),
        ensures
            match resolve(self@, holder@, a) {
                Ok(p) => r matches Ok(v) && v@ == p,
                Err(e) => r matches Err(x) && x@ == e,
            },
            r matches Ok(v) ==> forall|i: int| 0 <= i < v@.len() ==> #[trigger] v@[i].0 >= 0,
    {
        match a {
            Amount::Everything => {
                if self.assets.len() == 0 {
                    return Ok(Vec::new());
                }
                let e = match self.entities.get(holder) {
                    Some(e) => e,
                    None => {
                        return Err(LedgerError::NoSuchEntity(holder.to_owned()));
                    },
                };
                assert(find_entity(self@.entries, holder@) == Some(e@));
                let mut v: Vec<(i32, Currency)> = Vec::new();
                let mut i: usize = 0;
                while i < self.assets.len()
                    invariant
                        0 <= i <= self.assets@.len(),
                        v@ == holdings(e@, self.assets@.take(i as int)),
                        find_entity(self@.entries, holder@) == Some(e@),
                        a == Amount::Everything,
                        self.assets@.len() > 0,
                        forall|j: int| 0 <= j < i ==> #[trigger] e@.balance(self.assets@[j]) <= i32::MAX,
                    decreases self.assets@.len() - i,
                {
                    let c = self.assets[i];
                    let b = e.balance(c);
                    if b > 0x7fff_ffff {
                        assert(!fits_i32(e@, self.assets@));
                        return Err(LedgerError::Overflow);
                    }
                    v.push((b as i32, c));
                    assert(holdings(e@, self.assets@.take(i + 1)) =~= holdings(
                        e@,
                        self.assets@.take(i as int),
                    ).push((b as i32, c)));
                    i = i + 1;
                }
                assert(self.assets@.take(i as int) =~= self.assets@);
                Ok(v)
            },
            Amount::AllOf(cur) => {
                let e = match self.entities.get(holder) {
                    Some(e) => e,
                    None => {
                        return Err(LedgerError::NoSuchEntity(holder.to_owned()));
                    },
                };
                let b = e.balance(cur);
                if b > 0x7fff_ffff {
                    return Err(LedgerError::Overflow);
                }
                let mut v: Vec<(i32, Currency)> = Vec::new();
                v.push((b as i32, cur));
                assert(v@ =~= seq![(b as i32, cur)]);
                Ok(v)
            },
            Amount::PartOf(unit, n) => {
                let (units, cur) = match unit {
                    FullUnit::Bare(c) => (n, c),
                    FullUnit::Boatload(c) => (self.boatloads(n), c),
                };
                if units > 0x7fff_ffff {
                    return Err(LedgerError::Overflow);
                }
                let mut v: Vec<(i32, Currency)> = Vec::new();
                v.push((units as i32, cur));
                assert(v@ =~= seq![(units as i32, cur)]);
                Ok(v)
            },
        }
    }
}

/// One change per pair, the number of units negated where `negate` holds.
fn singles_vec(agent: &str, pairs: &Vec<(i32, Currency)>, negate: bool, comment: &str) -> (r: Vec<
    AtomicTransaction,
>)
    requires
        forall|i: int| 0 <= i < pairs@.len() ==> #[trigger] pairs@[i].0 >= 0,
    ensures
        atoms_view(r@) == singles(
            agent@,
            pairs@,
            if negate {
                -1
            } else {
                1
            },
            comment@,
        ),
{
    let ghost sign: int = if negate {
        -1
    } else {
        1
    };
    let mut r: Vec<AtomicTransaction> = Vec::new();
    let mut i: usize = 0;
    while i < pairs.len()
        invariant
            0 <= i <= pairs@.len(),
            forall|j: int| 0 <= j < pairs@.len() ==> #[trigger] pairs@[j].0 >= 0,
            sign == (if negate {
                -1int
            } else {
                1int
            }),
            atoms_view(r@) == singles(agent@, pairs@.take(i as int), sign, comment@),
        decreases pairs@.len() - i,
    {
        let (n, c) = pairs[i];
        let amount = if negate {
            -n
        } else {
            n
        };
        let ghost before = r@;
        r.push(AtomicTransaction::new(agent.to_owned(), amount, c, comment.to_owned()));
        assert(pairs@.take(i + 1) =~= pairs@.take(i as int).push((n, c)));
        assert(atoms_view(r@) =~= atoms_view(before).push(r@[i as int]@));
        assert(singles(agent@, pairs@.take(i + 1), sign, comment@) =~= singles(
            agent@,
            pairs@.take(i as int),
            sign,
            comment@,
        ).push(r@[i as int]@));
        i = i + 1;
    }
    assert(pairs@.take(i as int) =~= pairs@);
    r
}

/// The transfers of each pair from `agent` to `patient`.
fn transfers_vec(agent: &str, patient: &str, pairs: &Vec<(i32, Currency)>, comment: &str) -> (r:
    Vec<AtomicTransaction>)
    requires
        forall|i: int| 0 <= i < pairs@.len() ==> #[trigger] pairs@[i].0 >= 0,
    ensures
        atoms_view(r@) == transfers(agent@, patient@, pairs@, comment@),
{
    let mut r: Vec<AtomicTransaction> = Vec::new();
    let mut i: usize = 0;
    assert(atoms_view(r@) =~= Seq::empty());
    assert(pairs@.take(0) =~= Seq::<(i32, Currency)>::empty());
    while i < pairs.len()
        invariant
            0 <= i <= pairs@.len(),
            forall|j: int| 0 <= j < pairs@.len() ==> #[trigger] pairs@[j].0 >= 0,
            atoms_view(r@) == transfers(agent@, patient@, pairs@.take(i as int), comment@),
        decreases pairs@.len() - i,
    {
        let (n, c) = pairs[i];
        assert(pairs@[i as int].0 >= 0);
        let mut t = AtomicTransaction::transfer_vec(agent, patient, n, c, comment);
        let ghost before = r@;
        r.append(&mut t);
        assert(pairs@.take(i + 1).drop_last() =~= pairs@.take(i as int));
        assert(atoms_view(r@) =~= atoms_view(before) + crate::parser::transaction::transfer_atoms(agent@, patient@, n, c, comment@));
        i = i + 1;
    }
    assert(pairs@.take(i as int) =~= pairs@);
    r
}

impl Context {
    /// The refusal of a transaction that would create `everything` or `all` of a currency
    /// with `+`: `CannotAddEverything`, or `CannotAddAllOf` (`NoSuchEntity` first where the
    /// agent of `all` is unknown). `None` for every other transaction.
    pub fn unaddable(&self, trans: &Transaction) -> (r: Option<LedgerError>)
        requires
            self.wf(),
        ensures
            r is Some <==> adds_whole(trans@),
            r matches Some(e) ==> expand_spec(self@, trans@) == Err::<Seq<AtomicView>, LedgerErrorView>(e@),
    {
        let agent = trans.agent();
        match trans.operator() {
            Operator::Plus => match trans.amount() {
                Amount::Everything => Some(LedgerError::CannotAddEverything),
                Amount::AllOf(_) => {
                    if self.entities.get(agent).is_some() {
                        Some(LedgerError::CannotAddAllOf)
                    } else {
                        Some(LedgerError::NoSuchEntity(agent.to_owned()))
                    }
                },
                Amount::PartOf(_, _) => None,
            },
            _ => None,
        }
    }

    /// The changes to single balances that `trans` comes to, in the present state. A
    /// transaction that would create `everything` or `all` of a currency is left out (the
    /// ledger refuses it before, see `unaddable`). An amount beyond `i32::MAX` units is
    /// refused with `Overflow`.
    pub fn expand_transaction(&self, trans: &Transaction) -> (r: Result<
        Vec<AtomicTransaction>,
        LedgerError,
    >)
        requires
            self.wf(),
            !adds_whole(trans@),
        ensures
            match expand_spec(self@, trans@) {
                Ok(a) => r matches Ok(v) && atoms_view(v@) == a,
                Err(e) => r matches Err(x) && x@ == e,
            },
    {
        let agent = trans.agent();
        let comment = trans.comment();
        let amount = trans.amount();
        match trans.operator() {
            Operator::Plus => match self.resolve_amount(agent, amount) {
                Ok(p) => Ok(singles_vec(agent, &p, false, comment)),
                Err(e) => Err(e),
            },
            Operator::Minus => match self.resolve_amount(agent, amount) {
                Ok(p) => {
                    let negate = match amount {
                        Amount::Everything => false,
                        _ => true,
                    };
                    Ok(singles_vec(agent, &p, negate, comment))
                },
                Err(e) => Err(e),
            },
            Operator::Transfer(patient) => match self.resolve_amount(agent, amount) {
                Ok(p) => Ok(transfers_vec(agent, patient.as_str(), &p, comment)),
                Err(e) => Err(e),
            },
            Operator::Trade(tr) => {
                let p1 = match self.resolve_amount(agent, amount) {
                    Ok(p) => p,
                    Err(e) => {
                        return Err(e);
                    },
                };
                let p2 = match self.resolve_amount(tr.patient(), tr.amount()) {
                    Ok(p) => p,
                    Err(e) => {
                        return Err(e);
                    },
                };
                let mut v = transfers_vec(agent, tr.patient(), &p1, comment);
                let mut w = transfers_vec(tr.patient(), agent, &p2, comment);
                let ghost a = v@;
                let ghost b = w@;
                v.append(&mut w);
                assert(atoms_view(v@) =~= atoms_view(a) + atoms_view(b));
                Ok(v)
            },
        }
    }

    /// Applies one change at `dt`.
    fn apply_atom(&mut self, dt: DateTime, a: &AtomicTransaction) -> (r: Result<(), LedgerError>)
        requires
            old(self).wf(),
        ensures
            final(self).wf(),
            outcome_matches(r, final(self)@, apply_atom(old(self)@, a@, dt)),
    {
        let amount = a.amount();
        let cur = a.currency();
        let bal = match self.entities.get(a.agent()) {
            Some(e) => e.balance(cur),
            None => {
                return Err(LedgerError::NoSuchEntity(a.agent().to_owned()));
            },
        };
        if amount > 0 && bal as u64 + amount as u64 > 0xffff_ffff {
            return Err(LedgerError::Overflow);
        }
        if amount == 0 {
            return Ok(());
        }
        let ghost i = key_index(self@.entries, a@.agent);
        let note = match self.entities.get_mut(a.agent()) {
            Some(ent) => {
                if amount > 0 {
                    ent.grant(cur, amount as u32);
                    None
                } else {
                    ent.revoke(cur, (-(amount as i64)) as u32)
                }
            },
            None => None,
        };
        let ghost notes_before = self.notes@;
        match note {
            Some(w) => {
                self.notes.push(w);
            },
            None => {},
        }
        let ghost hist_before = self.history@;
        self.history.push(DatedHistoryEntry::new(dt, HistoryEntry::Transaction(a.duplicate())));
        assert(history_view(self.history@) =~= history_view(hist_before).push(logged(a@, dt)));
        assert(strings_view(self.notes@) =~= apply_atom(old(self)@, a@, dt)->Ok_0.notes);
        Ok(())
    }

    /// Applies `trans` at `dt`, change by change.
    fn apply(&mut self, dt: DateTime, trans: &Transaction) -> (r: Result<(), LedgerError>)
        requires
            old(self).wf(),
        ensures
            final(self).wf(),
            outcome_matches(r, final(self)@, apply_txn(old(self)@, trans@, dt)),
    {
        if let Some(e) = self.unaddable(trans) {
            return Err(e);
        }
        let atoms = match self.expand_transaction(trans) {
            Ok(v) => v,
            Err(e) => {
                return Err(e);
            },
        };
        let ghost c0 = self@;
        let ghost s = atoms_view(atoms@);
        let mut k: usize = 0;
        assert(s.take(0) =~= Seq::empty());
        while k < atoms.len()
            invariant
                self.wf(),
                0 <= k <= atoms@.len(),
                s == atoms_view(atoms@),
                c0 == old(self)@,
                expand_spec(c0, trans@) == Ok::<Seq<AtomicView>, LedgerErrorView>(s),
                apply_atoms(c0, s.take(k as int), dt) == Ok::<ContextView, LedgerErrorView>(self@),
            decreases atoms@.len() - k,
        {
            assert(s.take(k + 1).drop_last() =~= s.take(k as int));
            match self.apply_atom(dt, &atoms[k]) {
                Ok(()) => {},
                Err(e) => {
                    proof {
                        lemma_atoms_refused(c0, s, k + 1, dt);
                    }
                    return Err(e);
                },
            }
            k = k + 1;
        }
        assert(s.take(k as int) =~= s);
        Ok(())
    }

    /// Applies `ts` at `dt`, one after another.
    fn apply_all(&mut self, dt: DateTime, ts: &Vec<Transaction>) -> (r: Result<(), LedgerError>)
        requires
            old(self).wf(),
        ensures
            final(self).wf(),
            outcome_matches(r, final(self)@, apply_txns(old(self)@, txns_view(ts@), dt)),
    {
        let ghost c0 = self@;
        let ghost s = txns_view(ts@);
        let mut k: usize = 0;
        assert(s.take(0) =~= Seq::empty());
        while k < ts.len()
            invariant
                self.wf(),
                0 <= k <= ts@.len(),
                s == txns_view(ts@),
                c0 == old(self)@,
                apply_txns(c0, s.take(k as int), dt) == Ok::<ContextView, LedgerErrorView>(self@),
            decreases ts@.len() - k,
        {
            assert(s.take(k + 1).drop_last() =~= s.take(k as int));
            match self.apply(dt, &ts[k]) {
                Ok(()) => {},
                Err(e) => {
                    proof {
                        lemma_txns_refused(c0, s, k + 1, dt);
                    }
                    return Err(e);
                },
            }
            k = k + 1;
        }
        assert(s.take(k as int) =~= s);
        Ok(())
    }
}

/// The flotation `f` written with four decimals, rounded to the nearest.
pub fn flotation_string(f: u128) -> (r: String)
    ensures
        r@ == flotation_text(f),
{
    let t: u128 = f / 100_000_000_000_000 + if f % 100_000_000_000_000 >= 50_000_000_000_000 {
        1
    } else {
        0
    };
    assert(t == (f + 50_000_000_000_000) / 100_000_000_000_000) by (nonlinear_arith)
        requires
            t == f / 100_000_000_000_000 + if f % 100_000_000_000_000 >= 50_000_000_000_000 {
                1int
            } else {
                0int
            },
    ;
    fixed4_text(t)
}

/// `f` ten-thousandths written with four decimals.
pub fn fixed4_text(f: u128) -> (r: String)
    ensures
        r@ == fixed4(f as nat),
{
    let mut v: Vec<char> = Vec::new();
    push_decimal_wide(&mut v, f / 10000);
    push_str(&mut v, ".");
    v.push(digit_of(((f / 1000) % 10) as u64));
    v.push(digit_of(((f / 100) % 10) as u64));
    v.push(digit_of(((f / 10) % 10) as u64));
    v.push(digit_of((f % 10) as u64));
    assert(v@ =~= fixed4(f as nat));
    string_of(v.as_slice())
}

/// `a` followed by `b` and `c`.
fn joined(a: &str, b: &str, c: &str) -> (r: String)
    ensures
        r@ == a@ + b@ + c@,
{
    let mut v: Vec<char> = Vec::new();
    push_str(&mut v, a);
    push_str(&mut v, b);
    push_str(&mut v, c);
    assert(v@ =~= a@ + b@ + c@);
    string_of(v.as_slice())
}

/// `a` followed by `b`.
fn concat(a: &str, b: &str) -> (r: String)
    ensures
        r@ == a@ + b@,
{
    let mut v: Vec<char> = Vec::new();
    push_str(&mut v, a);
    push_str(&mut v, b);
    assert(v@ =~= a@ + b@);
    string_of(v.as_slice())
}

/// `a` followed by `n` in decimal.
fn with_number(a: &str, n: u32) -> (r: String)
    ensures
        r@ == a@ + crate::text::decimal(n as nat),
{
    let mut v: Vec<char> = Vec::new();
    push_str(&mut v, a);
    push_decimal(&mut v, n as u64);
    assert(v@ =~= a@ + crate::text::decimal(n as nat));
    string_of(v.as_slice())
}

impl Context {
    /// Adds the event `msg` at `dt` to the history, where `record` holds.
    fn record_event(&mut self, dt: DateTime, record: bool, msg: String)
        ensures
            final(self)@ == with_event(old(self)@, dt, record, msg@),
            final(self).wf() == old(self).wf(),
    {
        if record {
            let ghost before = self.history@;
            self.history.push(DatedHistoryEntry::new(dt, HistoryEntry::Event(msg)));
            assert(history_view(self.history@) =~= history_view(before).push(
                DatedView { datetime: dt, entry: crate::model::history::HistoryEntryView::Event(msg@) },
            ));
        }
    }

    /// The economy nuke: every asset but coins is taken from every entity, then every
    /// active player gets one of each card; the entities are gone through sorted by
    /// lowercase identifier.
    pub fn nuke(&mut self) -> (r: Result<(), LedgerError>)
        requires
            old(self).wf(),
        ensures
            final(self).wf(),
            exists|o: Seq<crate::model::entity::EntityView>|
                sorted_order(o, old(self)@.entries) && outcome_matches(
                    r,
                    final(self)@,
                    nuke_spec(old(self)@, o),
                ),
    {
        let mut deletions: Vec<Transaction> = Vec::new();
        let mut grants: Vec<Transaction> = Vec::new();
        let ghost mut o: Seq<crate::model::entity::EntityView> = Seq::empty();
        {
            let sorted = self.entities.as_sorted_vec();
            proof {
                o = refs_view(sorted@);
            }
            let ghost assets = self@.assets;
            let mut k: usize = 0;
            assert(txns_view(deletions@) =~= nuke_deletions(o.take(0), assets));
            assert(txns_view(grants@) =~= nuke_grants(o.take(0), assets));
            while k < sorted.len()
                invariant
                    0 <= k <= sorted@.len(),
                    o == refs_view(sorted@),
                    assets == self@.assets,
                    txns_view(deletions@) == nuke_deletions(o.take(k as int), assets),
                    txns_view(grants@) == nuke_grants(o.take(k as int), assets),
                decreases sorted@.len() - k,
            {
                let e = sorted[k];
                let active = match e.kind() {
                    EntityKind::Player(p) => p.is_active,
                    _ => false,
                };
                assert(active == is_active_player(e@));
                let ghost dels0 = txns_view(deletions@);
                let ghost grants0 = txns_view(grants@);
                let mut i: usize = 0;
                assert(nuke_deletions_of(e@.identifier, assets.take(0)) =~= Seq::empty());
                assert(nuke_grants_of(e@.identifier, active, assets.take(0)) =~= Seq::empty());
                assert(dels0 + Seq::empty() =~= dels0);
                assert(grants0 + Seq::empty() =~= grants0);
                while i < self.assets.len()
                    invariant
                        0 <= i <= assets.len(),
                        assets == self@.assets,
                        txns_view(deletions@) == dels0 + nuke_deletions_of(
                            e@.identifier,
                            assets.take(i as int),
                        ),
                        txns_view(grants@) == grants0 + nuke_grants_of(
                            e@.identifier,
                            active,
                            assets.take(i as int),
                        ),
                    decreases assets.len() - i,
                {
                    let c = self.assets[i];
                    let ghost d0 = txns_view(deletions@);
                    let ghost g0 = txns_view(grants@);
                    assert(assets.take(i + 1).drop_last() =~= assets.take(i as int));
                    if c != Currency::Coin {
                        deletions.push(
                            Transaction::new(
                                e.identifier().clone(),
                                Amount::AllOf(c),
                                Operator::Minus,
                                "ECONOMY NUKE!".to_owned(),
                            ),
                        );
                        assert(txns_view(deletions@) =~= d0.push(
                            txn(e@.identifier, Amount::AllOf(c), crate::parser::token::OperatorView::Minus, nuke_comment()),
                        ));
                    } else {
                        assert(txns_view(deletions@) =~= d0);
                    }
                    if c.is_card() && active {
                        grants.push(
                            Transaction::new(
                                e.identifier().clone(),
                                Amount::PartOf(FullUnit::Bare(c), 1),
                                Operator::Plus,
                                "ECONOMY NUKE!".to_owned(),
                            ),
                        );
                        assert(txns_view(grants@) =~= g0.push(
                            txn(
                                e@.identifier,
                                Amount::PartOf(FullUnit::Bare(c), 1),
                                crate::parser::token::OperatorView::Plus,
                                nuke_comment(),
                            ),
                        ));
                    } else {
                        assert(txns_view(grants@) =~= g0);
                    }
                    assert(txns_view(deletions@) =~= dels0 + nuke_deletions_of(
                        e@.identifier,
                        assets.take(i + 1),
                    ));
                    assert(txns_view(grants@) =~= grants0 + nuke_grants_of(
                        e@.identifier,
                        active,
                        assets.take(i + 1),
                    ));
                    i = i + 1;
                }
                assert(assets.take(i as int) =~= assets);
                assert(o.take(k + 1).drop_last() =~= o.take(k as int));
                assert(o[k as int] == e@);
                k = k + 1;
            }
            assert(o.take(k as int) =~= o);
        }
        let ghost dv = txns_view(deletions@);
        let ghost gv = txns_view(grants@);
        deletions.append(&mut grants);
        assert(txns_view(deletions@) =~= dv + gv);
        let dt = self.datetime;
        let r = self.apply_all(dt, &deletions);
        assert(sorted_order(o, old(self)@.entries));
        r
    }
}

impl Context {
    /// Payday: ten boatloads of coins for every active player; every contract that
    /// donates loses half its coins and gets its donation level in boatloads of coins.
    /// The entities are gone through sorted by lowercase identifier.
    pub fn payday(&mut self) -> (r: Result<(), LedgerError>)
        requires
            old(self).wf(),
        ensures
            final(self).wf(),
            exists|o: Seq<crate::model::entity::EntityView>|
                sorted_order(o, old(self)@.entries) && outcome_matches(
                    r,
                    final(self)@,
                    payday_spec(old(self)@, o),
                ),
    {
        let mut ts: Vec<Transaction> = Vec::new();
        let ghost mut o: Seq<crate::model::entity::EntityView> = Seq::empty();
        {
            let sorted = self.entities.as_sorted_vec();
            proof {
                o = refs_view(sorted@);
            }
            let mut k: usize = 0;
            assert(txns_view(ts@) =~= payday_txns(o.take(0)));
            while k < sorted.len()
                invariant
                    0 <= k <= sorted@.len(),
                    o == refs_view(sorted@),
                    txns_view(ts@) == payday_txns(o.take(k as int)),
                decreases sorted@.len() - k,
            {
                let e = sorted[k];
                let ghost t0 = txns_view(ts@);
                match e.kind() {
                    EntityKind::Player(p) => {
                        if p.is_active {
                            ts.push(
                                Transaction::new(
                                    e.identifier().clone(),
                                    Amount::PartOf(FullUnit::Boatload(Currency::Coin), 10),
                                    Operator::Plus,
                                    "Payday".to_owned(),
                                ),
                            );
                        }
                    },
                    EntityKind::Contract(cp) => {
                        if cp.donation_level > 0 {
                            ts.push(
                                Transaction::new(
                                    e.identifier().clone(),
                                    Amount::PartOf(
                                        FullUnit::Bare(Currency::Coin),
                                        e.balance(Currency::Coin) / 2,
                                    ),
                                    Operator::Minus,
                                    "Payday: charity coin destruction".to_owned(),
                                ),
                            );
                            ts.push(
                                Transaction::new(
                                    e.identifier().clone(),
                                    Amount::PartOf(
                                        FullUnit::Boatload(Currency::Coin),
                                        cp.donation_level,
                                    ),
                                    Operator::Plus,
                                    with_number("Payday: donation level=", cp.donation_level),
                                ),
                            );
                        }
                    },
                    EntityKind::Other => {},
                }
                assert(txns_view(ts@) =~= t0 + payday_of(e@));
                assert(o.take(k + 1).drop_last() =~= o.take(k as int));
                assert(o[k as int] == e@);
                k = k + 1;
            }
            assert(o.take(k as int) =~= o);
        }
        let dt = self.datetime;
        let r = self.apply_all(dt, &ts);
        assert(sorted_order(o, old(self)@.entries));
        r
    }

    /// Deregisters `identifier`: what it held goes to the lost and found department, and
    /// the entity is removed.
    pub fn deregister(&mut self, identifier: &str) -> (r: Result<(), LedgerError>)
        requires
            old(self).wf(),
        ensures
            final(self).wf(),
            outcome_matches(r, final(self)@, deregister_spec(old(self)@, identifier@)),
    {
        let mut ts: Vec<Transaction> = Vec::new();
        {
            let e = match self.entities.get(identifier) {
                Some(e) => e,
                None => {
                    return Err(LedgerError::NoSuchEntity(identifier.to_owned()));
                },
            };
            let comment = concat("Indeterminate owner: was ", e.identifier().as_str());
            let ghost assets = self@.assets;
            let mut i: usize = 0;
            while i < self.assets.len()
                invariant
                    0 <= i <= assets.len(),
                    assets == self@.assets,
                    comment@ == "Indeterminate owner: was "@ + e@.identifier,
                    txns_view(ts@) == deregister_txns(assets.take(i as int), e@),
                decreases assets.len() - i,
            {
                let c = self.assets[i];
                let ghost t0 = txns_view(ts@);
                ts.push(
                    Transaction::new(
                        "L&F_Dept.".to_owned(),
                        Amount::PartOf(FullUnit::Bare(c), e.balance(c)),
                        Operator::Plus,
                        comment.clone(),
                    ),
                );
                let ghost t = txn(
                    lost_and_found(),
                    Amount::PartOf(FullUnit::Bare(c), e@.balance(c)),
                    crate::parser::token::OperatorView::Plus,
                    "Indeterminate owner: was "@ + e@.identifier,
                );
                assert(txns_view(ts@) =~= t0.push(t));
                assert(assets.take(i + 1) =~= assets.take(i as int).push(c));
                assert(deregister_txns(assets.take(i + 1), e@) =~= deregister_txns(
                    assets.take(i as int),
                    e@,
                ).push(t));
                i = i + 1;
            }
            assert(assets.take(i as int) =~= assets);
            assert(find_entity(old(self)@.entries, identifier@) == Some(e@));
        }
        let dt = self.datetime;
        match self.apply_all(dt, &ts) {
            Ok(()) => {},
            Err(e) => {
                return Err(e);
            },
        }
        let _ = self.entities.remove(identifier);
        Ok(())
    }

    /// Relevels with the total buoyancy `tb` (or, from the cutoff on, with the buoyancy
    /// target) and gives the new flotation, in units of `FLOTATION_ONE`.
    pub fn relevel(&mut self, tb: u32) -> (r: u128)
        ensures
            final(self)@ == relevel_state(old(self)@, tb),
            r == final(self)@.flotation,
            final(self).wf() == old(self).wf(),
    {
        let before = match self.relevel_cutoff {
            None => true,
            Some(d) => !d.le(&self.datetime),
        };
        if before {
            self.total_buoyancy = tb;
            self.flotation = (tb as u128) * 400_000_000_000_000;
        } else {
            self.total_buoyancy = self.buoyancy_target;
            self.flotation = ((self.buoyancy_target as u128 + 2499) / 2500) * FLOTATION_ONE;
        }
        self.flotation
    }
}

/// The position of the first `a` in `v`.
fn first_index(v: &Vec<Currency>, a: Currency) -> (r: Option<usize>)
    ensures
        match r {
            Some(i) => i < v@.len() && v@[i as int] == a && forall|j: int|
                0 <= j < i ==> v@[j] != a,
            None => forall|j: int| 0 <= j < v@.len() ==> v@[j] != a,
        },
{
    let mut i: usize = 0;
    while i < v.len()
        invariant
            0 <= i <= v@.len(),
            forall|j: int| 0 <= j < i ==> v@[j] != a,
        decreases v@.len() - i,
    {
        if v[i] == a {
            return Some(i);
        }
        i = i + 1;
    }
    None
}

impl Context {
    /// A relevel: the total buoyancy and flotation set, the message recorded.
    fn exec_relevel(&mut self, dt: DateTime, com: &Command, record: bool) -> (r: Result<(), LedgerError>)
        requires
            old(self).wf(),
            com is Relevel,
        ensures
            final(self).wf(),
            exec_rel(old(self)@, com@, dt, record, r, final(self)@),
    {
        match com {
            Command::Relevel(opt) => {
                let tb = match opt {
                    Some(t) => *t,
                    None => match self.entities.checked_currency_total(Currency::Coin) {
                        Some(t) => t,
                        None => {
                            return Err(LedgerError::Overflow);
                        },
                    },
                };
                let uf = self.relevel(tb);
                let mut m: Vec<char> = Vec::new();
                push_str(&mut m, "  RELEVELING: TB=");
                push_decimal(&mut m, self.total_buoyancy as u64);
                push_str(&mut m, ", UF=");
                let f = flotation_string(uf);
                push_str(&mut m, f.as_str());
                assert(m@ =~= relevel_message(self@));
                self.record_event(dt, record, string_of(m.as_slice()));
                Ok(())
            },
            _ => Ok(()),
        }
    }

    /// A renaming of a currency, in every holding and in the assets in use.
    fn exec_rename(&mut self, dt: DateTime, com: &Command, record: bool) -> (r: Result<(), LedgerError>)
        requires
            old(self).wf(),
            com is Rename,
        ensures
            final(self).wf(),
            exec_rel(old(self)@, com@, dt, record, r, final(self)@),
    {
        match com {
            Command::Rename(a, b) => {
                if !self.entities.rename_currency(*a, *b) {
                    return Err(LedgerError::Overflow);
                }
                let ghost before = self.assets@;
                match first_index(&self.assets, *a) {
                    Some(i) => {
                        self.assets.set(i, *b);
                        proof {
                            let j = choose|j: int|
                                0 <= j < before.len() && before[j] == *a && forall|k: int|
                                    0 <= k < j ==> before[k] != *a;
                            assert(before[i as int] == *a);
                            if j < i {
                                assert(before[j] != *a);
                            }
                            if j > i {
                                assert(before[i as int] != *a);
                            }
                            assert(j == i);
                        }
                    },
                    None => {},
                }
                assert(self@.assets == rename_first(before, *a, *b));
                Ok(())
            },
            _ => Ok(()),
        }
    }

    /// Carries out `com` at `dt`; `record` says whether its event enters the history.
    #[verifier::rlimit(30)]
    fn exec(&mut self, dt: DateTime, com: &Command, record: bool) -> (r: Result<(), LedgerError>)
        requires
            old(self).wf(),
        ensures
            final(self).wf(),
            exec_rel(old(self)@, com@, dt, record, r, final(self)@),
        decreases com,
    {
        match com {
            Command::Activate(name) => {
                match self.entities.get_mut(name.as_str()) {
                    Some(e) => {
                        e.activate();
                    },
                    None => {
                        return Err(LedgerError::NoSuchEntity(name.clone()));
                    },
                }
                self.record_event(dt, record, joined("  ", name.as_str(), " becomes active"));
                Ok(())
            },
            Command::BuoyancyTarget(bt) => {
                self.buoyancy_target = *bt;
                self.record_event(dt, record, with_number("  Buoyancy target set to ", *bt));
                Ok(())
            },
            Command::Deactivate(name) => {
                match self.entities.get_mut(name.as_str()) {
                    Some(e) => {
                        e.deactivate();
                    },
                    None => {
                        return Err(LedgerError::NoSuchEntity(name.clone()));
                    },
                }
                self.record_event(dt, record, joined("  ", name.as_str(), " becomes inactive"));
                Ok(())
            },
            Command::Deregister(id) => self.deregister(id.as_str()),
            Command::Message(m) => {
                self.record_event(dt, record, concat("  ", m.as_str()));
                Ok(())
            },
            Command::NewContract(id, full) => {
                if self.entities.get(id.as_str()).is_some() {
                    return Err(LedgerError::EntityExists(id.clone()));
                }
                proof {
                    self.entities.lemma_view_keys();
                }
                self.entities.insert(Entity::contract(id.clone(), full.clone()));
                self.record_event(dt, record, joined("  Contract ", id.as_str(), " created"));
                Ok(())
            },
            Command::NewPlayer(id, full) => {
                if self.entities.get(id.as_str()).is_some() {
                    return Err(LedgerError::EntityExists(id.clone()));
                }
                proof {
                    self.entities.lemma_view_keys();
                }
                self.entities.add_player(id.clone(), full.clone());
                Ok(())
            },
            Command::NoRecord(c) => self.exec(dt, &**c, false),
            Command::Nuke => self.nuke(),
            Command::Payday => self.payday(),
            Command::Relevel(_) => self.exec_relevel(dt, com, record),
            Command::Rename(_, _) => self.exec_rename(dt, com, record),
            Command::Report => {
                if self.forbes == 0 {
                    return Err(LedgerError::ForbesExhausted);
                }
                self.forbes = self.forbes - 1;
                self.record_event(dt, record, "  WEEKLY REPORT".to_owned());
                Ok(())
            },
            Command::Revision => {
                if self.forbes == 0 {
                    return Err(LedgerError::ForbesExhausted);
                }
                self.forbes = self.forbes - 1;
                self.record_event(dt, record, "  REPORT REVISION".to_owned());
                Ok(())
            },
            Command::Transaction(t) => self.apply(dt, t),
        }
    }

    /// Enters a dated line of a log. A line dated before the present is refused
    /// (`TimeTravel`); otherwise the present moves to the line's moment. A line after the
    /// last moment to enter is skipped and `false` comes back; any other line's command
    /// is carried out, with its event recorded, and `true` comes back.
    pub fn enter(&mut self, line: Line) -> (r: Result<bool, LedgerError>)
        requires
            old(self).wf(),
        ensures
            final(self).wf(),
            enter_rel(old(self)@, line@, r, final(self)@),
    {
        let dt = line.datetime();
        if !self.datetime.le(&dt) {
            return Err(LedgerError::TimeTravel);
        }
        self.datetime = dt;
        if !dt.le(&self.max_datetime) {
            return Ok(false);
        }
        let ghost c1 = self@;
        assert(c1 == ContextView { datetime: line@.datetime, ..old(self)@ });
        let r = self.exec(dt, line.action(), true);
        assert(exec_rel(c1, line@.action, line@.datetime, true, r, self@));
        match r {
            Ok(()) => {
                let ghost u: () = r->Ok_0;
                assert(u == ());
                assert(r == Ok::<(), LedgerError>(u));
                assert(enter_rel(old(self)@, line@, Ok::<bool, LedgerError>(true), self@));
                Ok(true)
            },
            Err(e) => {
                assert(enter_rel(old(self)@, line@, Err::<bool, LedgerError>(e), self@));
                Err(e)
            },
        }
    }
}

/// The number `d` in units of `FLOTATION_ONE`, where it is written in decimal digits and
/// fits in a `u128`.
fn units_of(d: &Decimal) -> (r: Option<u128>)
    ensures
        match decimal_units(d@.0, d@.1) {
            Some(n) => if n <= u128::MAX {
                r == Some(n as u128)
            } else {
                r is None
            },
            None => r is None,
        },
{
    let w = chars_of(d.whole.as_str());
    let f = chars_of(d.fraction.as_str());
    let mut i: usize = 0;
    while i < w.len()
        invariant
            0 <= i <= w@.len(),
            forall|j: int| 0 <= j < i ==> '0' <= #[trigger] w@[j] <= '9',
            w@ == d@.0,
            f@ == d@.1,
        decreases w@.len() - i,
    {
        if !('0' <= w[i] && w[i] <= '9') {
            assert(!all_digits(w@));
            return None;
        }
        i = i + 1;
    }
    let mut i: usize = 0;
    while i < f.len()
        invariant
            0 <= i <= f@.len(),
            forall|j: int| 0 <= j < i ==> '0' <= #[trigger] f@[j] <= '9',
            w@ == d@.0,
            f@ == d@.1,
        decreases f@.len() - i,
    {
        if !('0' <= f[i] && f[i] <= '9') {
            assert(!all_digits(f@));
            return None;
        }
        i = i + 1;
    }
    assert(all_digits(w@) && all_digits(f@));
    let ghost ds0 = w@ + eighteen_places(f@);
    let mut ds: Vec<char> = Vec::new();
    let mut i: usize = 0;
    while i < w.len()
        invariant
            0 <= i <= w@.len(),
            ds@ == w@.take(i as int),
            all_digits(w@),
            all_digits(f@),
            w@ == d@.0,
            f@ == d@.1,
        decreases w@.len() - i,
    {
        ds.push(w[i]);
        assert(w@.take(i + 1) =~= w@.take(i as int).push(w@[i as int]));
        i = i + 1;
    }
    assert(w@.take(i as int) =~= w@);
    let mut j: usize = 0;
    while j < 18
        invariant
            0 <= j <= 18,
            ds@ == w@ + eighteen_places(f@).take(j as int),
            all_digits(w@),
            all_digits(f@),
            w@ == d@.0,
            f@ == d@.1,
        decreases 18 - j,
    {
        let c = if j < f.len() {
            f[j]
        } else {
            '0'
        };
        assert(eighteen_places(f@)[j as int] == c);
        ds.push(c);
        assert(eighteen_places(f@).take(j + 1) =~= eighteen_places(f@).take(j as int).push(c));
        j = j + 1;
    }
    assert(eighteen_places(f@).take(18) =~= eighteen_places(f@));
    assert(ds@ == ds0);
    assert(all_digits(ds0));
    let mut acc: u128 = 0;
    let mut k: usize = 0;
    assert(ds@.take(0) =~= Seq::<char>::empty());
    while k < ds.len()
        invariant
            0 <= k <= ds@.len(),
            ds@ == ds0,
            ds0 == w@ + eighteen_places(f@),
            all_digits(ds0),
            acc == digits_value(ds@.take(k as int)),
            all_digits(w@),
            all_digits(f@),
            w@ == d@.0,
            f@ == d@.1,
        decreases ds@.len() - k,
    {
        let c = ds[k];
        assert(ds@.take(k + 1).drop_last() =~= ds@.take(k as int));
        assert('0' <= c <= '9');
        let dg = ((c as u32) - ('0' as u32)) as u128;
        assert(ds@.take(k + 1).last() == c);
        assert(digits_value(ds0.take(k + 1)) == acc * 10 + dg);
        let next = match acc.checked_mul(10) {
            Some(x) => x.checked_add(dg),
            None => None,
        };
        match next {
            Some(x) => {
                acc = x;
            },
            None => {
                proof {
                    lemma_digits_prefix(ds0, k + 1);
                }
                return None;
            },
        }
        k = k + 1;
    }
    assert(ds@.take(k as int) =~= ds@);
    Some(acc)
}

impl Context {
    /// Applies a line of the state file.
    pub fn process(&mut self, dir: &Directive) -> (r: Result<(), LedgerError>)
        requires
            old(self).wf(),
        ensures
            final(self).wf(),
            outcome_matches(r, final(self)@, process_spec(old(self)@, dir@)),
    {
        match dir {
            Directive::Assets(v) => {
                let mut a: Vec<Currency> = Vec::new();
                let mut i: usize = 0;
                while i < v.len()
                    invariant
                        0 <= i <= v@.len(),
                        a@ == v@.take(i as int),
                    decreases v@.len() - i,
                {
                    a.push(v[i]);
                    assert(a@ =~= v@.take(i + 1));
                    i = i + 1;
                }
                assert(a@ =~= v@);
                self.assets = a;
                Ok(())
            },
            Directive::Date(d) => {
                self.datetime = d.at_midnight();
                Ok(())
            },
            Directive::Entity(e) => {
                if self.entities.get(e.identifier().as_str()).is_some() {
                    return Err(LedgerError::EntityExists(e.identifier().clone()));
                }
                proof {
                    self.entities.lemma_view_keys();
                }
                self.entities.insert(e.duplicate());
                Ok(())
            },
            Directive::Flotation(f) => match units_of(f) {
                Some(n) => {
                    self.flotation = n;
                    Ok(())
                },
                None => Err(LedgerError::BadFlotation),
            },
            Directive::Forbes(i) => {
                self.forbes = *i;
                Ok(())
            },
        }
    }

    /// The entity with identifier `identifier`, which must exist.
    pub fn entity(&self, identifier: &str) -> (r: &Entity)
        requires
            self.wf(),
            has_key(self@.entries, identifier@),
        ensures
            r@ == self@.entries[key_index(self@.entries, identifier@)].1,
    {
        self.entities.get(identifier).unwrap()
    }

    /// The entity with identifier `identifier`, which must exist, to change.
    pub fn entity_mut(&mut self, identifier: &str) -> (r: &mut Entity)
        requires
            old(self).wf(),
            has_key(old(self)@.entries, identifier@),
        ensures
            (*r)@ == old(self)@.entries[key_index(old(self)@.entries, identifier@)].1,
            final(self).wf(),
            final(self)@ == (ContextView {
                entries: old(self)@.entries.update(
                    key_index(old(self)@.entries, identifier@),
                    (identifier@, final(r)@),
                ),
                ..old(self)@
            }),
    {
        self.entities.get_mut(identifier).unwrap()
    }

    /// `other` comes no earlier than the ledger's present moment.
    pub fn verify_datetime(&self, other: DateTime) -> (r: bool)
        ensures
            r == dt_le(self@.datetime, other),
    {
        self.datetime.le(&other)
    }

    /// `other` comes no later than the last moment the ledger enters.
    pub fn verify_max_datetime(&self, other: DateTime) -> (r: bool)
        ensures
            r == dt_le(other, self@.max_datetime),
    {
        other.le(&self.max_datetime)
    }

    /// The notes gathered so far, which are cleared.
    pub fn take_notes(&mut self) -> (r: Vec<String>)
        ensures
            strings_view(r@) == old(self)@.notes,
            final(self)@ == (ContextView { notes: Seq::empty(), ..old(self)@ }),
            final(self).wf() == old(self).wf(),
    {
        let mut out: Vec<String> = Vec::new();
        std::mem::swap(&mut out, &mut self.notes);
        assert(strings_view(self.notes@) =~= Seq::<Seq<char>>::empty());
        out
    }

    /// Adds an entity, whose identifier no entity may have yet.
    pub fn insert_entity(&mut self, ent: Entity) -> (r: Result<(), LedgerError>)
        requires
            old(self).wf(),
        ensures
            final(self).wf(),
            outcome_matches(r, final(self)@, process_spec(old(self)@, DirectiveView::Entity(ent@))),
    {
        if self.entities.get(ent.identifier().as_str()).is_some() {
            return Err(LedgerError::EntityExists(ent.identifier().clone()));
        }
        proof {
            self.entities.lemma_view_keys();
        }
        self.entities.insert(ent);
        Ok(())
    }

    /// Adds an active player, whose identifier no entity may have yet.
    pub fn add_player(&mut self, identifier: String, full_name: String) -> (r: Result<
        (),
        LedgerError,
    >)
        requires
            old(self).wf(),
        ensures
            final(self).wf(),
            outcome_matches(
                r,
                final(self)@,
                process_spec(old(self)@, DirectiveView::Entity(new_player(identifier@, full_name@))),
            ),
    {
        self.insert_entity(Entity::player(identifier, full_name))
    }

    /// All entities, sorted by lowercase identifier.
    pub fn entities_vec_sorted(&self) -> (r: Vec<&Entity>)
        requires
            self.wf(),
        ensures
            sorted_order(refs_view(r@), self@.entries),
    {
        self.entities.as_sorted_vec()
    }

    pub fn assets(&self) -> (r: &Vec<Currency>)
        ensures
            r@ == self@.assets,
    {
        &self.assets
    }

    /// The number of units a boatload is worth, in units of `FLOTATION_ONE`.
    pub fn flotation(&self) -> (r: u128)
        ensures
            r == self@.flotation,
    {
        self.flotation
    }

    pub fn buoyancy_target(&self) -> (r: u32)
        ensures
            r == self@.buoyancy_target,
    {
        self.buoyancy_target
    }

    pub fn total_buoyancy(&self) -> (r: u32)
        ensures
            r == self@.total_buoyancy,
    {
        self.total_buoyancy
    }

    pub fn max_datetime(&self) -> (r: DateTime)
        ensures
            r == self@.max_datetime,
    {
        self.max_datetime
    }

    pub fn datetime(&self) -> (r: DateTime)
        ensures
            r == self@.datetime,
    {
        self.datetime
    }

    pub fn entities(&self) -> (r: &Entities)
        ensures
            r.entries() == self@.entries,
            r.wf() == self.wf(),
    {
        &self.entities
    }

    /// The number of reports still to come.
    pub fn forbes(&self) -> (r: u32)
        ensures
            r == self@.forbes,
    {
        self.forbes
    }

    pub fn history(&self) -> (r: &Vec<DatedHistoryEntry>)
        ensures
            history_view(r@) == self@.history,
    {
        &self.history
    }
}

} // verus!
