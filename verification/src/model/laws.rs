//! What holds of the ledger across its operations.

use vstd::prelude::*;

use crate::clock::{dt_le, lemma_dt_le_refl, DateTime};
use crate::model::amount::Amount;
use crate::model::entities::{
    entries_total, has_key, key_index, keys_distinct, lemma_key_index, lemma_total_remove,
    lemma_total_update, EntriesView,
};
use crate::model::entity::EntityView;
use crate::model::unit::{Currency, FullUnit};
use crate::model::ledger::{
    apply_atom, apply_atoms, apply_txn, apply_txns, enter_rel, exec_plain, exec_rel, expand_spec,
    deregister_spec, deregister_txns, lost_and_found, nuke_deletions, nuke_deletions_of,
    nuke_grants, nuke_grants_of, nuke_spec, outcome_matches, txn,
    payday_spec, payday_txns, relevel_outcome, resolve, transfers, with_event, ContextView,
    LedgerError,
};
use crate::parser::command::CommandView;
use crate::parser::line::LineView;
use crate::parser::token::OperatorView;
use crate::parser::transaction::{
    law_transfer_conserves, lemma_net_append, net, transfer_atoms, AtomicView, TransactionView,
};

verus! {

// ---------------------------------------------------------------------------
// Transfers conserve
// ---------------------------------------------------------------------------

/// What an amount resolves to is never negative.
pub proof fn lemma_resolve_nonneg(c: ContextView, holder: Seq<char>, a: Amount)
    ensures
        resolve(c, holder, a) matches Ok(p) ==> forall|i: int|
            0 <= i < p.len() ==> #[trigger] p[i].0 >= 0,
{
}

pub proof fn lemma_transfers_net_zero(
    agent: Seq<char>,
    patient: Seq<char>,
    pairs: Seq<(i32, Currency)>,
    comment: Seq<char>,
    cur: Currency,
)
    requires
        forall|i: int| 0 <= i < pairs.len() ==> #[trigger] pairs[i].0 >= 0,
    ensures
        net(transfers(agent, patient, pairs, comment), cur) == 0,
    decreases pairs.len(),
{
    if pairs.len() > 0 {
        let init = pairs.drop_last();
        assert forall|i: int| 0 <= i < init.len() implies #[trigger] init[i].0 >= 0 by {
            assert(init[i] == pairs[i]);
        }
        lemma_transfers_net_zero(agent, patient, init, comment, cur);
        assert(pairs[pairs.len() - 1].0 >= 0);
        law_transfer_conserves(agent, patient, pairs.last().0, pairs.last().1, comment, cur);
        lemma_net_append(
            transfers(agent, patient, init, comment),
            transfer_atoms(agent, patient, pairs.last().0, pairs.last().1, comment),
            cur,
        );
    }
}

/// A transfer or a trade creates and destroys nothing: the changes it comes to add up to
/// zero in every currency.
pub proof fn law_expand_transfer_conserves(
    c: ContextView,
    t: TransactionView,
    cur: Currency,
)
    requires
        t.operator is Transfer || t.operator is Trade,
        expand_spec(c, t) is Ok,
    ensures
        net(expand_spec(c, t)->Ok_0, cur) == 0,
{
    lemma_resolve_nonneg(c, t.agent, t.amount);
    match t.operator {
        OperatorView::Transfer(patient) => {
            let p = resolve(c, t.agent, t.amount)->Ok_0;
            lemma_transfers_net_zero(t.agent, patient, p, t.comment, cur);
        },
        OperatorView::Trade(tr) => {
            lemma_resolve_nonneg(c, tr.patient, tr.amount);
            let p1 = resolve(c, t.agent, t.amount)->Ok_0;
            let p2 = resolve(c, tr.patient, tr.amount)->Ok_0;
            lemma_transfers_net_zero(t.agent, tr.patient, p1, t.comment, cur);
            lemma_transfers_net_zero(tr.patient, t.agent, p2, t.comment, cur);
            lemma_net_append(
                transfers(t.agent, tr.patient, p1, t.comment),
                transfers(tr.patient, t.agent, p2, t.comment),
                cur,
            );
        },
        _ => {},
    }
}

// ---------------------------------------------------------------------------
// What every operation keeps
// ---------------------------------------------------------------------------

/// `a` is a prefix of `b`.
pub open spec fn prefix_of<T>(a: Seq<T>, b: Seq<T>) -> bool {
    a.len() <= b.len() && b.take(a.len() as int) == a
}

/// `c2` follows from `c`: the history and the notes only grew, and the clock settings
/// stayed.
pub open spec fn extends(c: ContextView, c2: ContextView) -> bool {
    &&& prefix_of(c.history, c2.history)
    &&& prefix_of(c.notes, c2.notes)
    &&& c2.datetime == c.datetime
    &&& c2.max_datetime == c.max_datetime
    &&& c2.relevel_cutoff == c.relevel_cutoff
}

pub proof fn lemma_extends_refl(c: ContextView)
    ensures
        extends(c, c),
{
    assert(c.history.take(c.history.len() as int) =~= c.history);
    assert(c.notes.take(c.notes.len() as int) =~= c.notes);
}

pub proof fn lemma_extends_trans(a: ContextView, b: ContextView, c: ContextView)
    requires
        extends(a, b),
        extends(b, c),
    ensures
        extends(a, c),
{
    assert(c.history.take(a.history.len() as int) =~= b.history.take(a.history.len() as int));
    assert(c.notes.take(a.notes.len() as int) =~= b.notes.take(a.notes.len() as int));
}

pub proof fn lemma_push_extends<T>(s: Seq<T>, x: T)
    ensures
        prefix_of(s, s.push(x)),
{
    assert(s.push(x).take(s.len() as int) =~= s);
}

pub proof fn lemma_apply_atom_extends(c: ContextView, a: AtomicView, dt: DateTime)
    ensures
        apply_atom(c, a, dt) matches Ok(c2) ==> extends(c, c2),
{
    lemma_extends_refl(c);
    let h = c.history.push(crate::model::ledger::logged(a, dt));
    lemma_push_extends(c.history, crate::model::ledger::logged(a, dt));
    if has_key(c.entries, a.agent) && a.amount < 0 {
        let e = c.entries[key_index(c.entries, a.agent)].1;
        let n = -(a.amount as int);
        lemma_push_extends(
            c.notes,
            crate::model::entity::below_zero_warning(
                e.full_name,
                e.balance(a.currency),
                n as u32,
                a.currency,
            ),
        );
    }
}

pub proof fn lemma_apply_atoms_extends(c: ContextView, s: Seq<AtomicView>, dt: DateTime)
    ensures
        apply_atoms(c, s, dt) matches Ok(c2) ==> extends(c, c2),
    decreases s.len(),
{
    lemma_extends_refl(c);
    if s.len() > 0 {
        lemma_apply_atoms_extends(c, s.drop_last(), dt);
        if let Ok(c1) = apply_atoms(c, s.drop_last(), dt) {
            lemma_apply_atom_extends(c1, s.last(), dt);
            if let Ok(c2) = apply_atom(c1, s.last(), dt) {
                lemma_extends_trans(c, c1, c2);
            }
        }
    }
}

pub proof fn lemma_apply_txns_extends(c: ContextView, s: Seq<TransactionView>, dt: DateTime)
    ensures
        apply_txns(c, s, dt) matches Ok(c2) ==> extends(c, c2),
    decreases s.len(),
{
    lemma_extends_refl(c);
    if s.len() > 0 {
        lemma_apply_txns_extends(c, s.drop_last(), dt);
        if let Ok(c1) = apply_txns(c, s.drop_last(), dt) {
            if let Ok(atoms) = expand_spec(c1, s.last()) {
                lemma_apply_atoms_extends(c1, atoms, dt);
                if let Ok(c2) = apply_atoms(c1, atoms, dt) {
                    lemma_extends_trans(c, c1, c2);
                }
            }
        }
    }
}

pub proof fn lemma_with_event_extends(c: ContextView, dt: DateTime, record: bool, msg: Seq<char>)
    ensures
        extends(c, with_event(c, dt, record, msg)),
{
    lemma_extends_refl(c);
    lemma_push_extends(
        c.history,
        crate::model::history::DatedView {
            datetime: dt,
            entry: crate::model::history::HistoryEntryView::Event(msg),
        },
    );
}

pub proof fn lemma_exec_plain_extends(c: ContextView, cmd: CommandView, dt: DateTime, record: bool)
    ensures
        exec_plain(c, cmd, dt, record) matches Ok(c2) ==> extends(c, c2),
{
    lemma_extends_refl(c);
    match cmd {
        CommandView::Deregister(id) => {
            if let Some(e) = crate::model::ledger::find_entity(c.entries, id) {
                lemma_apply_txns_extends(c, crate::model::ledger::deregister_txns(c.assets, e), c.datetime);
            }
        },
        CommandView::Transaction(t) => {
            if let Ok(atoms) = expand_spec(c, t) {
                lemma_apply_atoms_extends(c, atoms, dt);
            }
        },
        CommandView::Relevel(_) => {
            assert forall|tb: u32| #[trigger] relevel_outcome(c, tb, dt, record) is Ok implies extends(
                c,
                relevel_outcome(c, tb, dt, record)->Ok_0,
            ) by {
                let c1 = crate::model::ledger::relevel_state(c, tb);
                lemma_extends_refl(c1);
                lemma_with_event_extends(c1, dt, record, crate::model::ledger::relevel_message(c1));
                lemma_extends_trans(c, c1, with_event(c1, dt, record, crate::model::ledger::relevel_message(c1)));
            }
        },
        _ => {
            assert forall|c1: ContextView, msg: Seq<char>| #![trigger with_event(c1, dt, record, msg)]
                extends(c, c1) implies extends(c, with_event(c1, dt, record, msg)) by {
                lemma_with_event_extends(c1, dt, record, msg);
                lemma_extends_trans(c, c1, with_event(c1, dt, record, msg));
            }
        },
    }
}

/// Every command leaves the clock settings as they were and only adds to the history
/// and the notes.
pub proof fn lemma_exec_extends(
    c: ContextView,
    cmd: CommandView,
    dt: DateTime,
    record: bool,
    r: Result<(), LedgerError>,
    after: ContextView,
)
    requires
        exec_rel(c, cmd, dt, record, r, after),
        r is Ok,
    ensures
        extends(c, after),
    decreases cmd,
{
    match cmd {
        CommandView::Nuke => {
            let o = choose|o: Seq<EntityView>|
                crate::model::ledger::sorted_order(o, c.entries) && outcome_matches(
                    r,
                    after,
                    nuke_spec(c, o),
                );
            lemma_apply_txns_extends(
                c,
                crate::model::ledger::nuke_deletions(o, c.assets) + crate::model::ledger::nuke_grants(
                    o,
                    c.assets,
                ),
                c.datetime,
            );
        },
        CommandView::Payday => {
            let o = choose|o: Seq<EntityView>|
                crate::model::ledger::sorted_order(o, c.entries) && outcome_matches(
                    r,
                    after,
                    payday_spec(c, o),
                );
            lemma_apply_txns_extends(c, crate::model::ledger::payday_txns(o), c.datetime);
        },
        CommandView::NoRecord(inner) => {
            lemma_exec_extends(c, *inner, dt, false, r, after);
        },
        _ => {
            lemma_exec_plain_extends(c, cmd, dt, record);
        },
    }
}

/// A line that the ledger takes never moves it back in time, moves its present to the
/// line's moment, and takes nothing out of its history: what was recorded before stays,
/// in its place.
pub proof fn law_enter_keeps_history(
    c: ContextView,
    l: LineView,
    r: Result<bool, LedgerError>,
    after: ContextView,
)
    requires
        enter_rel(c, l, r, after),
        r is Ok,
    ensures
        dt_le(c.datetime, after.datetime),
        after.datetime == l.datetime,
        prefix_of(c.history, after.history),
{
    lemma_dt_le_refl(c.datetime);
    lemma_extends_refl(c);
    if dt_le(c.datetime, l.datetime) {
        let c1 = ContextView { datetime: l.datetime, ..c };
        lemma_extends_refl(c1);
        if dt_le(l.datetime, c.max_datetime) {
            if let Ok(_) = r {
                lemma_exec_extends(c1, l.action, l.datetime, true, Ok(()), after);
            }
        }
    }
}

// ---------------------------------------------------------------------------
// Totals
// ---------------------------------------------------------------------------

pub proof fn lemma_apply_atom_total(
    c: ContextView,
    a: AtomicView,
    dt: DateTime,
    cur: Currency,
)
    requires
        apply_atom(c, a, dt) is Ok,
        apply_atom(c, a, dt)->Ok_0.notes.len() == c.notes.len(),
    ensures
        entries_total(apply_atom(c, a, dt)->Ok_0.entries, cur) == entries_total(c.entries, cur)
            + if a.currency == cur {
            a.amount as int
        } else {
            0
        },
{
    let c2 = apply_atom(c, a, dt)->Ok_0;
    if a.amount != 0 {
        let i = key_index(c.entries, a.agent);
        assert(0 <= i < c.entries.len() && c.entries[i].0 == a.agent);
        lemma_total_update(c.entries, i, c2.entries[i], cur);
        assert(c2.entries =~= c.entries.update(i, c2.entries[i]));
    }
}

pub proof fn lemma_apply_atoms_total(
    c: ContextView,
    s: Seq<AtomicView>,
    dt: DateTime,
    cur: Currency,
)
    requires
        apply_atoms(c, s, dt) is Ok,
        apply_atoms(c, s, dt)->Ok_0.notes.len() == c.notes.len(),
    ensures
        entries_total(apply_atoms(c, s, dt)->Ok_0.entries, cur) == entries_total(c.entries, cur)
            + net(s, cur),
    decreases s.len(),
{
    if s.len() > 0 {
        let c1 = apply_atoms(c, s.drop_last(), dt)->Ok_0;
        lemma_apply_atoms_extends(c, s.drop_last(), dt);
        lemma_apply_atom_extends(c1, s.last(), dt);
        lemma_apply_atoms_total(c, s.drop_last(), dt, cur);
        lemma_apply_atom_total(c1, s.last(), dt, cur);
    }
}

/// A transfer or a trade that the ledger carries out without a warning changes no
/// currency's total over all entities: assets only change hands.
pub proof fn law_transfer_keeps_totals(
    c: ContextView,
    t: TransactionView,
    dt: DateTime,
    cur: Currency,
)
    requires
        t.operator is Transfer || t.operator is Trade,
        apply_txn(c, t, dt) is Ok,
        apply_txn(c, t, dt)->Ok_0.notes.len() == c.notes.len(),
    ensures
        entries_total(apply_txn(c, t, dt)->Ok_0.entries, cur) == entries_total(c.entries, cur),
{
    law_expand_transfer_conserves(c, t, cur);
    lemma_apply_atoms_total(c, expand_spec(c, t)->Ok_0, dt, cur);
}

/// A report or a revision counts the reports still to come down by one; at zero it is
/// refused.
pub proof fn law_report_counts_down(
    c: ContextView,
    cmd: CommandView,
    dt: DateTime,
    record: bool,
    r: Result<(), LedgerError>,
    after: ContextView,
)
    requires
        cmd is Report || cmd is Revision,
        exec_rel(c, cmd, dt, record, r, after),
    ensures
        c.forbes == 0 ==> r is Err,
        r is Ok ==> after.forbes == c.forbes - 1,
{
}

// ---------------------------------------------------------------------------
// Nuke and payday keep to their currencies
// ---------------------------------------------------------------------------

/// `b` has the entries of `a`, under the same identifiers in the same places, with the
/// same balances of `cur`.
pub open spec fn same_in(a: EntriesView, b: EntriesView, cur: Currency) -> bool {
    &&& a.len() == b.len()
    &&& forall|i: int|
        0 <= i < a.len() ==> #[trigger] b[i].0 == a[i].0 && b[i].1.balance(cur) == a[i].1.balance(
            cur,
        )
}

pub proof fn lemma_same_in_trans(a: EntriesView, b: EntriesView, c: EntriesView, cur: Currency)
    requires
        same_in(a, b, cur),
        same_in(b, c, cur),
    ensures
        same_in(a, c, cur),
{
    assert forall|i: int| 0 <= i < a.len() implies #[trigger] c[i].0 == a[i].0 && c[i].1.balance(
        cur,
    ) == a[i].1.balance(cur) by {
        assert(b[i].0 == a[i].0);
        assert(c[i].0 == b[i].0);
    }
}

pub proof fn lemma_apply_atom_avoids(c: ContextView, a: AtomicView, dt: DateTime, cur: Currency)
    requires
        a.currency != cur,
        apply_atom(c, a, dt) is Ok,
    ensures
        same_in(c.entries, apply_atom(c, a, dt)->Ok_0.entries, cur),
{
    let c2 = apply_atom(c, a, dt)->Ok_0;
    if a.amount != 0 {
        let i = key_index(c.entries, a.agent);
        assert(0 <= i < c.entries.len() && c.entries[i].0 == a.agent);
        assert forall|j: int| 0 <= j < c.entries.len() implies #[trigger] c2.entries[j].0
            == c.entries[j].0 && c2.entries[j].1.balance(cur) == c.entries[j].1.balance(cur) by {
            if j == i {
                assert(c2.entries[j].1.inventory.contains_key(cur) == c.entries[j].1.inventory.contains_key(cur));
            }
        }
    }
}

/// Every change of `s` is in a currency other than `cur`.
pub open spec fn atoms_avoid(s: Seq<AtomicView>, cur: Currency) -> bool {
    forall|i: int| 0 <= i < s.len() ==> #[trigger] s[i].currency != cur
}

pub proof fn lemma_apply_atoms_avoid(c: ContextView, s: Seq<AtomicView>, dt: DateTime, cur: Currency)
    requires
        atoms_avoid(s, cur),
        apply_atoms(c, s, dt) is Ok,
    ensures
        same_in(c.entries, apply_atoms(c, s, dt)->Ok_0.entries, cur),
    decreases s.len(),
{
    if s.len() == 0 {
        assert(same_in(c.entries, c.entries, cur));
    } else {
        let init = s.drop_last();
        assert(atoms_avoid(init, cur)) by {
            assert forall|i: int| 0 <= i < init.len() implies #[trigger] init[i].currency != cur by {
                assert(init[i] == s[i]);
            }
        }
        lemma_apply_atoms_avoid(c, init, dt, cur);
        let c1 = apply_atoms(c, init, dt)->Ok_0;
        assert(s[s.len() - 1].currency != cur);
        lemma_apply_atom_avoids(c1, s.last(), dt, cur);
        lemma_same_in_trans(c.entries, c1.entries, apply_atoms(c, s, dt)->Ok_0.entries, cur);
    }
}

/// A transaction that adds or removes a number of units, or the whole balance, of one
/// currency other than `cur`.
pub open spec fn single_avoiding(t: TransactionView, cur: Currency) -> bool {
    &&& (t.operator is Plus || t.operator is Minus)
    &&& match t.amount {
        Amount::Everything => false,
        Amount::AllOf(x) => x != cur,
        Amount::PartOf(u, _) => u.currency_spec() != cur,
    }
}

pub proof fn lemma_expand_single_avoids(c: ContextView, t: TransactionView, cur: Currency)
    requires
        single_avoiding(t, cur),
        expand_spec(c, t) is Ok,
    ensures
        atoms_avoid(expand_spec(c, t)->Ok_0, cur),
{
}

pub open spec fn txns_avoid(ts: Seq<TransactionView>, cur: Currency) -> bool {
    forall|i: int| 0 <= i < ts.len() ==> #[trigger] single_avoiding(ts[i], cur)
}

pub proof fn lemma_apply_txns_avoid(c: ContextView, ts: Seq<TransactionView>, dt: DateTime, cur: Currency)
    requires
        txns_avoid(ts, cur),
        apply_txns(c, ts, dt) is Ok,
    ensures
        same_in(c.entries, apply_txns(c, ts, dt)->Ok_0.entries, cur),
    decreases ts.len(),
{
    if ts.len() == 0 {
        assert(same_in(c.entries, c.entries, cur));
    } else {
        let init = ts.drop_last();
        assert(txns_avoid(init, cur)) by {
            assert forall|i: int| 0 <= i < init.len() implies #[trigger] single_avoiding(init[i], cur) by {
                assert(init[i] == ts[i]);
            }
        }
        lemma_apply_txns_avoid(c, init, dt, cur);
        let c1 = apply_txns(c, init, dt)->Ok_0;
        let t = ts.last();
        assert(single_avoiding(ts[ts.len() - 1], cur));
        lemma_expand_single_avoids(c1, t, cur);
        lemma_apply_atoms_avoid(c1, expand_spec(c1, t)->Ok_0, dt, cur);
        lemma_same_in_trans(c.entries, c1.entries, apply_txns(c, ts, dt)->Ok_0.entries, cur);
    }
}

pub proof fn lemma_txns_avoid_append(a: Seq<TransactionView>, b: Seq<TransactionView>, cur: Currency)
    requires
        txns_avoid(a, cur),
        txns_avoid(b, cur),
    ensures
        txns_avoid(a + b, cur),
{
    assert forall|i: int| 0 <= i < (a + b).len() implies #[trigger] single_avoiding((a + b)[i], cur) by {
        if i < a.len() {
            assert((a + b)[i] == a[i]);
        } else {
            assert((a + b)[i] == b[i - a.len()]);
        }
    }
}

pub proof fn lemma_nuke_txns_avoid_coins(o: Seq<EntityView>, assets: Seq<Currency>)
    ensures
        txns_avoid(nuke_deletions(o, assets) + nuke_grants(o, assets), Currency::Coin),
    decreases o.len(),
{
    lemma_nuke_deletions_avoid(o, assets);
    lemma_nuke_grants_avoid(o, assets);
    lemma_txns_avoid_append(nuke_deletions(o, assets), nuke_grants(o, assets), Currency::Coin);
}

pub proof fn lemma_nuke_deletions_avoid(o: Seq<EntityView>, assets: Seq<Currency>)
    ensures
        txns_avoid(nuke_deletions(o, assets), Currency::Coin),
    decreases o.len(),
{
    if o.len() > 0 {
        lemma_nuke_deletions_avoid(o.drop_last(), assets);
        lemma_nuke_deletions_of_avoid(o.last().identifier, assets);
        lemma_txns_avoid_append(
            nuke_deletions(o.drop_last(), assets),
            nuke_deletions_of(o.last().identifier, assets),
            Currency::Coin,
        );
    }
}

pub proof fn lemma_nuke_deletions_of_avoid(id: Seq<char>, assets: Seq<Currency>)
    ensures
        txns_avoid(nuke_deletions_of(id, assets), Currency::Coin),
    decreases assets.len(),
{
    if assets.len() > 0 {
        lemma_nuke_deletions_of_avoid(id, assets.drop_last());
        let tail = if assets.last() != Currency::Coin {
            seq![
                crate::model::ledger::txn(
                    id,
                    Amount::AllOf(assets.last()),
                    OperatorView::Minus,
                    crate::model::ledger::nuke_comment(),
                ),
            ]
        } else {
            Seq::empty()
        };
        assert(txns_avoid(tail, Currency::Coin));
        lemma_txns_avoid_append(nuke_deletions_of(id, assets.drop_last()), tail, Currency::Coin);
    }
}

pub proof fn lemma_nuke_grants_avoid(o: Seq<EntityView>, assets: Seq<Currency>)
    ensures
        txns_avoid(nuke_grants(o, assets), Currency::Coin),
    decreases o.len(),
{
    if o.len() > 0 {
        lemma_nuke_grants_avoid(o.drop_last(), assets);
        let active = crate::model::ledger::is_active_player(o.last());
        lemma_nuke_grants_of_avoid(o.last().identifier, active, assets);
        lemma_txns_avoid_append(
            nuke_grants(o.drop_last(), assets),
            nuke_grants_of(o.last().identifier, active, assets),
            Currency::Coin,
        );
    }
}

pub proof fn lemma_nuke_grants_of_avoid(id: Seq<char>, active: bool, assets: Seq<Currency>)
    ensures
        txns_avoid(nuke_grants_of(id, active, assets), Currency::Coin),
    decreases assets.len(),
{
    if assets.len() > 0 {
        lemma_nuke_grants_of_avoid(id, active, assets.drop_last());
        let tail = if crate::model::unit::is_card_spec(assets.last()) && active {
            seq![
                crate::model::ledger::txn(
                    id,
                    Amount::PartOf(crate::model::unit::FullUnit::Bare(assets.last()), 1),
                    OperatorView::Plus,
                    crate::model::ledger::nuke_comment(),
                ),
            ]
        } else {
            Seq::empty()
        };
        assert(txns_avoid(tail, Currency::Coin));
        lemma_txns_avoid_append(nuke_grants_of(id, active, assets.drop_last()), tail, Currency::Coin);
    }
}

/// The economy nuke never touches coins: every entity stays, in its place, with the coins
/// it held.
pub proof fn law_nuke_keeps_coins(c: ContextView, o: Seq<EntityView>)
    requires
        nuke_spec(c, o) is Ok,
    ensures
        same_in(c.entries, nuke_spec(c, o)->Ok_0.entries, Currency::Coin),
{
    lemma_nuke_txns_avoid_coins(o, c.assets);
    lemma_apply_txns_avoid(
        c,
        nuke_deletions(o, c.assets) + nuke_grants(o, c.assets),
        c.datetime,
        Currency::Coin,
    );
}

pub proof fn lemma_payday_txns_avoid(o: Seq<EntityView>, cur: Currency)
    requires
        cur != Currency::Coin,
    ensures
        txns_avoid(payday_txns(o), cur),
    decreases o.len(),
{
    if o.len() > 0 {
        lemma_payday_txns_avoid(o.drop_last(), cur);
        let p = crate::model::ledger::payday_of(o.last());
        assert(txns_avoid(p, cur));
        lemma_txns_avoid_append(payday_txns(o.drop_last()), p, cur);
    }
}

/// Payday moves nothing but coins: every entity stays, in its place, with what it held of
/// every other currency.
pub proof fn law_payday_only_coins(c: ContextView, o: Seq<EntityView>, cur: Currency)
    requires
        cur != Currency::Coin,
        payday_spec(c, o) is Ok,
    ensures
        same_in(c.entries, payday_spec(c, o)->Ok_0.entries, cur),
{
    lemma_payday_txns_avoid(o, cur);
    lemma_apply_txns_avoid(c, payday_txns(o), c.datetime, cur);
}

// ---------------------------------------------------------------------------
// Deregistration loses nothing
// ---------------------------------------------------------------------------

/// `b` has the entries of `a`, under the same identifiers in the same places, with the
/// same balances of `cur` but for the entries under `k`.
pub open spec fn same_except(a: EntriesView, b: EntriesView, k: Seq<char>, cur: Currency) -> bool {
    &&& a.len() == b.len()
    &&& forall|i: int| 0 <= i < a.len() ==> #[trigger] b[i].0 == a[i].0
    &&& forall|i: int|
        0 <= i < a.len() && a[i].0 != k ==> #[trigger] b[i].1.balance(cur) == a[i].1.balance(cur)
}

/// How many times `cur` stands in `s`.
pub open spec fn count_in(s: Seq<Currency>, cur: Currency) -> nat
    decreases s.len(),
{
    if s.len() == 0 {
        0
    } else {
        count_in(s.drop_last(), cur) + if s.last() == cur {
            1nat
        } else {
            0nat
        }
    }
}

pub proof fn lemma_same_except_trans(
    a: EntriesView,
    b: EntriesView,
    c: EntriesView,
    k: Seq<char>,
    cur: Currency,
)
    requires
        same_except(a, b, k, cur),
        same_except(b, c, k, cur),
    ensures
        same_except(a, c, k, cur),
{
    assert forall|i: int| 0 <= i < a.len() implies #[trigger] c[i].0 == a[i].0 by {
        assert(b[i].0 == a[i].0);
        assert(c[i].0 == b[i].0);
    }
    assert forall|i: int| 0 <= i < a.len() && a[i].0 != k implies #[trigger] c[i].1.balance(cur)
        == a[i].1.balance(cur) by {
        assert(b[i].0 == a[i].0);
        assert(b[i].1.balance(cur) == a[i].1.balance(cur));
    }
}

/// Creating `n` units of `a` for `k` adds `n` to the total of `a` and changes no other
/// entity.
pub proof fn lemma_grant_txn(
    c: ContextView,
    k: Seq<char>,
    a: Currency,
    n: u32,
    comment: Seq<char>,
    dt: DateTime,
    cur: Currency,
)
    requires
        apply_txn(
            c,
            txn(k, Amount::PartOf(FullUnit::Bare(a), n), OperatorView::Plus, comment),
            dt,
        ) is Ok,
    ensures
        entries_total(
            apply_txn(
                c,
                txn(k, Amount::PartOf(FullUnit::Bare(a), n), OperatorView::Plus, comment),
                dt,
            )->Ok_0.entries,
            cur,
        ) == entries_total(c.entries, cur) + if a == cur {
            n as int
        } else {
            0
        },
        same_except(
            c.entries,
            apply_txn(
                c,
                txn(k, Amount::PartOf(FullUnit::Bare(a), n), OperatorView::Plus, comment),
                dt,
            )->Ok_0.entries,
            k,
            cur,
        ),
{
    let t = txn(k, Amount::PartOf(FullUnit::Bare(a), n), OperatorView::Plus, comment);
    let atoms = expand_spec(c, t)->Ok_0;
    let atom = AtomicView { agent: k, amount: n as i32, currency: a, comment };
    assert(atoms =~= seq![atom]);
    assert(atoms.drop_last() =~= Seq::<AtomicView>::empty());
    assert(apply_atoms(c, atoms.drop_last(), dt) == Ok::<ContextView, crate::model::ledger::LedgerErrorView>(c));
    assert(atoms.last() == atom);
    assert(apply_atoms(c, atoms, dt) == apply_atom(c, atom, dt));
    assert(apply_txn(c, t, dt) == apply_atom(c, atom, dt));
    let c2 = apply_atom(c, atom, dt)->Ok_0;
    if n > 0 {
        let i = key_index(c.entries, k);
        assert(0 <= i < c.entries.len() && c.entries[i].0 == k);
        lemma_total_update(c.entries, i, c2.entries[i], cur);
        assert(c2.entries =~= c.entries.update(i, c2.entries[i]));
    }
}

pub proof fn lemma_deregister_txns(
    c: ContextView,
    assets: Seq<Currency>,
    e: EntityView,
    dt: DateTime,
    cur: Currency,
)
    requires
        apply_txns(c, deregister_txns(assets, e), dt) is Ok,
    ensures
        entries_total(apply_txns(c, deregister_txns(assets, e), dt)->Ok_0.entries, cur)
            == entries_total(c.entries, cur) + count_in(assets, cur) * e.balance(cur),
        same_except(
            c.entries,
            apply_txns(c, deregister_txns(assets, e), dt)->Ok_0.entries,
            lost_and_found(),
            cur,
        ),
    decreases assets.len(),
{
    let ts = deregister_txns(assets, e);
    if assets.len() == 0 {
        assert(ts =~= Seq::<TransactionView>::empty());
    } else {
        let init = assets.drop_last();
        assert(ts.drop_last() =~= deregister_txns(init, e));
        lemma_deregister_txns(c, init, e, dt, cur);
        let c1 = apply_txns(c, deregister_txns(init, e), dt)->Ok_0;
        let a = assets.last();
        assert(ts.last() == txn(
            lost_and_found(),
            Amount::PartOf(FullUnit::Bare(a), e.balance(a)),
            OperatorView::Plus,
            "Indeterminate owner: was "@ + e.identifier,
        ));
        lemma_grant_txn(
            c1,
            lost_and_found(),
            a,
            e.balance(a),
            "Indeterminate owner: was "@ + e.identifier,
            dt,
            cur,
        );
        lemma_same_except_trans(
            c.entries,
            c1.entries,
            apply_txns(c, ts, dt)->Ok_0.entries,
            lost_and_found(),
            cur,
        );
        assert(count_in(assets, cur) * e.balance(cur) == count_in(init, cur) * e.balance(cur) + if a
            == cur {
            e.balance(cur) as int
        } else {
            0
        }) by (nonlinear_arith)
            requires
                count_in(assets, cur) == count_in(init, cur) + if a == cur {
                    1nat
                } else {
                    0nat
                },
        ;
    }
}

/// Deregistering an entity other than the lost and found department, where each asset is
/// listed once, loses nothing: what it held goes to the department, and every total
/// stays.
pub proof fn law_deregister_keeps_totals(c: ContextView, id: Seq<char>, cur: Currency)
    requires
        keys_distinct(c.entries),
        id != lost_and_found(),
        count_in(c.assets, cur) == 1,
        deregister_spec(c, id) is Ok,
    ensures
        entries_total(deregister_spec(c, id)->Ok_0.entries, cur) == entries_total(c.entries, cur),
{
    let i = key_index(c.entries, id);
    assert(0 <= i < c.entries.len() && c.entries[i].0 == id);
    let e = c.entries[i].1;
    lemma_deregister_txns(c, c.assets, e, c.datetime, cur);
    let c1 = apply_txns(c, deregister_txns(c.assets, e), c.datetime)->Ok_0;
    assert(c1.entries[i].0 == id);
    assert(keys_distinct(c1.entries)) by {
        assert forall|x: int, y: int| 0 <= x < y < c1.entries.len() implies c1.entries[x].0
            != c1.entries[y].0 by {
            assert(c1.entries[x].0 == c.entries[x].0);
            assert(c1.entries[y].0 == c.entries[y].0);
        }
    }
    lemma_key_index(c1.entries, i);
    assert(c1.entries[i].1.balance(cur) == e.balance(cur));
    lemma_total_remove(c1.entries, i, cur);
}

} // verus!
