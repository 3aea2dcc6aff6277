//! What the ledger's commands do to single entities, stated over all inputs.

use vstd::prelude::*;

use crate::clock::DateTime;
use crate::model::amount::Amount;
use crate::model::entities::{
    entity_views, has_key, ids_match, key_index, keys_distinct, lemma_key_index, EntriesView,
};
use crate::model::entity::{EntityKind, EntityView};
use crate::model::ledger::{
    apply_atom, apply_atoms, apply_txn, apply_txns, expand_spec, is_active_player, nuke_comment,
    boatload_units, nuke_deletions, nuke_deletions_of, nuke_grants, nuke_grants_of, nuke_spec,
    payday_of, payday_spec, payday_txns, saturate, sorted_order, txn, ContextView,
};
use crate::model::laws::{
    count_in, lemma_apply_txns_avoid, lemma_txns_avoid_append, same_in, single_avoiding,
    txns_avoid,
};
use crate::model::unit::{is_card_spec, Currency, FullUnit};
use crate::parser::token::OperatorView;
use crate::parser::transaction::{AtomicView, TransactionView};

verus! {

// ---------------------------------------------------------------------------
// Transactions one after another
// ---------------------------------------------------------------------------

/// Applying `a` then `b` is applying `a + b`.
pub proof fn lemma_apply_txns_append(
    c: ContextView,
    a: Seq<TransactionView>,
    b: Seq<TransactionView>,
    dt: DateTime,
)
    ensures
        apply_txns(c, a + b, dt) == match apply_txns(c, a, dt) {
            Ok(c1) => apply_txns(c1, b, dt),
            Err(e) => Err(e),
        },
    decreases b.len(),
{
    if b.len() == 0 {
        assert(a + b =~= a);
    } else {
        assert((a + b).drop_last() =~= a + b.drop_last());
        assert((a + b).last() == b.last());
        lemma_apply_txns_append(c, a, b.drop_last(), dt);
    }
}

// ---------------------------------------------------------------------------
// Removals never raise a balance
// ---------------------------------------------------------------------------

/// `b` has the entries of `a` under the same identifiers in the same places, none with
/// more of any currency.
pub open spec fn no_more(a: EntriesView, b: EntriesView) -> bool {
    &&& a.len() == b.len()
    &&& forall|i: int| 0 <= i < a.len() ==> #[trigger] b[i].0 == a[i].0
    &&& forall|i: int, cur: crate::model::unit::Currency|
        0 <= i < a.len() ==> #[trigger] b[i].1.balance(cur) <= a[i].1.balance(cur)
}

proof fn lemma_no_more_trans(a: EntriesView, b: EntriesView, c: EntriesView)
    requires
        no_more(a, b),
        no_more(b, c),
    ensures
        no_more(a, c),
{
    assert forall|i: int, cur: crate::model::unit::Currency| 0 <= i < a.len() implies #[trigger] c[i].1.balance(
        cur,
    ) <= a[i].1.balance(cur) by {
        assert(c[i].1.balance(cur) <= b[i].1.balance(cur));
        assert(b[i].1.balance(cur) <= a[i].1.balance(cur));
    }
}

proof fn lemma_apply_atom_no_more(c: ContextView, a: AtomicView, dt: DateTime)
    requires
        a.amount <= 0,
        apply_atom(c, a, dt) is Ok,
    ensures
        no_more(c.entries, apply_atom(c, a, dt)->Ok_0.entries),
{
    let c2 = apply_atom(c, a, dt)->Ok_0;
    if a.amount < 0 {
        let i = key_index(c.entries, a.agent);
        assert(0 <= i < c.entries.len() && c.entries[i].0 == a.agent);
        assert forall|j: int, cur: crate::model::unit::Currency| 0 <= j < c.entries.len() implies #[trigger] c2.entries[j].1.balance(
            cur,
        ) <= c.entries[j].1.balance(cur) by {
            if j == i {
                if cur == a.currency {
                } else {
                    assert(c2.entries[j].1.inventory.contains_key(cur)
                        == c.entries[j].1.inventory.contains_key(cur));
                }
            }
        }
    }
}

/// Every change of `s` takes away.
pub open spec fn all_takings(s: Seq<AtomicView>) -> bool {
    forall|i: int| 0 <= i < s.len() ==> #[trigger] s[i].amount <= 0
}

proof fn lemma_apply_atoms_no_more(c: ContextView, s: Seq<AtomicView>, dt: DateTime)
    requires
        all_takings(s),
        apply_atoms(c, s, dt) is Ok,
    ensures
        no_more(c.entries, apply_atoms(c, s, dt)->Ok_0.entries),
    decreases s.len(),
{
    if s.len() == 0 {
    } else {
        let init = s.drop_last();
        assert(all_takings(init)) by {
            assert forall|i: int| 0 <= i < init.len() implies #[trigger] init[i].amount <= 0 by {
                assert(init[i] == s[i]);
            }
        }
        lemma_apply_atoms_no_more(c, init, dt);
        let c1 = apply_atoms(c, init, dt)->Ok_0;
        assert(s[s.len() - 1].amount <= 0);
        lemma_apply_atom_no_more(c1, s.last(), dt);
        lemma_no_more_trans(c.entries, c1.entries, apply_atoms(c, s, dt)->Ok_0.entries);
    }
}

/// A transaction that takes the whole balance of one currency from its agent.
pub open spec fn takes_all(t: TransactionView) -> bool {
    t.operator is Minus && t.amount is AllOf
}

/// Every transaction of `ts` takes a whole balance.
pub open spec fn all_take_all(ts: Seq<TransactionView>) -> bool {
    forall|i: int| 0 <= i < ts.len() ==> #[trigger] takes_all(ts[i])
}

proof fn lemma_apply_txns_no_more(c: ContextView, ts: Seq<TransactionView>, dt: DateTime)
    requires
        all_take_all(ts),
        apply_txns(c, ts, dt) is Ok,
    ensures
        no_more(c.entries, apply_txns(c, ts, dt)->Ok_0.entries),
    decreases ts.len(),
{
    if ts.len() == 0 {
    } else {
        let init = ts.drop_last();
        assert(all_take_all(init)) by {
            assert forall|i: int| 0 <= i < init.len() implies #[trigger] takes_all(init[i]) by {
                assert(init[i] == ts[i]);
            }
        }
        lemma_apply_txns_no_more(c, init, dt);
        let c1 = apply_txns(c, init, dt)->Ok_0;
        let t = ts.last();
        assert(takes_all(ts[ts.len() - 1]));
        let s = expand_spec(c1, t)->Ok_0;
        assert(all_takings(s));
        lemma_apply_atoms_no_more(c1, s, dt);
        lemma_no_more_trans(c.entries, c1.entries, apply_txns(c, ts, dt)->Ok_0.entries);
    }
}


/// Taking all of `cur` from the agent under key `k` leaves it none of `cur`.
proof fn lemma_take_all_empties(c: ContextView, k: Seq<char>, cur: Currency, cm: Seq<char>, dt: DateTime, i: int)
    requires
        keys_distinct(c.entries),
        0 <= i < c.entries.len(),
        c.entries[i].0 == k,
        apply_txn(c, txn(k, Amount::AllOf(cur), OperatorView::Minus, cm), dt) is Ok,
    ensures
        apply_txn(c, txn(k, Amount::AllOf(cur), OperatorView::Minus, cm), dt)->Ok_0.entries[i].1.balance(
            cur,
        ) == 0,
{
    lemma_key_index(c.entries, i);
    let t = txn(k, Amount::AllOf(cur), OperatorView::Minus, cm);
    let s = expand_spec(c, t)->Ok_0;
    let e = c.entries[i].1;
    assert(s.len() == 1);
    assert(s[0].agent == k && s[0].currency == cur && s[0].amount == -(e.balance(cur) as int));
    assert(s.drop_last() =~= Seq::<AtomicView>::empty());
    assert(apply_atoms(c, s.drop_last(), dt) == Ok::<ContextView, crate::model::ledger::LedgerErrorView>(c));
}

proof fn lemma_deletions_of_take_all(k: Seq<char>, assets: Seq<Currency>)
    ensures
        all_take_all(nuke_deletions_of(k, assets)),
    decreases assets.len(),
{
    if assets.len() > 0 {
        lemma_deletions_of_take_all(k, assets.drop_last());
        let a = nuke_deletions_of(k, assets.drop_last());
        let d = nuke_deletions_of(k, assets);
        assert forall|j: int| 0 <= j < d.len() implies #[trigger] takes_all(d[j]) by {
            if j < a.len() {
                assert(d[j] == a[j]);
            }
        }
    }
}

proof fn lemma_deletions_take_all(o: Seq<EntityView>, assets: Seq<Currency>)
    ensures
        all_take_all(nuke_deletions(o, assets)),
    decreases o.len(),
{
    if o.len() > 0 {
        lemma_deletions_take_all(o.drop_last(), assets);
        lemma_deletions_of_take_all(o.last().identifier, assets);
        let a = nuke_deletions(o.drop_last(), assets);
        let b = nuke_deletions_of(o.last().identifier, assets);
        let d = nuke_deletions(o, assets);
        assert forall|j: int| 0 <= j < d.len() implies #[trigger] takes_all(d[j]) by {
            if j < a.len() {
                assert(d[j] == a[j]);
            } else {
                assert(d[j] == b[j - a.len()]);
            }
        }
    }
}

/// After the deletions of the assets `assets` from `k`, `k` holds none of any of them
/// but coins.
proof fn lemma_deletions_of_empty(
    c: ContextView,
    k: Seq<char>,
    assets: Seq<Currency>,
    dt: DateTime,
    i: int,
    cur: Currency,
)
    requires
        keys_distinct(c.entries),
        0 <= i < c.entries.len(),
        c.entries[i].0 == k,
        assets.contains(cur),
        cur != Currency::Coin,
        apply_txns(c, nuke_deletions_of(k, assets), dt) is Ok,
    ensures
        apply_txns(c, nuke_deletions_of(k, assets), dt)->Ok_0.entries[i].1.balance(cur) == 0,
    decreases assets.len(),
{
    let init = assets.drop_last();
    let a = nuke_deletions_of(k, init);
    let tail = if assets.last() != Currency::Coin {
        seq![txn(k, Amount::AllOf(assets.last()), OperatorView::Minus, nuke_comment())]
    } else {
        Seq::<TransactionView>::empty()
    };
    assert(nuke_deletions_of(k, assets) == a + tail);
    lemma_apply_txns_append(c, a, tail, dt);
    let c1 = apply_txns(c, a, dt)->Ok_0;
    lemma_deletions_of_take_all(k, init);
    lemma_apply_txns_no_more(c, a, dt);
    assert(keys_distinct(c1.entries)) by {
        assert forall|x: int, y: int| 0 <= x < y < c1.entries.len() implies c1.entries[x].0
            != c1.entries[y].0 by {
            assert(c1.entries[x].0 == c.entries[x].0);
            assert(c1.entries[y].0 == c.entries[y].0);
        }
    }
    if assets.last() == cur {
        assert(c1.entries[i].0 == k);
        assert(tail.drop_last() =~= Seq::<TransactionView>::empty());
        assert(tail.last() == txn(k, Amount::AllOf(cur), OperatorView::Minus, nuke_comment()));
        assert(apply_txns(c1, tail.drop_last(), dt) == Ok::<ContextView, crate::model::ledger::LedgerErrorView>(c1));
        assert(apply_txns(c1, tail, dt) == apply_txn(c1, tail.last(), dt));
        lemma_take_all_empties(c1, k, cur, nuke_comment(), dt, i);
    } else {
        assert(init.contains(cur)) by {
            let j = choose|j: int| 0 <= j < assets.len() && assets[j] == cur;
            assert(j != assets.len() - 1);
            assert(init[j] == cur);
        }
        lemma_deletions_of_empty(c, k, init, dt, i, cur);
        assert(all_take_all(tail));
        lemma_apply_txns_no_more(c1, tail, dt);
        let c2 = apply_txns(c1, tail, dt)->Ok_0;
        assert(c2.entries[i].1.balance(cur) <= c1.entries[i].1.balance(cur));
    }
}


/// After the deletions of a nuke over `o`, an entry whose identifier some entity of `o`
/// has holds none of any listed asset but coins.
proof fn lemma_deletions_empty(
    c: ContextView,
    o: Seq<EntityView>,
    assets: Seq<Currency>,
    dt: DateTime,
    i: int,
    cur: Currency,
)
    requires
        keys_distinct(c.entries),
        0 <= i < c.entries.len(),
        exists|j: int| 0 <= j < o.len() && #[trigger] o[j].identifier == c.entries[i].0,
        assets.contains(cur),
        cur != Currency::Coin,
        apply_txns(c, nuke_deletions(o, assets), dt) is Ok,
    ensures
        apply_txns(c, nuke_deletions(o, assets), dt)->Ok_0.entries[i].1.balance(cur) == 0,
    decreases o.len(),
{
    let init = o.drop_last();
    let a = nuke_deletions(init, assets);
    let b = nuke_deletions_of(o.last().identifier, assets);
    lemma_apply_txns_append(c, a, b, dt);
    let c1 = apply_txns(c, a, dt)->Ok_0;
    lemma_deletions_take_all(init, assets);
    lemma_apply_txns_no_more(c, a, dt);
    assert(keys_distinct(c1.entries)) by {
        assert forall|x: int, y: int| 0 <= x < y < c1.entries.len() implies c1.entries[x].0
            != c1.entries[y].0 by {
            assert(c1.entries[x].0 == c.entries[x].0);
            assert(c1.entries[y].0 == c.entries[y].0);
        }
    }
    let j = choose|j: int| 0 <= j < o.len() && #[trigger] o[j].identifier == c.entries[i].0;
    if j == o.len() - 1 {
        assert(c1.entries[i].0 == o.last().identifier);
        lemma_deletions_of_empty(c1, o.last().identifier, assets, dt, i, cur);
    } else {
        assert(init[j].identifier == c.entries[i].0);
        lemma_deletions_empty(c, init, assets, dt, i, cur);
        lemma_deletions_of_take_all(o.last().identifier, assets);
        lemma_apply_txns_no_more(c1, b, dt);
        let c2 = apply_txns(c1, b, dt)->Ok_0;
        assert(c2.entries[i].1.balance(cur) <= c1.entries[i].1.balance(cur));
    }
}

proof fn lemma_grants_of_avoid(id: Seq<char>, active: bool, assets: Seq<Currency>, cur: Currency)
    requires
        !is_card_spec(cur),
    ensures
        txns_avoid(nuke_grants_of(id, active, assets), cur),
    decreases assets.len(),
{
    if assets.len() > 0 {
        lemma_grants_of_avoid(id, active, assets.drop_last(), cur);
        let tail = if is_card_spec(assets.last()) && active {
            seq![
                txn(
                    id,
                    Amount::PartOf(FullUnit::Bare(assets.last()), 1),
                    OperatorView::Plus,
                    nuke_comment(),
                ),
            ]
        } else {
            Seq::empty()
        };
        assert(txns_avoid(tail, cur));
        lemma_txns_avoid_append(nuke_grants_of(id, active, assets.drop_last()), tail, cur);
    }
}

proof fn lemma_grants_avoid(o: Seq<EntityView>, assets: Seq<Currency>, cur: Currency)
    requires
        !is_card_spec(cur),
    ensures
        txns_avoid(nuke_grants(o, assets), cur),
    decreases o.len(),
{
    if o.len() > 0 {
        lemma_grants_avoid(o.drop_last(), assets, cur);
        let active = is_active_player(o.last());
        lemma_grants_of_avoid(o.last().identifier, active, assets, cur);
        lemma_txns_avoid_append(
            nuke_grants(o.drop_last(), assets),
            nuke_grants_of(o.last().identifier, active, assets),
            cur,
        );
    }
}

/// The cards: the win, justice, legislative and vote cards.
pub open spec fn card(c: Currency) -> bool {
    c == Currency::WinCard || c == Currency::JusticeCard || c == Currency::LegiCard || c
        == Currency::VoteCard
}

/// The economy nuke takes away every listed asset but coins and cards: after it, every
/// entity holds none of them. (`o` is the order in which the nuke goes through the
/// entities: all of them, each standing under its own identifier.)
#[verifier::rlimit(50)]
pub proof fn law_nuke_clears_other_assets(c: ContextView, o: Seq<EntityView>, i: int, cur: Currency)
    requires
        keys_distinct(c.entries),
        ids_match(c.entries),
        sorted_order(o, c.entries),
        nuke_spec(c, o) is Ok,
        0 <= i < c.entries.len(),
        c.assets.contains(cur),
        cur != Currency::Coin,
        !card(cur),
    ensures
        nuke_spec(c, o)->Ok_0.entries[i].1.balance(cur) == 0,
{
    broadcast use vstd::seq_lib::group_to_multiset_ensures;

    let d = nuke_deletions(o, c.assets);
    let g = nuke_grants(o, c.assets);
    lemma_apply_txns_append(c, d, g, c.datetime);
    let v = entity_views(c.entries);
    assert(v[i] == c.entries[i].1);
    assert(v.to_multiset().contains(v[i]));
    assert(o.to_multiset().contains(v[i]));
    assert(o.contains(v[i]));
    let j = choose|j: int| 0 <= j < o.len() && o[j] == v[i];
    assert(o[j].identifier == c.entries[i].0);
    lemma_deletions_empty(c, o, c.assets, c.datetime, i, cur);
    let c1 = apply_txns(c, d, c.datetime)->Ok_0;
    lemma_deletions_take_all(o, c.assets);
    lemma_apply_txns_no_more(c, d, c.datetime);
    lemma_grants_avoid(o, c.assets, cur);
    lemma_apply_txns_avoid(c1, g, c.datetime, cur);
    assert(nuke_spec(c, o) == apply_txns(c1, g, c.datetime));
    let c2 = apply_txns(c1, g, c.datetime)->Ok_0;
    assert(same_in(c1.entries, c2.entries, cur));
    assert(c2.entries[i].0 == c1.entries[i].0);
    assert(c2.entries[i].1.balance(cur) == c1.entries[i].1.balance(cur));
}


// ---------------------------------------------------------------------------
// Changes to one entity leave the others alone
// ---------------------------------------------------------------------------

/// `b` has the entries of `a` under the same identifiers in the same places, and the
/// entity under `k` as it was.
pub open spec fn same_at(a: EntriesView, b: EntriesView, k: Seq<char>) -> bool {
    &&& a.len() == b.len()
    &&& forall|i: int| 0 <= i < a.len() ==> #[trigger] b[i].0 == a[i].0
    &&& forall|i: int| 0 <= i < a.len() && a[i].0 == k ==> #[trigger] b[i].1 == a[i].1
}

proof fn lemma_same_at_trans(a: EntriesView, b: EntriesView, c: EntriesView, k: Seq<char>)
    requires
        same_at(a, b, k),
        same_at(b, c, k),
    ensures
        same_at(a, c, k),
{
    assert forall|i: int| 0 <= i < a.len() && a[i].0 == k implies #[trigger] c[i].1 == a[i].1 by {
        assert(b[i].0 == a[i].0);
        assert(b[i].1 == a[i].1);
        assert(c[i].1 == b[i].1);
    }
}

proof fn lemma_apply_atom_elsewhere(c: ContextView, a: AtomicView, dt: DateTime, k: Seq<char>)
    requires
        a.agent != k,
        apply_atom(c, a, dt) is Ok,
    ensures
        same_at(c.entries, apply_atom(c, a, dt)->Ok_0.entries, k),
{
    if a.amount != 0 {
        let i = key_index(c.entries, a.agent);
        assert(0 <= i < c.entries.len() && c.entries[i].0 == a.agent);
    }
}

/// Every change of `s` is to an entity other than the one under `k`.
pub open spec fn atoms_elsewhere(s: Seq<AtomicView>, k: Seq<char>) -> bool {
    forall|i: int| 0 <= i < s.len() ==> #[trigger] s[i].agent != k
}

proof fn lemma_apply_atoms_elsewhere(c: ContextView, s: Seq<AtomicView>, dt: DateTime, k: Seq<char>)
    requires
        atoms_elsewhere(s, k),
        apply_atoms(c, s, dt) is Ok,
    ensures
        same_at(c.entries, apply_atoms(c, s, dt)->Ok_0.entries, k),
    decreases s.len(),
{
    if s.len() > 0 {
        let init = s.drop_last();
        assert(atoms_elsewhere(init, k)) by {
            assert forall|i: int| 0 <= i < init.len() implies #[trigger] init[i].agent != k by {
                assert(init[i] == s[i]);
            }
        }
        lemma_apply_atoms_elsewhere(c, init, dt, k);
        let c1 = apply_atoms(c, init, dt)->Ok_0;
        assert(s[s.len() - 1].agent != k);
        lemma_apply_atom_elsewhere(c1, s.last(), dt, k);
        lemma_same_at_trans(c.entries, c1.entries, apply_atoms(c, s, dt)->Ok_0.entries, k);
    }
}

/// A transaction that adds to or takes from its own agent, which is not the entity under
/// `k`.
pub open spec fn single_elsewhere(t: TransactionView, k: Seq<char>) -> bool {
    (t.operator is Plus || t.operator is Minus) && t.agent != k
}

pub open spec fn txns_elsewhere(ts: Seq<TransactionView>, k: Seq<char>) -> bool {
    forall|i: int| 0 <= i < ts.len() ==> #[trigger] single_elsewhere(ts[i], k)
}

proof fn lemma_apply_txns_elsewhere(c: ContextView, ts: Seq<TransactionView>, dt: DateTime, k: Seq<char>)
    requires
        txns_elsewhere(ts, k),
        apply_txns(c, ts, dt) is Ok,
    ensures
        same_at(c.entries, apply_txns(c, ts, dt)->Ok_0.entries, k),
    decreases ts.len(),
{
    if ts.len() > 0 {
        let init = ts.drop_last();
        assert(txns_elsewhere(init, k)) by {
            assert forall|i: int| 0 <= i < init.len() implies #[trigger] single_elsewhere(init[i], k) by {
                assert(init[i] == ts[i]);
            }
        }
        lemma_apply_txns_elsewhere(c, init, dt, k);
        let c1 = apply_txns(c, init, dt)->Ok_0;
        let t = ts.last();
        assert(single_elsewhere(ts[ts.len() - 1], k));
        let s = expand_spec(c1, t)->Ok_0;
        assert(atoms_elsewhere(s, k));
        lemma_apply_atoms_elsewhere(c1, s, dt, k);
        lemma_same_at_trans(c.entries, c1.entries, apply_txns(c, ts, dt)->Ok_0.entries, k);
    }
}

proof fn lemma_txns_elsewhere_append(a: Seq<TransactionView>, b: Seq<TransactionView>, k: Seq<char>)
    requires
        txns_elsewhere(a, k),
        txns_elsewhere(b, k),
    ensures
        txns_elsewhere(a + b, k),
{
    assert forall|i: int| 0 <= i < (a + b).len() implies #[trigger] single_elsewhere((a + b)[i], k) by {
        if i < a.len() {
            assert((a + b)[i] == a[i]);
        } else {
            assert((a + b)[i] == b[i - a.len()]);
        }
    }
}

// ---------------------------------------------------------------------------
// Payday
// ---------------------------------------------------------------------------

/// An entity that payday pays or charges: an active player, or a contract whose donation
/// level is above zero.
pub open spec fn paid_on_payday(e: EntityView) -> bool {
    ||| e.kind matches EntityKind::Player(p) && p.is_active
    ||| e.kind matches EntityKind::Contract(cp) && cp.donation_level > 0
}

proof fn lemma_payday_txns_elsewhere(o: Seq<EntityView>, k: Seq<char>)
    requires
        forall|j: int| 0 <= j < o.len() && #[trigger] o[j].identifier == k ==> !paid_on_payday(o[j]),
    ensures
        txns_elsewhere(payday_txns(o), k),
    decreases o.len(),
{
    if o.len() > 0 {
        let init = o.drop_last();
        assert forall|j: int| 0 <= j < init.len() && #[trigger] init[j].identifier == k implies !paid_on_payday(
            init[j],
        ) by {
            assert(init[j] == o[j]);
        }
        lemma_payday_txns_elsewhere(init, k);
        let e = o.last();
        let p = payday_of(e);
        if e.identifier == k {
            assert(o[o.len() - 1].identifier == k);
            assert(!paid_on_payday(e));
            assert(p =~= Seq::<TransactionView>::empty());
        }
        assert(txns_elsewhere(p, k));
        lemma_txns_elsewhere_append(payday_txns(init), p, k);
    }
}

/// Payday leaves alone every entity that it neither pays nor charges: an inactive player,
/// a contract that donates nothing, any other entity keeps all it held.
pub proof fn law_payday_spares(c: ContextView, o: Seq<EntityView>, k: Seq<char>)
    requires
        payday_spec(c, o) is Ok,
        forall|j: int| 0 <= j < o.len() && #[trigger] o[j].identifier == k ==> !paid_on_payday(o[j]),
    ensures
        same_at(c.entries, payday_spec(c, o)->Ok_0.entries, k),
{
    lemma_payday_txns_elsewhere(o, k);
    lemma_apply_txns_elsewhere(c, payday_txns(o), c.datetime, k);
}


/// An entity that some entity of `o` is, in a ledger whose entities stand under their own
/// identifiers, is the entry under that identifier.
proof fn lemma_order_entry(es: EntriesView, o: Seq<EntityView>, j: int) -> (m: int)
    requires
        keys_distinct(es),
        ids_match(es),
        o.to_multiset() == entity_views(es).to_multiset(),
        0 <= j < o.len(),
    ensures
        0 <= m < es.len(),
        es[m].1 == o[j],
        es[m].0 == o[j].identifier,
{
    broadcast use vstd::seq_lib::group_to_multiset_ensures;

    let v = entity_views(es);
    assert(o.to_multiset().contains(o[j]));
    assert(v.contains(o[j]));
    let m = choose|m: int| 0 <= m < v.len() && v[m] == o[j];
    assert(es[m].1 == v[m]);
    m
}

/// In a payday over all the entities of a ledger, an entity that payday neither pays nor
/// charges keeps all it held.
pub proof fn law_payday_spares_entry(c: ContextView, o: Seq<EntityView>, i: int)
    requires
        keys_distinct(c.entries),
        ids_match(c.entries),
        sorted_order(o, c.entries),
        payday_spec(c, o) is Ok,
        0 <= i < c.entries.len(),
        !paid_on_payday(c.entries[i].1),
    ensures
        payday_spec(c, o)->Ok_0.entries[i] == c.entries[i],
{
    let k = c.entries[i].0;
    assert forall|j: int| 0 <= j < o.len() && #[trigger] o[j].identifier == k implies !paid_on_payday(o[j]) by {
        let m = lemma_order_entry(c.entries, o, j);
        assert(c.entries[m].0 == k);
        if m != i {
            if m < i {
                assert(c.entries[m].0 != c.entries[i].0);
            } else {
                assert(c.entries[i].0 != c.entries[m].0);
            }
        }
    }
    law_payday_spares(c, o, k);
    let after = payday_spec(c, o)->Ok_0;
    assert(after.entries[i].0 == c.entries[i].0);
    assert(after.entries[i].1 == c.entries[i].1);
}


// ---------------------------------------------------------------------------
// What payday gives
// ---------------------------------------------------------------------------

proof fn lemma_apply_txns_flotation(c: ContextView, ts: Seq<TransactionView>, dt: DateTime)
    requires
        apply_txns(c, ts, dt) is Ok,
    ensures
        apply_txns(c, ts, dt)->Ok_0.flotation == c.flotation,
    decreases ts.len(),
{
    if ts.len() > 0 {
        lemma_apply_txns_flotation(c, ts.drop_last(), dt);
        let c1 = apply_txns(c, ts.drop_last(), dt)->Ok_0;
        lemma_apply_atoms_flotation(c1, expand_spec(c1, ts.last())->Ok_0, dt);
    }
}

proof fn lemma_apply_atoms_flotation(c: ContextView, s: Seq<AtomicView>, dt: DateTime)
    requires
        apply_atoms(c, s, dt) is Ok,
    ensures
        apply_atoms(c, s, dt)->Ok_0.flotation == c.flotation,
    decreases s.len(),
{
    if s.len() > 0 {
        lemma_apply_atoms_flotation(c, s.drop_last(), dt);
    }
}

proof fn lemma_payday_txns_append(a: Seq<EntityView>, b: Seq<EntityView>)
    ensures
        payday_txns(a + b) == payday_txns(a) + payday_txns(b),
    decreases b.len(),
{
    if b.len() == 0 {
        assert(a + b =~= a);
        assert(payday_txns(a) + payday_txns(b) =~= payday_txns(a));
    } else {
        assert((a + b).drop_last() =~= a + b.drop_last());
        lemma_payday_txns_append(a, b.drop_last());
        assert(payday_txns(a) + payday_txns(b) =~= payday_txns(a) + payday_txns(b.drop_last())
            + payday_of(b.last()));
    }
}

/// In a ledger whose entities stand under their own distinct identifiers, an order of
/// its entities names no identifier twice.
proof fn lemma_order_distinct(es: EntriesView, o: Seq<EntityView>)
    requires
        keys_distinct(es),
        ids_match(es),
        o.to_multiset() == entity_views(es).to_multiset(),
    ensures
        forall|x: int, y: int|
            0 <= x < o.len() && 0 <= y < o.len() && x != y ==> #[trigger] o[x].identifier
                != #[trigger] o[y].identifier,
{
    let v = entity_views(es);
    assert(v.no_duplicates()) by {
        assert forall|x: int, y: int| 0 <= x < v.len() && 0 <= y < v.len() && x != y implies v[x]
            != v[y] by {
            assert(v[x] == es[x].1 && v[y] == es[y].1);
            assert(es[x].1.identifier == es[x].0 && es[y].1.identifier == es[y].0);
            if x < y {
                assert(es[x].0 != es[y].0);
            } else {
                assert(es[y].0 != es[x].0);
            }
        }
    }
    v.lemma_multiset_has_no_duplicates();
    o.lemma_multiset_has_no_duplicates_conv();
    assert forall|x: int, y: int|
        0 <= x < o.len() && 0 <= y < o.len() && x != y implies #[trigger] o[x].identifier
            != #[trigger] o[y].identifier by {
        if o[x].identifier == o[y].identifier {
            let mx = lemma_order_entry(es, o, x);
            let my = lemma_order_entry(es, o, y);
            if mx != my {
                if mx < my {
                    assert(es[mx].0 != es[my].0);
                } else {
                    assert(es[my].0 != es[mx].0);
                }
            }
            assert(o[x] == o[y]);
        }
    }
}

/// The position in `o` of the entry `i`, and the payday of `o` split around it: what
/// comes before, that entity's own transactions, and what comes after, none of the
/// others touching it.
proof fn lemma_payday_split(c: ContextView, o: Seq<EntityView>, i: int) -> (j: int)
    requires
        keys_distinct(c.entries),
        ids_match(c.entries),
        sorted_order(o, c.entries),
        0 <= i < c.entries.len(),
    ensures
        0 <= j < o.len(),
        o[j] == c.entries[i].1,
        payday_txns(o) == payday_txns(o.take(j)) + payday_of(o[j]) + payday_txns(o.skip(j + 1)),
        txns_elsewhere(payday_txns(o.take(j)), c.entries[i].0),
        txns_elsewhere(payday_txns(o.skip(j + 1)), c.entries[i].0),
{
    broadcast use vstd::seq_lib::group_to_multiset_ensures;

    let v = entity_views(c.entries);
    assert(v[i] == c.entries[i].1);
    assert(v.to_multiset().contains(v[i]));
    assert(o.contains(v[i]));
    let j = choose|j: int| 0 <= j < o.len() && o[j] == v[i];
    lemma_order_distinct(c.entries, o);
    let k = c.entries[i].0;
    assert(o[j].identifier == k);
    let pre = o.take(j);
    let post = o.skip(j + 1);
    assert(o =~= pre + seq![o[j]] + post);
    lemma_payday_txns_append(pre + seq![o[j]], post);
    lemma_payday_txns_append(pre, seq![o[j]]);
    let one = seq![o[j]];
    assert(one.drop_last() =~= Seq::<EntityView>::empty());
    assert(one.last() == o[j]);
    assert(payday_txns(one.drop_last()) == Seq::<TransactionView>::empty());
    assert(payday_txns(one) =~= payday_of(o[j]));
    assert forall|x: int| 0 <= x < pre.len() && #[trigger] pre[x].identifier == k implies !paid_on_payday(
        pre[x],
    ) by {
        assert(pre[x] == o[x]);
        assert(o[x].identifier != o[j].identifier);
    }
    lemma_payday_txns_elsewhere(pre, k);
    assert forall|x: int| 0 <= x < post.len() && #[trigger] post[x].identifier == k implies !paid_on_payday(
        post[x],
    ) by {
        assert(post[x] == o[x + j + 1]);
        assert(o[x + j + 1].identifier != o[j].identifier);
    }
    lemma_payday_txns_elsewhere(post, k);
    j
}

proof fn lemma_single_txn(c: ContextView, t: TransactionView, dt: DateTime)
    ensures
        apply_txns(c, seq![t], dt) == apply_txn(c, t, dt),
{
    let one = seq![t];
    assert(one.drop_last() =~= Seq::<TransactionView>::empty());
    assert(one.last() == t);
    assert(apply_txns(c, one.drop_last(), dt) == Ok::<ContextView, crate::model::ledger::LedgerErrorView>(c));
}

/// On payday an active player gets ten boatloads of coins, at the flotation of the day.
#[verifier::rlimit(50)]
pub proof fn law_payday_pays_players(c: ContextView, o: Seq<EntityView>, i: int)
    requires
        keys_distinct(c.entries),
        ids_match(c.entries),
        sorted_order(o, c.entries),
        payday_spec(c, o) is Ok,
        0 <= i < c.entries.len(),
        c.entries[i].1.kind matches EntityKind::Player(p) && p.is_active,
    ensures
        payday_spec(c, o)->Ok_0.entries[i].1.balance(Currency::Coin) == c.entries[i].1.balance(
            Currency::Coin,
        ) + boatload_units(c.flotation, 10),
{
    let j = lemma_payday_split(c, o, i);
    let k = c.entries[i].0;
    let e = c.entries[i].1;
    let pre = payday_txns(o.take(j));
    let mine = payday_of(o[j]);
    let post = payday_txns(o.skip(j + 1));
    let dt = c.datetime;
    lemma_apply_txns_append(c, pre + mine, post, dt);
    lemma_apply_txns_append(c, pre, mine, dt);
    let c1 = apply_txns(c, pre, dt)->Ok_0;
    lemma_apply_txns_elsewhere(c, pre, dt, k);
    lemma_apply_txns_flotation(c, pre, dt);
    assert(c1.entries[i].0 == k && c1.entries[i].1 == e);
    let t = txn(k, Amount::PartOf(FullUnit::Boatload(Currency::Coin), 10), OperatorView::Plus, "Payday"@);
    assert(mine == seq![t]);
    lemma_single_txn(c1, t, dt);
    let c2 = apply_txn(c1, t, dt)->Ok_0;
    assert(keys_distinct(c1.entries)) by {
        assert forall|x: int, y: int| 0 <= x < y < c1.entries.len() implies c1.entries[x].0
            != c1.entries[y].0 by {
            assert(c1.entries[x].0 == c.entries[x].0);
            assert(c1.entries[y].0 == c.entries[y].0);
        }
    }
    lemma_key_index(c1.entries, i);
    let b = saturate(boatload_units(c.flotation, 10));
    assert(b == boatload_units(c.flotation, 10)) by {
        assert(b <= i32::MAX);
    }
    let s = expand_spec(c1, t)->Ok_0;
    assert(s.len() == 1 && s[0].agent == k && s[0].amount == b && s[0].currency == Currency::Coin);
    assert(s.drop_last() =~= Seq::<AtomicView>::empty());
    assert(apply_atoms(c1, s.drop_last(), dt) == Ok::<ContextView, crate::model::ledger::LedgerErrorView>(c1));
    assert(c2.entries[i].1.balance(Currency::Coin) == e.balance(Currency::Coin) + b);
    lemma_apply_txns_elsewhere(c2, post, dt, k);
    let c3 = apply_txns(c2, post, dt)->Ok_0;
    assert(c3.entries[i].0 == c2.entries[i].0);
}


/// A transaction applied to the entry under `k` keeps every identifier in its place and
/// the flotation as it was.
pub open spec fn kept_frame(a: ContextView, b: ContextView) -> bool {
    &&& b.entries.len() == a.entries.len()
    &&& forall|x: int| 0 <= x < a.entries.len() ==> #[trigger] b.entries[x].0 == a.entries[x].0
    &&& b.flotation == a.flotation
}

proof fn lemma_kept_frame_distinct(a: ContextView, b: ContextView)
    requires
        kept_frame(a, b),
        keys_distinct(a.entries),
    ensures
        keys_distinct(b.entries),
{
    assert forall|x: int, y: int| 0 <= x < y < b.entries.len() implies b.entries[x].0
        != b.entries[y].0 by {
        assert(b.entries[x].0 == a.entries[x].0);
        assert(b.entries[y].0 == a.entries[y].0);
    }
}

/// Adding `n` boatloads of coins to the entity under `k` adds their worth in units.
proof fn lemma_grant_boatloads(c: ContextView, i: int, n: u32, cm: Seq<char>, dt: DateTime)
    requires
        keys_distinct(c.entries),
        0 <= i < c.entries.len(),
        apply_txn(
            c,
            txn(c.entries[i].0, Amount::PartOf(FullUnit::Boatload(Currency::Coin), n), OperatorView::Plus, cm),
            dt,
        ) is Ok,
    ensures
        ({
            let c2 = apply_txn(
                c,
                txn(c.entries[i].0, Amount::PartOf(FullUnit::Boatload(Currency::Coin), n), OperatorView::Plus, cm),
                dt,
            )->Ok_0;
            &&& kept_frame(c, c2)
            &&& c2.entries[i].1.balance(Currency::Coin) == c.entries[i].1.balance(Currency::Coin)
                + boatload_units(c.flotation, n)
        }),
{
    let k = c.entries[i].0;
    let t = txn(k, Amount::PartOf(FullUnit::Boatload(Currency::Coin), n), OperatorView::Plus, cm);
    lemma_key_index(c.entries, i);
    let b = saturate(boatload_units(c.flotation, n));
    assert(b == boatload_units(c.flotation, n)) by {
        assert(b <= i32::MAX);
    }
    let s = expand_spec(c, t)->Ok_0;
    assert(s.len() == 1 && s[0].agent == k && s[0].amount == b && s[0].currency == Currency::Coin);
    assert(s.drop_last() =~= Seq::<AtomicView>::empty());
    assert(apply_atoms(c, s.drop_last(), dt) == Ok::<ContextView, crate::model::ledger::LedgerErrorView>(c));
}

/// Taking `n` coins, no more than it holds, from the entity under `k` leaves it `n` fewer.
proof fn lemma_take_coins(c: ContextView, i: int, n: u32, cm: Seq<char>, dt: DateTime)
    requires
        keys_distinct(c.entries),
        0 <= i < c.entries.len(),
        n <= c.entries[i].1.balance(Currency::Coin),
        apply_txn(
            c,
            txn(c.entries[i].0, Amount::PartOf(FullUnit::Bare(Currency::Coin), n), OperatorView::Minus, cm),
            dt,
        ) is Ok,
    ensures
        ({
            let c2 = apply_txn(
                c,
                txn(c.entries[i].0, Amount::PartOf(FullUnit::Bare(Currency::Coin), n), OperatorView::Minus, cm),
                dt,
            )->Ok_0;
            &&& kept_frame(c, c2)
            &&& c2.entries[i].1.balance(Currency::Coin) == c.entries[i].1.balance(Currency::Coin) - n
        }),
{
    let k = c.entries[i].0;
    let t = txn(k, Amount::PartOf(FullUnit::Bare(Currency::Coin), n), OperatorView::Minus, cm);
    lemma_key_index(c.entries, i);
    let s = expand_spec(c, t)->Ok_0;
    assert(s.len() == 1 && s[0].agent == k && s[0].amount == -(n as int) && s[0].currency
        == Currency::Coin);
    assert(s.drop_last() =~= Seq::<AtomicView>::empty());
    assert(apply_atoms(c, s.drop_last(), dt) == Ok::<ContextView, crate::model::ledger::LedgerErrorView>(c));
}

/// On payday a contract whose donation level is above zero loses half its coins (rounded
/// down) and gets its donation level in boatloads of coins.
#[verifier::rlimit(50)]
pub proof fn law_payday_charges_donors(c: ContextView, o: Seq<EntityView>, i: int)
    requires
        keys_distinct(c.entries),
        ids_match(c.entries),
        sorted_order(o, c.entries),
        payday_spec(c, o) is Ok,
        0 <= i < c.entries.len(),
        c.entries[i].1.kind is Contract,
        c.entries[i].1.kind->Contract_0.donation_level > 0,
    ensures
        ({
            let before = c.entries[i].1.balance(Currency::Coin);
            payday_spec(c, o)->Ok_0.entries[i].1.balance(Currency::Coin) == before - before / 2
                + boatload_units(c.flotation, c.entries[i].1.kind->Contract_0.donation_level)
        }),
{
    let j = lemma_payday_split(c, o, i);
    let k = c.entries[i].0;
    let e = c.entries[i].1;
    let level = e.kind->Contract_0.donation_level;
    let pre = payday_txns(o.take(j));
    let mine = payday_of(o[j]);
    let post = payday_txns(o.skip(j + 1));
    let dt = c.datetime;
    lemma_apply_txns_append(c, pre + mine, post, dt);
    lemma_apply_txns_append(c, pre, mine, dt);
    let c1 = apply_txns(c, pre, dt)->Ok_0;
    lemma_apply_txns_elsewhere(c, pre, dt, k);
    lemma_apply_txns_flotation(c, pre, dt);
    assert(c1.entries[i].0 == k && c1.entries[i].1 == e);
    assert(kept_frame(c, c1));
    lemma_kept_frame_distinct(c, c1);
    let bal = e.balance(Currency::Coin);
    let t1 = txn(
        k,
        Amount::PartOf(FullUnit::Bare(Currency::Coin), bal / 2),
        OperatorView::Minus,
        "Payday: charity coin destruction"@,
    );
    let t2 = txn(
        k,
        Amount::PartOf(FullUnit::Boatload(Currency::Coin), level),
        OperatorView::Plus,
        "Payday: donation level="@ + crate::text::decimal(level as nat),
    );
    assert(mine =~= seq![t1] + seq![t2]);
    lemma_apply_txns_append(c1, seq![t1], seq![t2], dt);
    lemma_single_txn(c1, t1, dt);
    lemma_take_coins(c1, i, (bal / 2) as u32, "Payday: charity coin destruction"@, dt);
    let c2 = apply_txn(c1, t1, dt)->Ok_0;
    lemma_kept_frame_distinct(c1, c2);
    lemma_single_txn(c2, t2, dt);
    lemma_grant_boatloads(c2, i, level, "Payday: donation level="@ + crate::text::decimal(level as nat), dt);
    let c3 = apply_txn(c2, t2, dt)->Ok_0;
    assert(c3.entries[i].1.balance(Currency::Coin) == bal - bal / 2 + boatload_units(c.flotation, level));
    lemma_apply_txns_elsewhere(c3, post, dt, k);
    let c4 = apply_txns(c3, post, dt)->Ok_0;
    assert(c4.entries[i].0 == c3.entries[i].0);
}


// ---------------------------------------------------------------------------
// The cards that a nuke deals
// ---------------------------------------------------------------------------

/// Adding `n` units of `cur` to the entity at `i` adds them to its balance.
proof fn lemma_grant_units(c: ContextView, i: int, cur: Currency, n: u32, cm: Seq<char>, dt: DateTime)
    requires
        keys_distinct(c.entries),
        0 <= i < c.entries.len(),
        apply_txn(
            c,
            txn(c.entries[i].0, Amount::PartOf(FullUnit::Bare(cur), n), OperatorView::Plus, cm),
            dt,
        ) is Ok,
    ensures
        ({
            let c2 = apply_txn(
                c,
                txn(c.entries[i].0, Amount::PartOf(FullUnit::Bare(cur), n), OperatorView::Plus, cm),
                dt,
            )->Ok_0;
            &&& kept_frame(c, c2)
            &&& c2.entries[i].1.balance(cur) == c.entries[i].1.balance(cur) + n
        }),
{
    let k = c.entries[i].0;
    let t = txn(k, Amount::PartOf(FullUnit::Bare(cur), n), OperatorView::Plus, cm);
    lemma_key_index(c.entries, i);
    let s = expand_spec(c, t)->Ok_0;
    assert(s.len() == 1 && s[0].agent == k && s[0].amount == n && s[0].currency == cur);
    assert(s.drop_last() =~= Seq::<AtomicView>::empty());
    assert(apply_atoms(c, s.drop_last(), dt) == Ok::<ContextView, crate::model::ledger::LedgerErrorView>(c));
}

/// The grants of a nuke to the entity at `i` give it one of `cur` for each time `cur`
/// is listed, where it is an active player, and nothing otherwise.
proof fn lemma_grants_of_count(
    c: ContextView,
    i: int,
    active: bool,
    assets: Seq<Currency>,
    cur: Currency,
    dt: DateTime,
)
    requires
        keys_distinct(c.entries),
        0 <= i < c.entries.len(),
        is_card_spec(cur),
        apply_txns(c, nuke_grants_of(c.entries[i].0, active, assets), dt) is Ok,
    ensures
        ({
            let c2 = apply_txns(c, nuke_grants_of(c.entries[i].0, active, assets), dt)->Ok_0;
            &&& kept_frame(c, c2)
            &&& c2.entries[i].1.balance(cur) == c.entries[i].1.balance(cur) + if active {
                count_in(assets, cur)
            } else {
                0
            }
        }),
    decreases assets.len(),
{
    let k = c.entries[i].0;
    if assets.len() == 0 {
    } else {
        let init = assets.drop_last();
        let x = assets.last();
        let a = nuke_grants_of(k, active, init);
        let tail = if is_card_spec(x) && active {
            seq![txn(k, Amount::PartOf(FullUnit::Bare(x), 1), OperatorView::Plus, nuke_comment())]
        } else {
            Seq::<TransactionView>::empty()
        };
        assert(nuke_grants_of(k, active, assets) == a + tail);
        lemma_apply_txns_append(c, a, tail, dt);
        lemma_grants_of_count(c, i, active, init, cur, dt);
        let c1 = apply_txns(c, a, dt)->Ok_0;
        lemma_kept_frame_distinct(c, c1);
        assert(c1.entries[i].0 == k);
        if is_card_spec(x) && active {
            let t = txn(k, Amount::PartOf(FullUnit::Bare(x), 1), OperatorView::Plus, nuke_comment());
            lemma_single_txn(c1, t, dt);
            lemma_grant_units(c1, i, x, 1, nuke_comment(), dt);
            let c2 = apply_txn(c1, t, dt)->Ok_0;
            if x != cur {
                assert(txns_avoid(seq![t], cur)) by {
                    assert(single_avoiding(seq![t][0], cur));
                }
                lemma_apply_txns_avoid(c1, seq![t], dt, cur);
                assert(same_in(c1.entries, c2.entries, cur));
                assert(c2.entries[i].0 == c1.entries[i].0);
            }
        } else {
            assert(tail.len() == 0);
        }
    }
}

proof fn lemma_grants_of_elsewhere(id: Seq<char>, active: bool, assets: Seq<Currency>, k: Seq<char>)
    requires
        id != k,
    ensures
        txns_elsewhere(nuke_grants_of(id, active, assets), k),
    decreases assets.len(),
{
    if assets.len() > 0 {
        lemma_grants_of_elsewhere(id, active, assets.drop_last(), k);
        let tail = if is_card_spec(assets.last()) && active {
            seq![txn(id, Amount::PartOf(FullUnit::Bare(assets.last()), 1), OperatorView::Plus, nuke_comment())]
        } else {
            Seq::<TransactionView>::empty()
        };
        assert(txns_elsewhere(tail, k));
        lemma_txns_elsewhere_append(nuke_grants_of(id, active, assets.drop_last()), tail, k);
    }
}

proof fn lemma_grants_elsewhere(o: Seq<EntityView>, assets: Seq<Currency>, k: Seq<char>)
    requires
        forall|x: int| 0 <= x < o.len() ==> #[trigger] o[x].identifier != k,
    ensures
        txns_elsewhere(nuke_grants(o, assets), k),
    decreases o.len(),
{
    if o.len() > 0 {
        let init = o.drop_last();
        assert forall|x: int| 0 <= x < init.len() implies #[trigger] init[x].identifier != k by {
            assert(init[x] == o[x]);
        }
        lemma_grants_elsewhere(init, assets, k);
        assert(o[o.len() - 1].identifier != k);
        lemma_grants_of_elsewhere(o.last().identifier, is_active_player(o.last()), assets, k);
        lemma_txns_elsewhere_append(
            nuke_grants(init, assets),
            nuke_grants_of(o.last().identifier, is_active_player(o.last()), assets),
            k,
        );
    }
}

proof fn lemma_grants_append(a: Seq<EntityView>, b: Seq<EntityView>, assets: Seq<Currency>)
    ensures
        nuke_grants(a + b, assets) == nuke_grants(a, assets) + nuke_grants(b, assets),
    decreases b.len(),
{
    if b.len() == 0 {
        assert(a + b =~= a);
        assert(nuke_grants(a, assets) + nuke_grants(b, assets) =~= nuke_grants(a, assets));
    } else {
        assert((a + b).drop_last() =~= a + b.drop_last());
        lemma_grants_append(a, b.drop_last(), assets);
        assert(nuke_grants(a, assets) + nuke_grants(b, assets) =~= nuke_grants(a, assets)
            + nuke_grants(b.drop_last(), assets) + nuke_grants_of(
            b.last().identifier,
            is_active_player(b.last()),
            assets,
        ));
    }
}

/// The economy nuke deals cards: after it, an active player holds one of each listed
/// card for each time it is listed, and every other entity holds none.
#[verifier::rlimit(50)]
pub proof fn law_nuke_deals_cards(c: ContextView, o: Seq<EntityView>, i: int, cur: Currency)
    requires
        keys_distinct(c.entries),
        ids_match(c.entries),
        sorted_order(o, c.entries),
        nuke_spec(c, o) is Ok,
        0 <= i < c.entries.len(),
        c.assets.contains(cur),
        card(cur),
    ensures
        nuke_spec(c, o)->Ok_0.entries[i].1.balance(cur) == if c.entries[i].1.kind matches EntityKind::Player(
            p,
        ) && p.is_active {
            count_in(c.assets, cur)
        } else {
            0
        },
{
    broadcast use vstd::seq_lib::group_to_multiset_ensures;

    let dt = c.datetime;
    let k = c.entries[i].0;
    let d = nuke_deletions(o, c.assets);
    let g = nuke_grants(o, c.assets);
    lemma_apply_txns_append(c, d, g, dt);
    let v = entity_views(c.entries);
    assert(v[i] == c.entries[i].1);
    assert(v.to_multiset().contains(v[i]));
    assert(o.contains(v[i]));
    let j = choose|j: int| 0 <= j < o.len() && o[j] == v[i];
    assert(o[j].identifier == k);
    lemma_deletions_empty(c, o, c.assets, dt, i, cur);
    let c1 = apply_txns(c, d, dt)->Ok_0;
    lemma_deletions_take_all(o, c.assets);
    lemma_apply_txns_no_more(c, d, dt);
    lemma_apply_txns_flotation(c, d, dt);
    assert(kept_frame(c, c1));
    lemma_kept_frame_distinct(c, c1);
    lemma_order_distinct(c.entries, o);
    let pre = o.take(j);
    let post = o.skip(j + 1);
    let one = seq![o[j]];
    assert(o =~= pre + one + post);
    lemma_grants_append(pre + one, post, c.assets);
    lemma_grants_append(pre, one, c.assets);
    assert(one.drop_last() =~= Seq::<EntityView>::empty());
    assert(one.last() == o[j]);
    let mine = nuke_grants_of(k, is_active_player(o[j]), c.assets);
    assert(nuke_grants(one.drop_last(), c.assets) == Seq::<TransactionView>::empty());
    assert(is_active_player(o[j]) == is_active_player(one.last()));
    assert(nuke_grants(one, c.assets) =~= mine);
    assert forall|x: int| 0 <= x < pre.len() implies #[trigger] pre[x].identifier != k by {
        assert(pre[x] == o[x]);
        assert(o[x].identifier != o[j].identifier);
    }
    assert forall|x: int| 0 <= x < post.len() implies #[trigger] post[x].identifier != k by {
        assert(post[x] == o[x + j + 1]);
        assert(o[x + j + 1].identifier != o[j].identifier);
    }
    lemma_grants_elsewhere(pre, c.assets, k);
    lemma_grants_elsewhere(post, c.assets, k);
    let gp = nuke_grants(pre, c.assets);
    let gq = nuke_grants(post, c.assets);
    lemma_apply_txns_append(c1, gp + mine, gq, dt);
    lemma_apply_txns_append(c1, gp, mine, dt);
    lemma_apply_txns_elsewhere(c1, gp, dt, k);
    let c2 = apply_txns(c1, gp, dt)->Ok_0;
    lemma_apply_txns_flotation(c1, gp, dt);
    assert(c2.entries[i].0 == k && c2.entries[i].1 == c1.entries[i].1);
    assert(kept_frame(c1, c2));
    lemma_kept_frame_distinct(c1, c2);
    lemma_grants_of_count(c2, i, is_active_player(o[j]), c.assets, cur, dt);
    let c3 = apply_txns(c2, mine, dt)->Ok_0;
    lemma_apply_txns_elsewhere(c3, gq, dt, k);
    let c4 = apply_txns(c3, gq, dt)->Ok_0;
    assert(c4.entries[i].0 == c3.entries[i].0);
}

} // verus!
