use vstd::prelude::*;

use crate::model::entity::{kind_lt, lemma_kind_key_injective, Entity, EntityKind, EntityView};
use crate::model::Currency;
use crate::text::{chars_of, lowercase, same_text, to_lowercase};

verus! {

/// The entries of a table of entities: identifier and entity, in the order of insertion.
pub type EntriesView = Seq<(Seq<char>, EntityView)>;

/// No identifier stands twice.
pub open spec fn keys_distinct(s: EntriesView) -> bool {
    forall|i: int, j: int| 0 <= i < j < s.len() ==> s[i].0 != s[j].0
}

/// The entries as a map from identifier to entity.
pub open spec fn entries_map(s: EntriesView) -> Map<Seq<char>, EntityView>
    decreases s.len(),
{
    if s.len() == 0 {
        Map::empty()
    } else {
        entries_map(s.drop_last()).insert(s.last().0, s.last().1)
    }
}

/// The sum of the balances of `c` over the entries.
pub open spec fn entries_total(s: EntriesView, c: Currency) -> int
    decreases s.len(),
{
    if s.len() == 0 {
        0
    } else {
        entries_total(s.drop_last(), c) + s.last().1.balance(c) as int
    }
}

/// Every entry stands under its entity's own identifier.
pub open spec fn ids_match(s: EntriesView) -> bool {
    forall|i: int| 0 <= i < s.len() ==> #[trigger] s[i].1.identifier == s[i].0
}

/// What looking up `k` in `m` gives: the entity under `k`, if there is one.
pub open spec fn lookup(m: Map<Seq<char>, EntityView>, k: Seq<char>) -> Option<EntityView> {
    if m.contains_key(k) {
        Some(m[k])
    } else {
        None
    }
}

/// Every entity of `m` stands under its own identifier.
pub open spec fn ids_hold(m: Map<Seq<char>, EntityView>) -> bool {
    forall|k: Seq<char>| #[trigger] m.contains_key(k) ==> m[k].identifier == k
}

/// Some entry has the identifier `k`.
pub open spec fn has_key(s: EntriesView, k: Seq<char>) -> bool {
    exists|i: int| 0 <= i < s.len() && #[trigger] s[i].0 == k
}

/// The position of the entry with identifier `k`, where there is one.
pub open spec fn key_index(s: EntriesView, k: Seq<char>) -> int {
    choose|i: int| 0 <= i < s.len() && #[trigger] s[i].0 == k
}

/// With distinct identifiers, the entry at `i` is the one that `key_index` finds.
pub proof fn lemma_key_index(s: EntriesView, i: int)
    requires
        keys_distinct(s),
        0 <= i < s.len(),
    ensures
        has_key(s, s[i].0),
        key_index(s, s[i].0) == i,
{
    assert(s[i].0 == s[i].0);
    let j = key_index(s, s[i].0);
    assert(0 <= j < s.len() && s[j].0 == s[i].0);
}

pub proof fn lemma_entries_map(s: EntriesView)
    requires
        keys_distinct(s),
    ensures
        forall|k: Seq<char>|
            #![trigger entries_map(s).contains_key(k)]
            entries_map(s).contains_key(k) <==> exists|i: int| 0 <= i < s.len() && s[i].0 == k,
        forall|i: int| 0 <= i < s.len() ==> #[trigger] entries_map(s)[s[i].0] == s[i].1,
        forall|i: int| 0 <= i < s.len() ==> entries_map(s).contains_key(#[trigger] s[i].0),
    decreases s.len(),
{
    if s.len() > 0 {
        let t = s.drop_last();
        assert(keys_distinct(t));
        lemma_entries_map(t);
        assert forall|k: Seq<char>| #[trigger]
            entries_map(s).contains_key(k) implies exists|i: int| 0 <= i < s.len() && s[i].0 == k by {
            if k == s.last().0 {
                assert(s[s.len() - 1].0 == k);
            } else {
                assert(entries_map(t).contains_key(k));
                let i = choose|i: int| 0 <= i < t.len() && t[i].0 == k;
                assert(s[i] == t[i]);
            }
        }
        assert forall|k: Seq<char>|
            (exists|i: int| 0 <= i < s.len() && s[i].0 == k) implies #[trigger] entries_map(
            s,
        ).contains_key(k) by {
            let i = choose|i: int| 0 <= i < s.len() && s[i].0 == k;
            if i < s.len() - 1 {
                assert(t[i].0 == k);
            }
        }
        assert forall|i: int| 0 <= i < s.len() implies #[trigger] entries_map(s)[s[i].0] == s[i].1 by {
            if i < s.len() - 1 {
                assert(t[i] == s[i]);
                assert(s[i].0 != s.last().0);
            }
        }
    }
}

pub proof fn lemma_entries_push(s: EntriesView, k: Seq<char>, v: EntityView)
    requires
        keys_distinct(s),
        !entries_map(s).contains_key(k),
    ensures
        keys_distinct(s.push((k, v))),
        entries_map(s.push((k, v))) == entries_map(s).insert(k, v),
        entries_total(s.push((k, v)), Currency::Coin) == entries_total(s, Currency::Coin)
            + v.balance(Currency::Coin),
{
    lemma_entries_map(s);
    assert(s.push((k, v)).drop_last() =~= s);
    assert forall|i: int, j: int| 0 <= i < j < s.push((k, v)).len() implies s.push((k, v))[i].0
        != s.push((k, v))[j].0 by {
        if j == s.len() {
            assert(entries_map(s).contains_key(s[i].0));
        }
    }
}

pub proof fn lemma_entries_update(s: EntriesView, i: int, v: EntityView)
    requires
        keys_distinct(s),
        0 <= i < s.len(),
    ensures
        keys_distinct(s.update(i, (s[i].0, v))),
        entries_map(s.update(i, (s[i].0, v))) == entries_map(s).insert(s[i].0, v),
        forall|c: Currency|
            #[trigger] entries_total(s.update(i, (s[i].0, v)), c) == entries_total(s, c)
                - s[i].1.balance(c) + v.balance(c),
    decreases s.len(),
{
    let u = s.update(i, (s[i].0, v));
    assert(keys_distinct(u));
    lemma_entries_map(s);
    lemma_entries_map(u);
    assert(entries_map(u) =~= entries_map(s).insert(s[i].0, v)) by {
        assert forall|k: Seq<char>| #[trigger] entries_map(u).contains_key(k) <==> entries_map(
            s,
        ).insert(s[i].0, v).contains_key(k) by {
            if entries_map(u).contains_key(k) {
                let j = choose|j: int| 0 <= j < u.len() && u[j].0 == k;
                assert(s[j].0 == k);
            }
            if entries_map(s).contains_key(k) {
                let j = choose|j: int| 0 <= j < s.len() && s[j].0 == k;
                assert(u[j].0 == k);
            }
            if k == s[i].0 {
                assert(u[i].0 == k);
            }
        }
        assert forall|k: Seq<char>| #[trigger] entries_map(u).contains_key(k) implies entries_map(
            u,
        )[k] == entries_map(s).insert(s[i].0, v)[k] by {
            let j = choose|j: int| 0 <= j < u.len() && u[j].0 == k;
            assert(entries_map(u)[u[j].0] == u[j].1);
            if j != i {
                assert(entries_map(s)[s[j].0] == s[j].1);
            }
        }
    }
    assert forall|c: Currency| #[trigger]
        entries_total(s.update(i, (s[i].0, v)), c) == entries_total(s, c) - s[i].1.balance(c)
            + v.balance(c) by {
        lemma_total_update(s, i, (s[i].0, v), c);
    }
}

pub proof fn lemma_total_update(
    s: EntriesView,
    i: int,
    x: (Seq<char>, EntityView),
    c: Currency,
)
    requires
        0 <= i < s.len(),
    ensures
        entries_total(s.update(i, x), c) == entries_total(s, c) - s[i].1.balance(c)
            + x.1.balance(c),
    decreases s.len(),
{
    let u = s.update(i, x);
    if i == s.len() - 1 {
        assert(u.drop_last() =~= s.drop_last());
    } else {
        lemma_total_update(s.drop_last(), i, x, c);
        assert(u.drop_last() =~= s.drop_last().update(i, x));
    }
}

pub proof fn lemma_total_remove(s: EntriesView, i: int, c: Currency)
    requires
        0 <= i < s.len(),
    ensures
        entries_total(s.remove(i), c) == entries_total(s, c) - s[i].1.balance(c),
    decreases s.len(),
{
    if i == s.len() - 1 {
        assert(s.remove(i) =~= s.drop_last());
    } else {
        lemma_total_remove(s.drop_last(), i, c);
        assert(s.remove(i).drop_last() =~= s.drop_last().remove(i));
    }
}

pub proof fn lemma_entries_remove(s: EntriesView, i: int)
    requires
        keys_distinct(s),
        0 <= i < s.len(),
    ensures
        keys_distinct(s.remove(i)),
        entries_map(s.remove(i)) == entries_map(s).remove(s[i].0),
{
    let u = s.remove(i);
    assert forall|a: int, b: int| 0 <= a < b < u.len() implies u[a].0 != u[b].0 by {
        let a2 = if a < i { a } else { a + 1 };
        let b2 = if b < i { b } else { b + 1 };
        assert(u[a] == s[a2]);
        assert(u[b] == s[b2]);
    }
    lemma_entries_map(s);
    lemma_entries_map(u);
    assert(entries_map(u) =~= entries_map(s).remove(s[i].0)) by {
        assert forall|k: Seq<char>| #[trigger] entries_map(u).contains_key(k) <==> entries_map(
            s,
        ).remove(s[i].0).contains_key(k) by {
            if entries_map(u).contains_key(k) {
                let j = choose|j: int| 0 <= j < u.len() && u[j].0 == k;
                let j2 = if j < i { j } else { j + 1 };
                assert(s[j2].0 == k);
            }
            if entries_map(s).contains_key(k) && k != s[i].0 {
                let j = choose|j: int| 0 <= j < s.len() && s[j].0 == k;
                assert(j != i);
                let j2 = if j < i { j } else { j - 1 };
                assert(u[j2].0 == k);
            }
        }
        assert forall|k: Seq<char>| #[trigger] entries_map(u).contains_key(k) implies entries_map(
            u,
        )[k] == entries_map(s)[k] by {
            let j = choose|j: int| 0 <= j < u.len() && u[j].0 == k;
            let j2 = if j < i { j } else { j + 1 };
            assert(u[j] == s[j2]);
            assert(entries_map(u)[u[j].0] == u[j].1);
            assert(entries_map(s)[s[j2].0] == s[j2].1);
        }
    }
}

/// The holdings of `a` moved into `b`, added to what is held of `b`.
pub open spec fn renamed(e: EntityView, a: Currency, b: Currency) -> EntityView {
    if a == b || !e.inventory.contains_key(a) {
        e
    } else {
        EntityView {
            inventory: e.inventory.remove(a).insert(b, (e.balance(a) + e.balance(b)) as u32),
            ..e
        }
    }
}

pub open spec fn rename_fits(es: EntriesView, a: Currency, b: Currency) -> bool {
    a != b ==> forall|i: int|
        0 <= i < es.len() ==> #[trigger] es[i].1.balance(a) + es[i].1.balance(b) <= u32::MAX
}

pub open spec fn renamed_all(es: EntriesView, a: Currency, b: Currency) -> EntriesView {
    es.map_values(|p: (Seq<char>, EntityView)| (p.0, renamed(p.1, a, b)))
}

/// The entities of the ledger, found by identifier.
#[derive(Debug)]
pub struct Entities {
    contents: Vec<(String, Entity)>,
}

impl Entities {
    /// The entries in the order of insertion.
    pub closed spec fn entries(&self) -> EntriesView {
        self.contents@.map_values(|p: (String, Entity)| (p.0@, p.1@))
    }

    /// No identifier stands twice.
    pub closed spec fn wf(&self) -> bool {
        keys_distinct(self.entries())
    }

    /// The sum of the balances of `c` over all entities.
    pub open spec fn total(&self, c: Currency) -> int {
        entries_total(self.entries(), c)
    }
}

impl View for Entities {
    type V = Map<Seq<char>, EntityView>;

    closed spec fn view(&self) -> Map<Seq<char>, EntityView> {
        entries_map(self.entries())
    }
}

impl Entities {
    pub fn new() -> (r: Entities)
        ensures
            r.wf(),
            r@ == Map::<Seq<char>, EntityView>::empty(),
            r.entries() == Seq::<(Seq<char>, EntityView)>::empty(),
            forall|c: Currency| r.total(c) == 0,
    {
        let r = Entities { contents: Vec::new() };
        assert(r.entries() =~= Seq::<(Seq<char>, EntityView)>::empty());
        r
    }

    /// The map view and the entries agree on which identifiers are present and on what
    /// stands under each.
    pub proof fn lemma_view_keys(&self)
        requires
            self.wf(),
        ensures
            forall|k: Seq<char>| #[trigger] self@.contains_key(k) == has_key(self.entries(), k),
            forall|k: Seq<char>|
                has_key(self.entries(), k) ==> #[trigger] self@[k] == self.entries()[key_index(
                    self.entries(),
                    k,
                )].1,
    {
        lemma_entries_map(self.entries());
        assert forall|k: Seq<char>| #[trigger] self@.contains_key(k) == has_key(self.entries(), k) by {
            if has_key(self.entries(), k) {
                let i = key_index(self.entries(), k);
                assert(self.entries()[i].0 == k);
            }
        }
        assert forall|k: Seq<char>| has_key(self.entries(), k) implies #[trigger] self@[k]
            == self.entries()[key_index(self.entries(), k)].1 by {
            let i = key_index(self.entries(), k);
            assert(self.entries()[i].0 == k);
        }
    }

    /// The number of entities.
    pub fn len(&self) -> (r: usize)
        requires
            self.wf(),
        ensures
            r == self.entries().len(),
    {
        self.contents.len()
    }

    /// The position of the entity with identifier `identifier`.
    fn find(&self, identifier: &str) -> (r: Option<usize>)
        requires
            self.wf(),
        ensures
            match r {
                Some(i) => i < self.entries().len() && self.entries()[i as int].0 == identifier@
                    && has_key(self.entries(), identifier@) && key_index(
                    self.entries(),
                    identifier@,
                ) == i,
                None => !self@.contains_key(identifier@) && !has_key(self.entries(), identifier@),
            },
    {
        proof {
            lemma_entries_map(self.entries());
        }
        let mut i: usize = 0;
        while i < self.contents.len()
            invariant
                0 <= i <= self.contents@.len(),
                forall|j: int| 0 <= j < i ==> self.entries()[j].0 != identifier@,
                self.wf(),
            decreases self.contents@.len() - i,
        {
            assert(self.entries()[i as int].0 == self.contents@[i as int].0@);
            if same_text(self.contents[i].0.as_str(), identifier) {
                proof {
                    lemma_key_index(self.entries(), i as int);
                }
                return Some(i);
            }
            i = i + 1;
        }
        None
    }

    /// The entity with identifier `identifier`, if there is one.
    pub fn get(&self, identifier: &str) -> (r: Option<&Entity>)
        requires
            self.wf(),
        ensures
            match r {
                Some(e) => self@.contains_key(identifier@) && e@ == self@[identifier@],
                None => !self@.contains_key(identifier@),
            },
            match r {
                Some(e) => lookup(self@, identifier@) == Some(e@),
                None => lookup(self@, identifier@) is None,
            },
            has_key(self.entries(), identifier@) == r is Some,
            match r {
                Some(e) => e@ == self.entries()[key_index(self.entries(), identifier@)].1,
                None => true,
            },
    {
        proof {
            lemma_entries_map(self.entries());
        }
        match self.find(identifier) {
            Some(i) => {
                assert(self.entries()[i as int].1 == self.contents@[i as int].1@);
                Some(&self.contents[i].1)
            },
            None => None,
        }
    }

    /// Adds an entity under its own identifier, which no entity may already have.
    pub fn insert(&mut self, ent: Entity)
        requires
            old(self).wf(),
            !old(self)@.contains_key(ent@.identifier),
        ensures
            final(self).wf(),
            final(self)@ == old(self)@.insert(ent@.identifier, ent@),
            final(self).entries() == old(self).entries().push((ent@.identifier, ent@)),
            ids_match(old(self).entries()) ==> ids_match(final(self).entries()),
            lookup(final(self)@, ent@.identifier) == Some(ent@),
            forall|k: Seq<char>|
                k != ent@.identifier ==> #[trigger] lookup(final(self)@, k) == lookup(old(self)@, k),
            ids_hold(old(self)@) ==> ids_hold(final(self)@),
            forall|c: Currency| #[trigger] final(self).total(c) == old(self).total(c) + ent@.balance(c),
    {
        let ghost old_entries = self.entries();
        let key = ent.identifier().clone();
        self.contents.push((key, ent));
        proof {
            assert(self.entries() =~= old_entries.push((ent@.identifier, ent@)));
            lemma_entries_push(old_entries, ent@.identifier, ent@);
            assert(self.entries().drop_last() =~= old_entries);
        }
    }

    /// Adds an active player named `identifier`, which no entity may already have.
    pub fn add_player(&mut self, identifier: String, full_name: String)
        requires
            old(self).wf(),
            !old(self)@.contains_key(identifier@),
        ensures
            final(self).wf(),
            final(self)@ == old(self)@.insert(
                identifier@,
                EntityView {
                    full_name: full_name@,
                    identifier: identifier@,
                    kind: crate::model::EntityKind::Player(
                        crate::model::PlayerParams { is_active: true },
                    ),
                    inventory: Map::empty(),
                },
            ),
            final(self).entries() == old(self).entries().push(
                (
                    identifier@,
                    EntityView {
                        full_name: full_name@,
                        identifier: identifier@,
                        kind: crate::model::EntityKind::Player(
                            crate::model::PlayerParams { is_active: true },
                        ),
                        inventory: Map::empty(),
                    },
                ),
            ),
            forall|c: Currency| #[trigger] final(self).total(c) == old(self).total(c),
    {
        let e = Entity::player(identifier, full_name);
        self.insert(e);
    }

    /// Takes out the entity with identifier `identifier`, if there is one.
    pub fn remove(&mut self, identifier: &str) -> (r: Option<Entity>)
        requires
            old(self).wf(),
        ensures
            final(self).wf(),
            match r {
                Some(e) => old(self)@.contains_key(identifier@) && e@ == old(self)@[identifier@],
                None => !old(self)@.contains_key(identifier@),
            },
            final(self)@ == old(self)@.remove(identifier@),
            has_key(old(self).entries(), identifier@) == r is Some,
            final(self).entries() == if r is Some {
                old(self).entries().remove(key_index(old(self).entries(), identifier@))
            } else {
                old(self).entries()
            },
            forall|c: Currency| #[trigger] final(self).total(c) == old(self).total(c) - match r {
                Some(e) => e@.balance(c) as int,
                None => 0,
            },
    {
        proof {
            lemma_entries_map(self.entries());
        }
        match self.find(identifier) {
            Some(i) => {
                let ghost old_entries = self.entries();
                let (_, e) = self.contents.remove(i);
                proof {
                    assert(self.entries() =~= old_entries.remove(i as int));
                    lemma_entries_remove(old_entries, i as int);
                    assert forall|c: Currency| #[trigger] self.total(c) == old(self).total(c)
                        - e@.balance(c) by {
                        lemma_total_remove(old_entries, i as int, c);
                    }
                }
                Some(e)
            },
            None => {
                assert(old(self)@.remove(identifier@) =~= old(self)@);
                None
            },
        }
    }

    /// The entity with identifier `identifier`, to change, if there is one.
    pub fn get_mut(&mut self, identifier: &str) -> (r: Option<&mut Entity>)
        requires
            old(self).wf(),
        ensures
            final(self).wf(),
            match r {
                Some(e) => old(self)@.contains_key(identifier@) && (*e)@ == old(self)@[identifier@]
                    && final(self)@ == old(self)@.insert(identifier@, final(e)@),
                None => !old(self)@.contains_key(identifier@) && final(self)@ == old(self)@,
            },
            has_key(old(self).entries(), identifier@) == r is Some,
            match r {
                Some(e) => (*e)@ == old(self).entries()[key_index(old(self).entries(), identifier@)].1
                    && final(self).entries() == old(self).entries().update(
                    key_index(old(self).entries(), identifier@),
                    (identifier@, final(e)@),
                ),
                None => final(self).entries() == old(self).entries(),
            },
    {
        proof {
            lemma_entries_map(self.entries());
        }
        match self.find(identifier) {
            Some(i) => {
                let ghost old_entries = self.entries();
                let r = &mut self.contents[i].1;
                proof {
                    assert(old_entries[i as int].1 == (*r)@);
                    lemma_entries_update(old_entries, i as int, (*final(r))@);
                    assert(after_borrow(self).entries() =~= old_entries.update(
                        i as int,
                        (old_entries[i as int].0, (*final(r))@),
                    ));
                }
                Some(r)
            },
            None => None,
        }
    }

    /// Moves every entity's holdings of `from` into `to`. Where some entity's two
    /// balances together would not fit in a `u32`, nothing changes and the result is false.
    pub fn rename_currency(&mut self, from: Currency, to: Currency) -> (r: bool)
        requires
            old(self).wf(),
        ensures
            final(self).wf(),
            r == rename_fits(old(self).entries(), from, to),
            final(self).entries() == if r {
                renamed_all(old(self).entries(), from, to)
            } else {
                old(self).entries()
            },
    {
        let ghost old_entries = self.entries();
        if from != to {
            let mut i: usize = 0;
            while i < self.contents.len()
                invariant
                    0 <= i <= self.contents@.len(),
                    self.entries() == old_entries,
                    old_entries == old(self).entries(),
                    self.wf(),
                    from != to,
                    forall|j: int|
                        0 <= j < i ==> #[trigger] old_entries[j].1.balance(from)
                            + old_entries[j].1.balance(to) <= u32::MAX,
                decreases self.contents@.len() - i,
            {
                let a = self.contents[i].1.balance(from);
                let b = self.contents[i].1.balance(to);
                assert(old_entries[i as int].1 == self.contents@[i as int].1@);
                if a as u64 + b as u64 > 0xffff_ffff {
                    assert(!rename_fits(old_entries, from, to));
                    return false;
                }
                i = i + 1;
            }
        }
        let mut i: usize = 0;
        while i < self.contents.len()
            invariant
                0 <= i <= self.contents@.len(),
                self.entries().len() == old_entries.len(),
                rename_fits(old_entries, from, to),
                forall|j: int|
                    0 <= j < i ==> #[trigger] self.entries()[j] == (
                        old_entries[j].0,
                        renamed(old_entries[j].1, from, to),
                    ),
                forall|j: int| i <= j < old_entries.len() ==> #[trigger] self.entries()[j] == old_entries[j],
            decreases self.contents@.len() - i,
        {
            let ghost before = self.entries();
            assert(before[i as int] == old_entries[i as int]);
            assert(self.contents@[i as int].1@ == old_entries[i as int].1);
            self.contents[i].1.rename(from, to);
            assert forall|j: int| 0 <= j < self.entries().len() && j != i implies #[trigger] self.entries()[j] == before[j] by {
            }
            i = i + 1;
        }
        assert(self.entries() =~= renamed_all(old_entries, from, to));
        assert(keys_distinct(self.entries())) by {
            assert forall|a: int, b: int| 0 <= a < b < self.entries().len() implies self.entries()[a].0 != self.entries()[b].0 by {
                assert(self.entries()[a].0 == old_entries[a].0);
                assert(self.entries()[b].0 == old_entries[b].0);
            }
        }
        true
    }
}

} // verus!

verus! {

// ---------------------------------------------------------------------------
// Orders
// ---------------------------------------------------------------------------

/// Texts in lexicographic order of their characters' code points: the order of
/// `String`'s `Ord`, since UTF-8 keeps code point order.
pub open spec fn seq_le(a: Seq<char>, b: Seq<char>) -> bool
    decreases a.len(),
{
    if a.len() == 0 {
        true
    } else if b.len() == 0 {
        false
    } else if a[0] != b[0] {
        a[0] < b[0]
    } else {
        seq_le(a.drop_first(), b.drop_first())
    }
}

pub proof fn lemma_seq_le_total(a: Seq<char>, b: Seq<char>)
    ensures
        seq_le(a, b) || seq_le(b, a),
    decreases a.len(),
{
    if a.len() > 0 && b.len() > 0 && a[0] == b[0] {
        lemma_seq_le_total(a.drop_first(), b.drop_first());
    }
}

pub proof fn lemma_seq_le_trans(a: Seq<char>, b: Seq<char>, c: Seq<char>)
    requires
        seq_le(a, b),
        seq_le(b, c),
    ensures
        seq_le(a, c),
    decreases a.len(),
{
    if a.len() > 0 && b.len() > 0 && c.len() > 0 && a[0] == b[0] && b[0] == c[0] {
        lemma_seq_le_trans(a.drop_first(), b.drop_first(), c.drop_first());
    }
}

/// The key by which entities are sorted: the identifier in lowercase.
pub open spec fn name_key(e: EntityView) -> Seq<char> {
    lowercase(e.identifier)
}

/// The order of `as_sorted_vec` (`by_kind` false): by lowercase identifier; and of
/// `as_grouped_vec` (`by_kind` true): by kind, then by lowercase identifier.
pub open spec fn entity_le(by_kind: bool, a: EntityView, b: EntityView) -> bool {
    if by_kind && a.kind != b.kind {
        kind_lt(a.kind, b.kind)
    } else {
        seq_le(name_key(a), name_key(b))
    }
}

pub proof fn lemma_entity_le_total(by_kind: bool, a: EntityView, b: EntityView)
    ensures
        entity_le(by_kind, a, b) || entity_le(by_kind, b, a),
{
    lemma_seq_le_total(name_key(a), name_key(b));
    lemma_kind_key_injective(a.kind, b.kind);
}

pub proof fn lemma_entity_le_trans(by_kind: bool, a: EntityView, b: EntityView, c: EntityView)
    requires
        entity_le(by_kind, a, b),
        entity_le(by_kind, b, c),
    ensures
        entity_le(by_kind, a, c),
{
    lemma_kind_key_injective(a.kind, b.kind);
    lemma_kind_key_injective(b.kind, c.kind);
    lemma_kind_key_injective(a.kind, c.kind);
    if !by_kind || (a.kind == b.kind && b.kind == c.kind) {
        lemma_seq_le_trans(name_key(a), name_key(b), name_key(c));
    }
}

/// Every two entities of `s` stand in the order `entity_le(by_kind, ..)`.
pub open spec fn sorted_by(by_kind: bool, s: Seq<EntityView>) -> bool {
    forall|i: int, j: int| 0 <= i < j < s.len() ==> entity_le(by_kind, s[i], s[j])
}

/// The views of a list of entity references.
pub open spec fn refs_view(v: Seq<&Entity>) -> Seq<EntityView> {
    v.map_values(|e: &Entity| e@)
}

/// The entities of a table, in its order.
pub open spec fn entity_views(s: EntriesView) -> Seq<EntityView> {
    s.map_values(|p: (Seq<char>, EntityView)| p.1)
}

/// The groups of `as_grouped_vec`, one after another.
pub open spec fn concat_groups(g: Seq<(EntityKind, Seq<EntityView>)>) -> Seq<EntityView>
    decreases g.len(),
{
    if g.len() == 0 {
        Seq::empty()
    } else {
        concat_groups(g.drop_last()) + g.last().1
    }
}

/// `g` holds the entities of `es` in groups: each group not empty and of one kind, the
/// groups in the order of kinds, each sorted by lowercase identifier.
pub open spec fn grouped_as(g: Seq<(EntityKind, Seq<EntityView>)>, es: EntriesView) -> bool {
    &&& concat_groups(g).to_multiset() == entity_views(es).to_multiset()
    &&& forall|i: int|
        0 <= i < g.len() ==> #[trigger] g[i].1.len() > 0 && forall|m: int|
            0 <= m < g[i].1.len() ==> #[trigger] g[i].1[m].kind == g[i].0
    &&& forall|i: int, j: int| 0 <= i < j < g.len() ==> kind_lt(#[trigger] g[i].0, #[trigger] g[j].0)
    &&& forall|i: int| 0 <= i < g.len() ==> sorted_by(false, #[trigger] g[i].1)
}

pub open spec fn groups_view(v: Seq<(EntityKind, Vec<&Entity>)>) -> Seq<
    (EntityKind, Seq<EntityView>),
> {
    v.map_values(|p: (EntityKind, Vec<&Entity>)| (p.0, refs_view(p.1@)))
}

pub(crate) fn chars_le(a: &Vec<char>, b: &Vec<char>) -> (r: bool)
    ensures
        r == seq_le(a@, b@),
{
    let mut i: usize = 0;
    assert(a@.skip(0) =~= a@);
    assert(b@.skip(0) =~= b@);
    while i < a.len() && i < b.len() && a[i] == b[i]
        invariant
            0 <= i <= a@.len(),
            i <= b@.len(),
            seq_le(a@, b@) == seq_le(a@.skip(i as int), b@.skip(i as int)),
        decreases a@.len() - i,
    {
        assert(a@.skip(i as int).drop_first() =~= a@.skip(i + 1));
        assert(b@.skip(i as int).drop_first() =~= b@.skip(i + 1));
        i = i + 1;
    }
    if i == a.len() {
        true
    } else if i == b.len() {
        false
    } else {
        assert(a@.skip(i as int)[0] == a@[i as int]);
        assert(b@.skip(i as int)[0] == b@[i as int]);
        a[i] < b[i]
    }
}

fn key_le(by_kind: bool, a: &(EntityKind, Vec<char>), b: &(EntityKind, Vec<char>)) -> (r: bool)
    ensures
        r == (if by_kind && a.0 != b.0 {
            kind_lt(a.0, b.0)
        } else {
            seq_le(a.1@, b.1@)
        }),
{
    if by_kind && a.0 != b.0 {
        a.0.precedes(&b.0)
    } else {
        chars_le(&a.1, &b.1)
    }
}

impl Entities {
    /// All entities, sorted by `entity_le(by_kind, ..)`; equal keys keep the order of
    /// insertion.
    fn sorted_refs(&self, by_kind: bool) -> (r: Vec<&Entity>)
        requires
            self.wf(),
        ensures
            refs_view(r@).to_multiset() == entity_views(self.entries()).to_multiset(),
            sorted_by(by_kind, refs_view(r@)),
    {
        broadcast use vstd::seq_lib::to_multiset_insert, vstd::seq_lib::to_multiset_build;

        let mut r: Vec<&Entity> = Vec::new();
        let mut keys: Vec<(EntityKind, Vec<char>)> = Vec::new();
        let mut k: usize = 0;
        assert(entity_views(self.entries()).take(0) =~= Seq::<EntityView>::empty());
        assert(refs_view(r@) =~= Seq::<EntityView>::empty());
        while k < self.contents.len()
            invariant
                0 <= k <= self.contents@.len(),
                keys@.len() == r@.len(),
                forall|i: int|
                    0 <= i < r@.len() ==> #[trigger] keys@[i].0 == r@[i]@.kind && keys@[i].1@
                        == name_key(r@[i]@),
                refs_view(r@).to_multiset() == entity_views(self.entries()).take(
                    k as int,
                ).to_multiset(),
                sorted_by(by_kind, refs_view(r@)),
            decreases self.contents@.len() - k,
        {
            let e = &self.contents[k].1;
            let lower = to_lowercase(e.identifier().as_str());
            let key = (e.kind(), chars_of(lower.as_str()));
            let mut p: usize = 0;
            while p < keys.len() && key_le(by_kind, &keys[p], &key)
                invariant
                    0 <= p <= keys@.len(),
                    keys@.len() == r@.len(),
                    key.0 == e@.kind,
                    key.1@ == name_key(e@),
                    forall|i: int|
                        0 <= i < r@.len() ==> #[trigger] keys@[i].0 == r@[i]@.kind && keys@[i].1@
                            == name_key(r@[i]@),
                    forall|i: int| 0 <= i < p ==> entity_le(by_kind, #[trigger] r@[i]@, e@),
                decreases keys@.len() - p,
            {
                assert(keys@[p as int].0 == r@[p as int]@.kind);
                p = p + 1;
            }
            let ghost old_r = r@;
            let ghost old_views = refs_view(r@);
            proof {
                if p < keys@.len() {
                    assert(keys@[p as int].0 == r@[p as int]@.kind);
                    assert(!entity_le(by_kind, r@[p as int]@, e@));
                    lemma_entity_le_total(by_kind, r@[p as int]@, e@);
                }
            }
            r.insert(p, e);
            keys.insert(p, key);
            proof {
                assert(refs_view(r@) =~= old_views.insert(p as int, e@));
                assert(entity_views(self.entries()).take(k + 1) =~= entity_views(
                    self.entries(),
                ).take(k as int).push(e@));
                vstd::seq_lib::to_multiset_insert(old_views, p as int, e@);
                vstd::seq_lib::to_multiset_build(entity_views(self.entries()).take(k as int), e@);
                assert forall|i: int, j: int| 0 <= i < j < refs_view(r@).len() implies entity_le(
                    by_kind,
                    refs_view(r@)[i],
                    refs_view(r@)[j],
                ) by {
                    let v = refs_view(r@);
                    if j < p {
                        assert(v[i] == old_views[i] && v[j] == old_views[j]);
                    } else if j == p {
                        assert(v[i] == old_r[i]@);
                    } else if i == p {
                        assert(v[j] == old_views[j - 1]);
                        if j - 1 > p {
                            assert(entity_le(by_kind, old_views[p as int], old_views[j - 1]));
                            lemma_entity_le_trans(by_kind, e@, old_views[p as int], old_views[j - 1]);
                        }
                    } else if i < p {
                        assert(v[i] == old_views[i] && v[j] == old_views[j - 1]);
                    } else {
                        assert(v[i] == old_views[i - 1] && v[j] == old_views[j - 1]);
                    }
                }
            }
            k = k + 1;
        }
        assert(entity_views(self.entries()).take(k as int) =~= entity_views(self.entries()));
        r
    }

    /// All entities, sorted by lowercase identifier.
    pub fn as_sorted_vec(&self) -> (r: Vec<&Entity>)
        requires
            self.wf(),
        ensures
            refs_view(r@).to_multiset() == entity_views(self.entries()).to_multiset(),
            sorted_by(false, refs_view(r@)),
    {
        self.sorted_refs(false)
    }

    /// The entities in groups of one kind each, the groups in the order of kinds and each
    /// group sorted by lowercase identifier.
    pub fn as_grouped_vec(&self) -> (r: Vec<(EntityKind, Vec<&Entity>)>)
        requires
            self.wf(),
        ensures
            grouped_as(groups_view(r@), self.entries()),
    {
        let sorted = self.sorted_refs(true);
        let ghost sv = refs_view(sorted@);
        let mut result: Vec<(EntityKind, Vec<&Entity>)> = Vec::new();
        let mut cur: Vec<&Entity> = Vec::new();
        let mut curkind: Option<EntityKind> = None;
        let mut k: usize = 0;
        assert(sv.take(0) =~= Seq::<EntityView>::empty());
        assert(concat_groups(groups_view(result@)) + refs_view(cur@) =~= Seq::<EntityView>::empty());
        while k < sorted.len()
            invariant
                0 <= k <= sorted@.len(),
                sv == refs_view(sorted@),
                sorted_by(true, sv),
                concat_groups(groups_view(result@)) + refs_view(cur@) == sv.take(k as int),
                curkind is None ==> k == 0 && cur@.len() == 0 && result@.len() == 0,
                curkind matches Some(ck) ==> cur@.len() > 0 && forall|m: int|
                    0 <= m < cur@.len() ==> (#[trigger] cur@[m])@.kind == ck,
                curkind matches Some(ck) ==> k > 0 && sv[k - 1].kind == ck,
                sorted_by(false, refs_view(cur@)),
                forall|i: int|
                    0 <= i < result@.len() ==> #[trigger] groups_view(result@)[i].1.len() > 0
                        && forall|m: int|
                        0 <= m < groups_view(result@)[i].1.len() ==> #[trigger] groups_view(
                            result@,
                        )[i].1[m].kind == groups_view(result@)[i].0,
                forall|i: int, j: int|
                    0 <= i < j < result@.len() ==> kind_lt(
                        #[trigger] groups_view(result@)[i].0,
                        #[trigger] groups_view(result@)[j].0,
                    ),
                forall|i: int|
                    0 <= i < result@.len() ==> sorted_by(false, #[trigger] groups_view(result@)[i].1),
                curkind matches Some(ck) ==> forall|i: int|
                    0 <= i < result@.len() ==> kind_lt(#[trigger] groups_view(result@)[i].0, ck),
            decreases sorted@.len() - k,
        {
            let e = sorted[k];
            let ek = e.kind();
            let ghost old_result = result@;
            let ghost old_cur = cur@;
            match curkind {
                Some(ck) => {
                    if ek != ck {
                        proof {
                            assert(entity_le(true, sv[k - 1], sv[k as int]));
                        }
                        let mut done: Vec<&Entity> = Vec::new();
                        std::mem::swap(&mut done, &mut cur);
                        result.push((ck, done));
                        curkind = Some(ek);
                        proof {
                            assert(groups_view(result@) =~= groups_view(old_result).push(
                                (ck, refs_view(old_cur)),
                            ));
                            assert(groups_view(result@).drop_last() =~= groups_view(old_result));
                            assert forall|i: int|
                                0 <= i < result@.len() implies kind_lt(
                                #[trigger] groups_view(result@)[i].0,
                                ek,
                            ) by {
                                if i < old_result.len() {
                                    assert(groups_view(result@)[i] == groups_view(old_result)[i]);
                                    lemma_kind_key_injective(ck, ek);
                                }
                            }
                            assert forall|i: int|
                                0 <= i < result@.len() implies #[trigger] groups_view(
                                result@,
                            )[i].1.len() > 0 && forall|m: int|
                                0 <= m < groups_view(result@)[i].1.len() ==> #[trigger] groups_view(
                                    result@,
                                )[i].1[m].kind == groups_view(result@)[i].0 by {
                                if i < old_result.len() {
                                    assert(groups_view(result@)[i] == groups_view(old_result)[i]);
                                }
                            }
                            assert forall|i: int, j: int|
                                0 <= i < j < result@.len() implies kind_lt(
                                #[trigger] groups_view(result@)[i].0,
                                #[trigger] groups_view(result@)[j].0,
                            ) by {
                                assert(groups_view(result@)[i] == groups_view(old_result)[i]);
                                if j < old_result.len() {
                                    assert(groups_view(result@)[j] == groups_view(old_result)[j]);
                                }
                            }
                            assert forall|i: int|
                                0 <= i < result@.len() implies sorted_by(
                                false,
                                #[trigger] groups_view(result@)[i].1,
                            ) by {
                                if i < old_result.len() {
                                    assert(groups_view(result@)[i] == groups_view(old_result)[i]);
                                }
                            }
                        }
                    }
                },
                None => {
                    curkind = Some(ek);
                },
            }
            let ghost mid_cur = cur@;
            cur.push(e);
            proof {
                assert(refs_view(cur@) =~= refs_view(mid_cur).push(e@));
                assert(sv.take(k + 1) =~= sv.take(k as int).push(sv[k as int]));
                assert(sv[k as int] == e@);
                assert forall|i: int, j: int| 0 <= i < j < refs_view(cur@).len() implies entity_le(
                    false,
                    refs_view(cur@)[i],
                    refs_view(cur@)[j],
                ) by {
                    if j < mid_cur.len() {
                        assert(refs_view(cur@)[i] == refs_view(mid_cur)[i]);
                        assert(refs_view(cur@)[j] == refs_view(mid_cur)[j]);
                    } else {
                        // both in the same kind: the global order is the name order there
                        let off = k - mid_cur.len();
                        assert(sv.take(k as int)[off + i] == refs_view(mid_cur)[i]) by {
                            assert(sv.take(k as int) == concat_groups(groups_view(result@))
                                + refs_view(mid_cur));
                        }
                        assert(entity_le(true, sv[off + i], sv[k as int]));
                        assert(refs_view(cur@)[i] == refs_view(mid_cur)[i]);
                        assert(refs_view(mid_cur)[i].kind == ek);
                    }
                }
                assert(concat_groups(groups_view(result@)) + refs_view(cur@) =~= sv.take(k + 1));
            }
            k = k + 1;
        }
        if let Some(ck) = curkind {
            let ghost old_result = result@;
            let ghost old_cur = cur@;
            result.push((ck, cur));
            proof {
                assert(groups_view(result@) =~= groups_view(old_result).push((ck, refs_view(old_cur))));
                assert(groups_view(result@).drop_last() =~= groups_view(old_result));
                assert forall|i: int|
                    0 <= i < result@.len() implies #[trigger] groups_view(result@)[i].1.len() > 0
                    && forall|m: int|
                    0 <= m < groups_view(result@)[i].1.len() ==> #[trigger] groups_view(
                        result@,
                    )[i].1[m].kind == groups_view(result@)[i].0 by {
                    if i < old_result.len() {
                        assert(groups_view(result@)[i] == groups_view(old_result)[i]);
                    }
                }
                assert forall|i: int, j: int|
                    0 <= i < j < result@.len() implies kind_lt(
                    #[trigger] groups_view(result@)[i].0,
                    #[trigger] groups_view(result@)[j].0,
                ) by {
                    assert(groups_view(result@)[i] == groups_view(old_result)[i]);
                    if j < old_result.len() {
                        assert(groups_view(result@)[j] == groups_view(old_result)[j]);
                    }
                }
                assert forall|i: int|
                    0 <= i < result@.len() implies sorted_by(false, #[trigger] groups_view(result@)[i].1) by {
                    if i < old_result.len() {
                        assert(groups_view(result@)[i] == groups_view(old_result)[i]);
                    }
                }
            }
        }
        assert(sv.take(sorted@.len() as int) =~= sv);
        result
    }

    /// The sum of the balances of `curr` over all entities, if it fits in a `u32`.
    pub fn checked_currency_total(&self, curr: Currency) -> (r: Option<u32>)
        requires
            self.wf(),
        ensures
            match r {
                Some(t) => t == self.total(curr),
                None => self.total(curr) > u32::MAX,
            },
    {
        let mut sum: u64 = 0;
        let mut k: usize = 0;
        while k < self.contents.len()
            invariant
                0 <= k <= self.contents@.len(),
                sum as int == entries_total(self.entries().take(k as int), curr),
                sum <= u32::MAX,
            decreases self.contents@.len() - k,
        {
            let b = self.contents[k].1.balance(curr);
            proof {
                assert(self.entries().take(k + 1).drop_last() =~= self.entries().take(k as int));
                lemma_total_prefix_bounded(self.entries(), k as int + 1, curr);
            }
            sum = sum + b as u64;
            if sum > 0xffff_ffff {
                proof { lemma_total_prefix_bounded(self.entries(), self.entries().len() as int, curr); }
                assert(self.entries().take(self.entries().len() as int) =~= self.entries());
                proof { lemma_total_monotone(self.entries(), k as int + 1, curr); }
                return None;
            }
            k = k + 1;
        }
        assert(self.entries().take(k as int) =~= self.entries());
        Some(sum as u32)
    }

    /// The sum of the balances of `curr` over all entities.
    pub fn currency_total(&self, curr: Currency) -> (r: u32)
        requires
            self.wf(),
            self.total(curr) <= u32::MAX,
        ensures
            r == self.total(curr),
    {
        match self.checked_currency_total(curr) {
            Some(t) => t,
            None => 0,
        }
    }
}

pub proof fn lemma_total_prefix_bounded(s: EntriesView, k: int, c: Currency)
    requires
        0 <= k <= s.len(),
    ensures
        entries_total(s.take(k), c) >= 0,
    decreases k,
{
    if k > 0 {
        assert(s.take(k).drop_last() =~= s.take(k - 1));
        lemma_total_prefix_bounded(s, k - 1, c);
    }
}

pub proof fn lemma_total_monotone(s: EntriesView, k: int, c: Currency)
    requires
        0 <= k <= s.len(),
    ensures
        entries_total(s.take(k), c) <= entries_total(s, c),
    decreases s.len() - k,
{
    if k < s.len() {
        lemma_total_monotone(s, k + 1, c);
        assert(s.take(k + 1).drop_last() =~= s.take(k));
    } else {
        assert(s.take(k) =~= s);
    }
}

} // verus!
