//! The day-by-day samples that the charts draw.

use vstd::multiset::Multiset;
use vstd::prelude::*;

use crate::clock::{add_days, chrono_after, chrono_days, days_between, Date};
use crate::model::entities::{chars_le, lemma_seq_le_total, lemma_seq_le_trans, seq_le};
use crate::parser::command::{Command, CommandView};
use crate::text::{chars_of, lowercase, same_text, to_lowercase};

verus! {

/// A value on a day.
pub type Sample = (Date, u32);

/// For each `k` from `first` up to `first + count - 1`, the day `k` days after `start`
/// (where the calendar has one) with the value `v`.
pub open spec fn days_span(start: Date, first: nat, count: nat, v: u32) -> Seq<Sample>
    decreases count,
{
    if count == 0 {
        Seq::empty()
    } else {
        days_span(start, first, (count - 1) as nat, v) + match chrono_after(
            start,
            (first + count - 1) as nat,
        ) {
            Some(d) => seq![(d, v)],
            None => Seq::empty(),
        }
    }
}

/// The days from `a` up to `b`, `b` not counted.
pub open spec fn days_before(a: Date, b: Date) -> nat {
    match chrono_days(a, b) {
        Some(n) => if n > 0 {
            n as nat
        } else {
            0
        },
        None => 0,
    }
}

/// The days from `a` up to `b`, `b` counted.
pub open spec fn days_through(a: Date, b: Date) -> nat {
    match chrono_days(a, b) {
        Some(n) => if n >= 0 {
            (n + 1) as nat
        } else {
            0
        },
        None => 0,
    }
}

/// The number of days from `a` up to `b`, `b` not counted.
pub fn days_before_count(a: Date, b: Date) -> (r: u64)
    ensures
        r == days_before(a, b),
        r <= 200_000_000,
{
    match days_between(a, b) {
        Some(n) => if n > 0 {
            n as u64
        } else {
            0
        },
        None => 0,
    }
}

/// The number of days from `a` up to `b`, `b` counted.
pub fn days_through_count(a: Date, b: Date) -> (r: u64)
    ensures
        r == days_through(a, b),
        r <= 200_000_001,
{
    match days_between(a, b) {
        Some(n) => if n >= 0 {
            n as u64 + 1
        } else {
            0
        },
        None => 0,
    }
}

/// Appends the samples `days_span(start, first, count, val)`.
pub fn push_days_span(v: &mut Vec<Sample>, start: Date, first: u64, count: u64, val: u32)
    requires
        first + count <= u64::MAX,
    ensures
        final(v)@ == old(v)@ + days_span(start, first as nat, count as nat, val),
{
    let mut k: u64 = 0;
    while k < count
        invariant
            0 <= k <= count,
            first + count <= u64::MAX,
            v@ == old(v)@ + days_span(start, first as nat, k as nat, val),
        decreases count - k,
    {
        match add_days(start, first + k) {
            Some(d) => {
                v.push((d, val));
            },
            None => {},
        }
        k = k + 1;
        assert(v@ =~= old(v)@ + days_span(start, first as nat, k as nat, val));
    }
}

/// The samples of the coin total while the logs are entered: for each line entered, with
/// the ledger's date before and after it and the total after it, one sample per day
/// passed, each dated the day after.
pub open spec fn step_samples(steps: Seq<(Date, Date, u32)>) -> Seq<Sample>
    decreases steps.len(),
{
    if steps.len() == 0 {
        Seq::empty()
    } else {
        let s = steps.last();
        step_samples(steps.drop_last()) + days_span(s.0, 1, days_before(s.0, s.1), s.2)
    }
}

/// The coin history: the samples of the steps, then the final total for each day from
/// the ledger's last date `last` up to the end `end`, each dated the day after.
pub open spec fn coin_history_spec(
    steps: Seq<(Date, Date, u32)>,
    last: Date,
    end: Date,
    final_total: u32,
) -> Seq<Sample> {
    step_samples(steps) + days_span(last, 1, days_through(last, end), final_total)
}

/// The largest total after any step, or zero.
pub open spec fn max_total(steps: Seq<(Date, Date, u32)>) -> u32
    decreases steps.len(),
{
    if steps.len() == 0 {
        0
    } else {
        let m = max_total(steps.drop_last());
        if steps.last().2 > m {
            steps.last().2
        } else {
            m
        }
    }
}

/// The coin history, as `coin_history_spec` gives it.
pub fn coin_history(steps: &Vec<(Date, Date, u32)>, last: Date, end: Date, final_total: u32) -> (r:
    Vec<Sample>)
    ensures
        r@ == coin_history_spec(steps@, last, end, final_total),
{
    let mut v: Vec<Sample> = Vec::new();
    let mut i: usize = 0;
    assert(steps@.take(0) =~= Seq::<(Date, Date, u32)>::empty());
    while i < steps.len()
        invariant
            0 <= i <= steps@.len(),
            v@ == step_samples(steps@.take(i as int)),
        decreases steps@.len() - i,
    {
        let (a, b, t) = steps[i];
        let n = days_before_count(a, b);
        push_days_span(&mut v, a, 1, n, t);
        assert(steps@.take(i + 1).drop_last() =~= steps@.take(i as int));
        i = i + 1;
    }
    assert(steps@.take(i as int) =~= steps@);
    let n = days_through_count(last, end);
    push_days_span(&mut v, last, 1, n, final_total);
    v
}

/// The largest total after any step, or zero.
pub fn max_total_of(steps: &Vec<(Date, Date, u32)>) -> (r: u32)
    ensures
        r == max_total(steps@),
{
    let mut m: u32 = 0;
    let mut i: usize = 0;
    assert(steps@.take(0) =~= Seq::<(Date, Date, u32)>::empty());
    while i < steps.len()
        invariant
            0 <= i <= steps@.len(),
            m == max_total(steps@.take(i as int)),
        decreases steps@.len() - i,
    {
        assert(steps@.take(i + 1).drop_last() =~= steps@.take(i as int));
        if steps[i].2 > m {
            m = steps[i].2;
        }
        i = i + 1;
    }
    assert(steps@.take(i as int) =~= steps@);
    m
}

// ---------------------------------------------------------------------------
// The holders' chart
// ---------------------------------------------------------------------------

/// An entity's samples: its name, those taken while the logs were entered, and those of
/// the days after the last line.
pub type TrackView = (Seq<char>, Seq<Sample>, Seq<Sample>);

/// The view of an entity's samples.
pub open spec fn track_view(t: (String, Vec<Sample>, Vec<Sample>)) -> TrackView {
    (t.0@, t.1@, t.2@)
}

/// The views of the samples of several entities.
pub open spec fn tracks_view(ts: Seq<(String, Vec<Sample>, Vec<Sample>)>) -> Seq<TrackView> {
    ts.map_values(|t: (String, Vec<Sample>, Vec<Sample>)| track_view(t))
}

/// Some sample of `s` is above `limit`.
pub open spec fn exceeds(s: Seq<Sample>, limit: u32) -> bool {
    exists|i: int| 0 <= i < s.len() && #[trigger] s[i].1 > limit
}

/// An entity is charted where it held over 1800 coins while the logs were entered, and
/// some coins at some time.
pub open spec fn charted(t: TrackView) -> bool {
    exceeds(t.1, 1800) && exceeds(t.1 + t.2, 0)
}

/// The charted entities of `ts`, each with all its samples.
pub open spec fn selected(ts: Seq<TrackView>) -> Seq<(Seq<char>, Seq<Sample>)>
    decreases ts.len(),
{
    if ts.len() == 0 {
        Seq::empty()
    } else {
        selected(ts.drop_last()) + if charted(ts.last()) {
            seq![(ts.last().0, ts.last().1 + ts.last().2)]
        } else {
            Seq::empty()
        }
    }
}

/// In the order of lowercase names.
pub open spec fn by_name(s: Seq<(Seq<char>, Seq<Sample>)>) -> bool {
    forall|i: int, j: int|
        0 <= i < j < s.len() ==> seq_le(lowercase(#[trigger] s[i].0), lowercase(#[trigger] s[j].0))
}

/// The view of the chart's lines: each entity's name and samples.
pub open spec fn lines_view(v: Seq<(String, Vec<Sample>)>) -> Seq<(Seq<char>, Seq<Sample>)> {
    v.map_values(|l: (String, Vec<Sample>)| (l.0@, l.1@))
}

/// Some sample of `s` is above `limit`.
fn any_above(s: &Vec<Sample>, limit: u32) -> (r: bool)
    ensures
        r == exceeds(s@, limit),
{
    let mut i: usize = 0;
    while i < s.len()
        invariant
            0 <= i <= s@.len(),
            forall|j: int| 0 <= j < i ==> #[trigger] s@[j].1 <= limit,
        decreases s@.len() - i,
    {
        if s[i].1 > limit {
            return true;
        }
        i = i + 1;
    }
    false
}

/// The entities to chart, each with all its samples in order, sorted by lowercase name.
pub fn notable(tracks: Vec<(String, Vec<Sample>, Vec<Sample>)>) -> (r: Vec<(String, Vec<Sample>)>)
    ensures
        lines_view(r@).to_multiset() == selected(tracks_view(tracks@)).to_multiset(),
        by_name(lines_view(r@)),
{
    broadcast use {
        vstd::seq_lib::group_to_multiset_ensures,
        vstd::multiset::group_multiset_axioms,
        vstd::multiset::lemma_multiset_empty_len,
    };

    let ghost all = tracks_view(tracks@);
    let mut rest = tracks;
    let mut r: Vec<(String, Vec<Sample>)> = Vec::new();
    let mut keys: Vec<Vec<char>> = Vec::new();
    assert(lines_view(r@) =~= Seq::<(Seq<char>, Seq<Sample>)>::empty());
    assert(tracks_view(rest@) == all);
    assert(selected(all).to_multiset() =~= selected(all).to_multiset().add(
        lines_view(r@).to_multiset(),
    ));
    while rest.len() > 0
        invariant
            selected(all).to_multiset() == selected(tracks_view(rest@)).to_multiset().add(
                lines_view(r@).to_multiset(),
            ),
            keys@.len() == r@.len(),
            forall|i: int| 0 <= i < r@.len() ==> #[trigger] keys@[i]@ == lowercase(r@[i].0@),
            by_name(lines_view(r@)),
        decreases rest@.len(),
    {
        let ghost before = tracks_view(rest@);
        let t = rest.pop().unwrap();
        assert(before.drop_last() =~= tracks_view(rest@));
        assert(before.last() == track_view(t));
        let (name, steps, after) = t;
        let keep = any_above(&steps, 1800) && (any_above(&steps, 0) || any_above(&after, 0));
        proof {
            if exceeds(steps@, 0) {
                let i = choose|i: int| 0 <= i < steps@.len() && #[trigger] steps@[i].1 > 0;
                assert((steps@ + after@)[i] == steps@[i]);
            }
            if exceeds(after@, 0) {
                let i = choose|i: int| 0 <= i < after@.len() && #[trigger] after@[i].1 > 0;
                assert((steps@ + after@)[steps@.len() + i] == after@[i]);
            }
            if exceeds(steps@ + after@, 0) {
                let i = choose|i: int| 0 <= i < (steps@ + after@).len() && #[trigger] (steps@
                    + after@)[i].1 > 0;
                if i < steps@.len() {
                    assert(steps@[i] == (steps@ + after@)[i]);
                } else {
                    assert(after@[i - steps@.len()] == (steps@ + after@)[i]);
                }
            }
        }
        let ghost x = (name@, steps@ + after@);
        let ghost opt = if keep {
            seq![x]
        } else {
            Seq::empty()
        };
        let ghost old_lines = lines_view(r@);
        proof {
            assert(keep == charted(before.last()));
            assert(selected(before) == selected(tracks_view(rest@)) + opt);
            vstd::seq_lib::lemma_multiset_commutative(selected(tracks_view(rest@)), opt);
            let e = Seq::<(Seq<char>, Seq<Sample>)>::empty();
            vstd::seq_lib::to_multiset_len(e);
            vstd::seq_lib::to_multiset_build(e, x);
            assert(e.to_multiset() =~= Multiset::empty());
            if keep {
                assert(opt =~= e.push(x));
                assert(opt.to_multiset() =~= Multiset::empty().insert(x));
            } else {
                assert(opt.to_multiset() =~= Multiset::empty());
            }
        }
        if keep {
            let mut samples = steps;
            let mut tail = after;
            let ghost s0 = samples@;
            let ghost t0 = tail@;
            samples.append(&mut tail);
            assert(samples@ == s0 + t0);
            let lower = to_lowercase(name.as_str());
            let key = chars_of(lower.as_str());
            let mut p: usize = 0;
            while p < keys.len() && chars_le(&keys[p], &key)
                invariant
                    0 <= p <= keys@.len(),
                    keys@.len() == r@.len(),
                    key@ == lowercase(name@),
                    forall|i: int| 0 <= i < r@.len() ==> #[trigger] keys@[i]@ == lowercase(r@[i].0@),
                    forall|i: int| 0 <= i < p ==> seq_le(lowercase(#[trigger] r@[i].0@), key@),
                decreases keys@.len() - p,
            {
                p = p + 1;
            }
            let ghost old_r = lines_view(r@);
            proof {
                if p < keys@.len() {
                    assert(keys@[p as int]@ == lowercase(r@[p as int].0@));
                    assert(!seq_le(lowercase(r@[p as int].0@), key@));
                    lemma_seq_le_total(lowercase(r@[p as int].0@), key@);
                }
            }
            r.insert(p, (name, samples));
            keys.insert(p, key);
            proof {
                let nl = (name@, s0 + t0);
                assert(lines_view(r@) =~= old_r.insert(p as int, nl));
                assert(nl == x);
                assert(old_r == old_lines);
                assert(p <= old_r.len());
                vstd::seq_lib::to_multiset_insert(old_r, p as int, nl);
                assert forall|i: int, j: int| 0 <= i < j < lines_view(r@).len() implies seq_le(
                    lowercase(#[trigger] lines_view(r@)[i].0),
                    lowercase(#[trigger] lines_view(r@)[j].0),
                ) by {
                    let v = lines_view(r@);
                    if j < p {
                        assert(v[i] == old_r[i] && v[j] == old_r[j]);
                    } else if j == p {
                        assert(v[i] == old_r[i]);
                    } else if i == p {
                        assert(v[j] == old_r[j - 1]);
                        if j - 1 > p {
                            assert(seq_le(lowercase(old_r[p as int].0), lowercase(old_r[j - 1].0)));
                            lemma_seq_le_trans(
                                lowercase(nl.0),
                                lowercase(old_r[p as int].0),
                                lowercase(old_r[j - 1].0),
                            );
                        }
                    } else if i < p {
                        assert(v[i] == old_r[i] && v[j] == old_r[j - 1]);
                    } else {
                        assert(v[i] == old_r[i - 1] && v[j] == old_r[j - 1]);
                    }
                }
                assert forall|i: int| 0 <= i < r@.len() implies #[trigger] keys@[i]@ == lowercase(
                    r@[i].0@,
                ) by {
                    if i < p {
                    } else if i > p {
                    }
                }
            }
        }
        proof {
            if keep {
                assert(lines_view(r@).to_multiset() == old_lines.to_multiset().insert(x));
            } else {
                assert(lines_view(r@) == old_lines);
            }
            assert(selected(all).to_multiset() =~= selected(tracks_view(rest@)).to_multiset().add(
                lines_view(r@).to_multiset(),
            ));
        }
    }
    assert(tracks_view(rest@) =~= Seq::<TrackView>::empty());
    assert(selected(all).to_multiset() =~= lines_view(r@).to_multiset());
    r
}


// ---------------------------------------------------------------------------
// Which entities the holders' chart samples
// ---------------------------------------------------------------------------

/// The entities that the holders' chart follows, in the order they came, each with
/// whether it is still sampled (it is, until it is deregistered).
pub open spec fn tracked_view(t: Seq<(String, bool)>) -> Seq<(Seq<char>, bool)> {
    t.map_values(|e: (String, bool)| (e.0@, e.1))
}

/// `id` is followed.
pub open spec fn follows(t: Seq<(Seq<char>, bool)>, id: Seq<char>) -> bool {
    exists|i: int| 0 <= i < t.len() && #[trigger] t[i].0 == id
}

/// An entity starts to be followed, unless it already is.
pub open spec fn follow_spec(t: Seq<(Seq<char>, bool)>, id: Seq<char>) -> Seq<(Seq<char>, bool)> {
    if follows(t, id) {
        t
    } else {
        t.push((id, true))
    }
}

/// What a command of a log does to the followed entities: a new contract or player is
/// followed, a deregistered entity is no longer sampled; nothing else changes them.
pub open spec fn track_spec(t: Seq<(Seq<char>, bool)>, c: CommandView) -> Seq<(Seq<char>, bool)> {
    match c {
        CommandView::NewContract(id, _) => follow_spec(t, id),
        CommandView::NewPlayer(id, _) => follow_spec(t, id),
        CommandView::Deregister(id) => t.map_values(
            |e: (Seq<char>, bool)| if e.0 == id {
                (e.0, false)
            } else {
                e
            },
        ),
        _ => t,
    }
}

/// The entity that a command names and that must already be followed: the one
/// deregistered, activated or deactivated.
pub open spec fn named_entity(c: CommandView) -> Option<Seq<char>> {
    match c {
        CommandView::Deregister(id) => Some(id),
        CommandView::Activate(id) => Some(id),
        CommandView::Deactivate(id) => Some(id),
        _ => None,
    }
}

/// Whether `id` is followed.
pub fn is_followed(t: &Vec<(String, bool)>, id: &str) -> (r: bool)
    ensures
        r == follows(tracked_view(t@), id@),
{
    let mut i: usize = 0;
    while i < t.len()
        invariant
            0 <= i <= t@.len(),
            forall|j: int| 0 <= j < i ==> #[trigger] t@[j].0@ != id@,
        decreases t@.len() - i,
    {
        if same_text(t[i].0.as_str(), id) {
            assert(tracked_view(t@)[i as int].0 == id@);
            return true;
        }
        i = i + 1;
    }
    assert forall|j: int| 0 <= j < tracked_view(t@).len() implies #[trigger] tracked_view(t@)[j].0
        != id@ by {
        assert(tracked_view(t@)[j].0 == t@[j].0@);
    }
    false
}

/// Starts to follow `id`, unless it already is followed (an entity of the state file,
/// or a new contract or player).
pub fn follow(t: &mut Vec<(String, bool)>, id: &str)
    ensures
        tracked_view(final(t)@) == follow_spec(tracked_view(old(t)@), id@),
{
    if !is_followed(t, id) {
        let ghost before = t@;
        t.push((id.to_owned(), true));
        assert(tracked_view(t@) =~= tracked_view(before).push((id@, true)));
    }
}

/// What the command `com` does to the followed entities. The entity it names, where it
/// names one to deregister, activate or deactivate, must be followed already.
pub fn track(t: &mut Vec<(String, bool)>, com: &Command)
    requires
        named_entity(com@) matches Some(id) ==> follows(tracked_view(old(t)@), id),
    ensures
        tracked_view(final(t)@) == track_spec(tracked_view(old(t)@), com@),
{
    match com {
        Command::NewContract(id, _) => follow(t, id.as_str()),
        Command::NewPlayer(id, _) => follow(t, id.as_str()),
        Command::Deregister(id) => {
            let ghost before = tracked_view(t@);
            let ghost goal = before.map_values(
                |e: (Seq<char>, bool)| if e.0 == id@ {
                    (e.0, false)
                } else {
                    e
                },
            );
            let mut i: usize = 0;
            while i < t.len()
                invariant
                    0 <= i <= t@.len(),
                    before.len() == t@.len(),
                    goal.len() == t@.len(),
                    goal == before.map_values(
                        |e: (Seq<char>, bool)| if e.0 == id@ {
                            (e.0, false)
                        } else {
                            e
                        },
                    ),
                    forall|j: int| 0 <= j < i ==> #[trigger] tracked_view(t@)[j] == goal[j],
                    forall|j: int| i <= j < t@.len() ==> #[trigger] tracked_view(t@)[j] == before[j],
                decreases t@.len() - i,
            {
                assert(tracked_view(t@)[i as int] == before[i as int]);
                assert(tracked_view(t@)[i as int] == (t@[i as int].0@, t@[i as int].1));
                if same_text(t[i].0.as_str(), id.as_str()) {
                    let name = t[i].0.clone();
                    let ghost prev = t@;
                    t.set(i, (name, false));
                    assert forall|j: int| 0 <= j < t@.len() && j != i implies #[trigger] tracked_view(t@)[j]
                        == tracked_view(prev)[j] by {
                        assert(t@[j] == prev[j]);
                    }
                    assert(tracked_view(t@)[i as int] == (t@[i as int].0@, t@[i as int].1));
                }
                assert(tracked_view(t@)[i as int] == goal[i as int]);
                i = i + 1;
            }
            assert(tracked_view(t@) =~= goal);
        },
        _ => {},
    }
}

} // verus!
