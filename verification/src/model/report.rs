use vstd::prelude::*;

use crate::clock::{chrono_format, format_datetime, min_datetime, min_year, valid_date, valid_datetime, Date, DateTime, Time};
use crate::model::context::{strings_view, Context};
use crate::model::entities::{grouped_as, groups_view, refs_view};
use crate::model::entity::{kind_label, Entity, EntityKind, EntityView};
use crate::model::history::{DatedView, HistoryEntry, HistoryEntryView};
use crate::model::ledger::{flotation_text, ContextView};
use crate::model::unit::{abbr_of, Currency};
use crate::parser::transaction::AtomicView;
use crate::tabulate::{row_add_cell, row_cells, row_new, table_add_heading, table_add_row, table_column_count, table_lines, table_new, table_spec, table_text, tabular_columns, tabular_text, lemma_columns_concat, LineView};
use crate::text::{decimal, pad_center, pad_left, pad_right, push_decimal, push_pad_center, push_pad_left, push_pad_right, push_repeated, push_spaced, push_str, repeated, string_of, underscores_to_spaces};
use crate::words::{wrap_lines, wrapped_lines};

verus! {

// ---------------------------------------------------------------------------
// Asset tables
// ---------------------------------------------------------------------------

/// The table of one kind's entities and what they hold, with footnotes for full names.
#[derive(Debug)]
pub struct AssetTable {
    assets: Vec<Currency>,
    table: tabular::Table,
    footnotes: Vec<String>,
}

pub struct AssetTableView {
    pub assets: Seq<Currency>,
    pub spec: Seq<char>,
    pub lines: Seq<LineView>,
    pub footnotes: Seq<Seq<char>>,
}

impl View for AssetTable {
    type V = AssetTableView;

    closed spec fn view(&self) -> AssetTableView {
        AssetTableView {
            assets: self.assets@,
            spec: table_spec(self.table),
            lines: table_lines(self.table),
            footnotes: strings_view(self.footnotes@),
        }
    }
}

/// The row spec of an asset table with `n` assets: a name column on the left, then one
/// right-aligned column for each asset.
pub open spec fn asset_spec(n: nat) -> Seq<char> {
    " {:<}"@ + repeated("  {:>}"@, n)
}

pub open spec fn title_cell(c: Currency) -> Seq<char> {
    if c == Currency::Coin {
        pad_center(abbr_of(c), 6)
    } else {
        pad_center(abbr_of(c), 4)
    }
}

pub open spec fn bar_cell(c: Currency) -> Seq<char> {
    if c == Currency::Coin {
        "======"@
    } else {
        "===="@
    }
}

/// The heading row: the kind, then each asset's abbreviation, centred.
pub open spec fn title_cells(kind: EntityKind, assets: Seq<Currency>) -> Seq<Seq<char>> {
    seq![pad_center(kind_label(kind), 14)] + assets.map_values(|c: Currency| title_cell(c))
}

/// The row of bars under the heading.
pub open spec fn bar_cells(assets: Seq<Currency>) -> Seq<Seq<char>> {
    seq![repeated("="@, 14)] + assets.map_values(|c: Currency| bar_cell(c))
}

/// The first cell of an entity's row: its identifier with spaces for underscores, then
/// the number `k` of its footnote where it has a full name.
pub open spec fn name_cell(e: EntityView, k: nat) -> Seq<char> {
    pad_right(underscores_to_spaces(e.identifier), 10) + pad_left(
        if e.full_name != e.identifier {
            "["@ + decimal(k) + "]"@
        } else {
            "   "@
        },
        4,
    )
}

/// An entity's row: its name cell, then its balance of each asset.
pub open spec fn entity_cells(e: EntityView, assets: Seq<Currency>, k: nat) -> Seq<Seq<char>> {
    seq![name_cell(e, k)] + assets.map_values(|c: Currency| decimal(e.balance(c) as nat))
}

/// A fresh table for `kind`, where `tabular` takes its row spec with one column for the
/// names and one per asset.
pub open spec fn asset_table_new(assets: Seq<Currency>, kind: EntityKind) -> Option<AssetTableView> {
    if tabular_columns(asset_spec(assets.len())) == Some(assets.len() + 1) {
        Some(
            AssetTableView {
                assets,
                spec: asset_spec(assets.len()),
                lines: seq![(false, title_cells(kind, assets)), (false, bar_cells(assets))],
                footnotes: Seq::empty(),
            },
        )
    } else {
        None
    }
}

/// The table with the row of `e` added.
pub open spec fn with_entity(v: AssetTableView, e: EntityView) -> AssetTableView {
    AssetTableView {
        lines: v.lines.push((false, entity_cells(e, v.assets, v.footnotes.len()))),
        footnotes: if e.full_name != e.identifier {
            v.footnotes.push(e.full_name)
        } else {
            v.footnotes
        },
        ..v
    }
}

pub open spec fn with_entities(v: AssetTableView, es: Seq<EntityView>) -> AssetTableView
    decreases es.len(),
{
    if es.len() == 0 {
        v
    } else {
        with_entity(with_entities(v, es.drop_last()), es.last())
    }
}

/// Lines joined with newlines between them.
pub open spec fn joined_lines(ls: Seq<Seq<char>>) -> Seq<char>
    decreases ls.len(),
{
    if ls.len() == 0 {
        Seq::empty()
    } else if ls.len() == 1 {
        ls[0]
    } else {
        joined_lines(ls.drop_last()) + "\n"@ + ls.last()
    }
}

/// The footnotes, each `k. name` wrapped at 72 columns with later lines indented.
pub open spec fn footnotes_text(f: Seq<Seq<char>>) -> Seq<char>
    decreases f.len(),
{
    if f.len() == 0 {
        Seq::empty()
    } else {
        footnotes_text(f.drop_last()) + joined_lines(
            wrapped_lines(f.last(), 72, decimal((f.len() - 1) as nat) + ". "@, "   "@),
        ) + "\n"@
    }
}

/// The text of an asset table: the table, then its footnotes where there are any.
pub open spec fn asset_table_text(v: AssetTableView) -> Seq<char> {
    if v.footnotes.len() == 0 {
        tabular_text(v.spec, v.lines)
    } else {
        tabular_text(v.spec, v.lines) + "\n"@ + footnotes_text(v.footnotes)
    }
}

fn push_joined(v: &mut Vec<char>, ls: &Vec<String>)
    ensures
        final(v)@ == old(v)@ + joined_lines(ls@.map_values(|s: String| s@)),
{
    let ghost lv = ls@.map_values(|s: String| s@);
    let mut k: usize = 0;
    assert(lv.take(0) =~= Seq::<Seq<char>>::empty());
    while k < ls.len()
        invariant
            0 <= k <= ls@.len(),
            lv == ls@.map_values(|s: String| s@),
            v@ == old(v)@ + joined_lines(lv.take(k as int)),
        decreases ls@.len() - k,
    {
        let ghost before = v@;
        assert(lv.take(k + 1).drop_last() =~= lv.take(k as int));
        if k > 0 {
            push_str(v, "\n");
        }
        push_str(v, ls[k].as_str());
        proof {
            if k == 0 {
                assert(lv.take(1) =~= seq![lv[0]]);
            }
        }
        assert(v@ =~= old(v)@ + joined_lines(lv.take(k + 1)));
        k = k + 1;
    }
    assert(lv.take(k as int) =~= lv);
}

impl AssetTable {
    /// The columns of the table hold one name and one balance per asset.
    pub closed spec fn wf(&self) -> bool {
        tabular_columns(table_spec(self.table)) == Some(self.assets@.len() + 1)
    }

    /// A table for the entities of `kind`, headed by the kind and the assets'
    /// abbreviations. The row spec is checked against what `tabular` makes of it, one
    /// column per cell, which always holds, so the result is always `Some`.
    pub fn new(assets: &[Currency], kind: EntityKind) -> (r: Option<AssetTable>)
        ensures
            r is Some,
            match asset_table_new(assets@, kind) {
                Some(v) => r matches Some(t) && t@ == v && t.wf(),
                None => r is None,
            },
    {
        proof {
            lemma_asset_spec_columns(assets@.len());
        }
        let n = assets.len();
        let mut title = row_new();
        let mut bar = row_new();
        let mut cell: Vec<char> = Vec::new();
        push_pad_center(&mut cell, kind.label().as_str(), 14);
        row_add_cell(&mut title, string_of(cell.as_slice()).as_str());
        let mut cell: Vec<char> = Vec::new();
        push_repeated(&mut cell, "=", 14);
        row_add_cell(&mut bar, string_of(cell.as_slice()).as_str());
        let mut spec: Vec<char> = Vec::new();
        push_str(&mut spec, " {:<}");
        let mut copy: Vec<Currency> = Vec::new();
        let mut i: usize = 0;
        assert(assets@.take(0) =~= Seq::<Currency>::empty());
        assert(row_cells(title) =~= title_cells(kind, assets@.take(0)));
        assert(row_cells(bar) =~= bar_cells(assets@.take(0)));
        while i < n
            invariant
                0 <= i <= n,
                n == assets@.len(),
                copy@ == assets@.take(i as int),
                row_cells(title) == title_cells(kind, assets@.take(i as int)),
                row_cells(bar) == bar_cells(assets@.take(i as int)),
                spec@ == " {:<}"@ + repeated("  {:>}"@, i as nat),
            decreases n - i,
        {
            let c = assets[i];
            let mut t: Vec<char> = Vec::new();
            if c == Currency::Coin {
                push_pad_center(&mut t, c.abbr(), 6);
                row_add_cell(&mut bar, "======");
            } else {
                push_pad_center(&mut t, c.abbr(), 4);
                row_add_cell(&mut bar, "====");
            }
            row_add_cell(&mut title, string_of(t.as_slice()).as_str());
            push_str(&mut spec, "  {:>}");
            copy.push(c);
            assert(assets@.take(i + 1) =~= assets@.take(i as int).push(c));
            assert(row_cells(title) =~= title_cells(kind, assets@.take(i + 1)));
            assert(row_cells(bar) =~= bar_cells(assets@.take(i + 1)));
            assert(spec@ =~= " {:<}"@ + repeated("  {:>}"@, (i + 1) as nat));
            i = i + 1;
        }
        assert(assets@.take(n as int) =~= assets@);
        let spec_text = string_of(spec.as_slice());
        let mut table = match table_new(spec_text.as_str()) {
            Some(t) => t,
            None => {
                return None;
            },
        };
        let cols = table_column_count(&table);
        if cols == 0 || cols - 1 != n {
            return None;
        }
        table_add_row(&mut table, title);
        table_add_row(&mut table, bar);
        let r = AssetTable { assets: copy, table, footnotes: Vec::new() };
        assert(strings_view(r.footnotes@) =~= Seq::<Seq<char>>::empty());
        assert(r@.lines =~= seq![(false, title_cells(kind, assets@)), (false, bar_cells(assets@))]);
        Some(r)
    }

    /// Adds the row of `ent`: its name, a footnote mark where it has a full name, and its
    /// balance of each asset.
    pub fn add_entity(&mut self, ent: &Entity)
        requires
            old(self).wf(),
        ensures
            final(self).wf(),
            final(self)@ == with_entity(old(self)@, ent@),
    {
        let k = self.footnotes.len();
        let mut row = row_new();
        let mut id: Vec<char> = Vec::new();
        push_spaced(&mut id, ent.identifier().as_str());
        let mut cell: Vec<char> = Vec::new();
        push_pad_right(&mut cell, string_of(id.as_slice()).as_str(), 10);
        let has_full = ent.has_full_name();
        let mut mark: Vec<char> = Vec::new();
        if has_full {
            push_str(&mut mark, "[");
            push_decimal(&mut mark, k as u64);
            push_str(&mut mark, "]");
        } else {
            push_str(&mut mark, "   ");
        }
        push_pad_left(&mut cell, string_of(mark.as_slice()).as_str(), 4);
        row_add_cell(&mut row, string_of(cell.as_slice()).as_str());
        let mut i: usize = 0;
        assert(self.assets@.take(0) =~= Seq::<Currency>::empty());
        assert(row_cells(row) =~= seq![name_cell(ent@, k as nat)] + self.assets@.take(0).map_values(
            |c: Currency| decimal(ent@.balance(c) as nat),
        ));
        while i < self.assets.len()
            invariant
                0 <= i <= self.assets@.len(),
                row_cells(row) == seq![name_cell(ent@, k as nat)] + self.assets@.take(
                    i as int,
                ).map_values(|c: Currency| decimal(ent@.balance(c) as nat)),
            decreases self.assets@.len() - i,
        {
            let c = self.assets[i];
            let mut b: Vec<char> = Vec::new();
            push_decimal(&mut b, ent.balance(c) as u64);
            row_add_cell(&mut row, string_of(b.as_slice()).as_str());
            assert(self.assets@.take(i + 1) =~= self.assets@.take(i as int).push(c));
            assert(row_cells(row) =~= seq![name_cell(ent@, k as nat)] + self.assets@.take(
                i + 1,
            ).map_values(|c: Currency| decimal(ent@.balance(c) as nat)));
            i = i + 1;
        }
        assert(self.assets@.take(i as int) =~= self.assets@);
        assert(row_cells(row) == entity_cells(ent@, self.assets@, k as nat));
        table_add_row(&mut self.table, row);
        if has_full {
            let ghost before = self.footnotes@;
            self.footnotes.push(ent.full_name().clone());
            assert(strings_view(self.footnotes@) =~= strings_view(before).push(ent@.full_name));
        }
    }

    /// The table, then its footnotes where there are any (what `Display` shows).
    pub fn text(&self) -> (r: String)
        ensures
            r@ == asset_table_text(self@),
    {
        let t = table_text(&self.table);
        if self.footnotes.len() == 0 {
            return t;
        }
        let mut out: Vec<char> = Vec::new();
        push_str(&mut out, t.as_str());
        push_str(&mut out, "\n");
        let ghost f = strings_view(self.footnotes@);
        let mut i: usize = 0;
        assert(f.take(0) =~= Seq::<Seq<char>>::empty());
        while i < self.footnotes.len()
            invariant
                0 <= i <= self.footnotes@.len(),
                f == strings_view(self.footnotes@),
                out@ == t@ + "\n"@ + footnotes_text(f.take(i as int)),
            decreases self.footnotes@.len() - i,
        {
            let mut indent: Vec<char> = Vec::new();
            push_decimal(&mut indent, i as u64);
            push_str(&mut indent, ". ");
            let lines = wrap_lines(
                self.footnotes[i].as_str(),
                72,
                string_of(indent.as_slice()).as_str(),
                "   ",
            );
            push_joined(&mut out, &lines);
            push_str(&mut out, "\n");
            assert(f.take(i + 1).drop_last() =~= f.take(i as int));
            assert(out@ =~= t@ + "\n"@ + footnotes_text(f.take(i + 1)));
            i = i + 1;
        }
        assert(f.take(i as int) =~= f);
        string_of(out.as_slice())
    }
}

// ---------------------------------------------------------------------------
// History
// ---------------------------------------------------------------------------

/// The row spec of the history: time, agent, sign, amount, currency, comment.
pub open spec fn history_spec() -> Seq<char> {
    "[{:<}] {:<} {:<}{:>}{:<} {:<}"@
}

pub open spec fn day_heading_format() -> Seq<char> {
    "*** %a %-d %B %Y"@
}

pub open spec fn clock_format() -> Seq<char> {
    "%R"@
}

/// A month counted from zero (January is 0).
pub open spec fn month0(m: u32) -> int {
    (m + 11) % 12
}

/// The earliest date that chrono holds.
pub open spec fn earliest_date() -> Date {
    Date { year: min_year() as i32, month: 1, day: 1 }
}

/// Where the history's text stands: the text of the finished days, the day of the table
/// being filled, and that table's spec and lines.
pub struct HistView {
    pub text: Seq<char>,
    pub date: Date,
    pub spec: Seq<char>,
    pub lines: Seq<LineView>,
}

/// The row of a change: time, agent (spaces for underscores) and a colon, sign, size,
/// currency, comment in parentheses.
pub open spec fn change_cells(hm: Seq<char>, t: AtomicView) -> Seq<Seq<char>> {
    seq![
        hm,
        underscores_to_spaces(t.agent) + ":"@,
        if t.amount > 0 {
            "+"@
        } else {
            "-"@
        },
        decimal((if t.amount < 0 {
            -(t.amount as int)
        } else {
            t.amount as int
        }) as nat),
        abbr_of(t.currency),
        "("@ + t.comment + ")"@,
    ]
}

/// One history entry written: a new day starts a new table headed by the date; a change
/// is a row, an event a heading with its time.
pub open spec fn hist_step(st: HistView, e: DatedView) -> Option<HistView> {
    let st1 = if e.datetime.date != st.date {
        match chrono_format(e.datetime, day_heading_format()) {
            Some(head) => if tabular_columns(history_spec()) is Some {
                Some(
                    HistView {
                        text: st.text + tabular_text(st.spec, st.lines),
                        date: e.datetime.date,
                        spec: history_spec(),
                        lines: seq![(true, seq![""@]), (true, seq![head])],
                    },
                )
            } else {
                None
            },
            None => None,
        }
    } else {
        Some(st)
    };
    match st1 {
        None => None,
        Some(s1) => match chrono_format(e.datetime, clock_format()) {
            None => None,
            Some(hm) => match e.entry {
                HistoryEntryView::Transaction(t) => if tabular_columns(s1.spec) == Some(6nat) {
                    Some(HistView { lines: s1.lines.push((false, change_cells(hm, t))), ..s1 })
                } else {
                    None
                },
                HistoryEntryView::Event(m) => Some(
                    HistView { lines: s1.lines.push((true, seq!["["@ + hm + "] "@ + m])), ..s1 },
                ),
            },
        },
    }
}

/// The entries of `h` written from the latest back, up to the first one dated in the month
/// `bm` (counted from zero).
pub open spec fn hist_scan(h: Seq<DatedView>, st: HistView, bm: int) -> Option<HistView>
    decreases h.len(),
{
    if h.len() == 0 {
        Some(st)
    } else if month0(h.last().datetime.date.month) == bm {
        Some(st)
    } else {
        match hist_step(st, h.last()) {
            Some(st2) => hist_scan(h.drop_last(), st2, bm),
            None => None,
        }
    }
}

/// The history's text: the latest entries, newest first, back to those dated in the month
/// before last of the last moment entered.
pub open spec fn history_text(c: ContextView) -> Option<Seq<char>> {
    if tabular_columns(history_spec()) is None {
        None
    } else {
        let bm = (month0(c.max_datetime.date.month) + 9) % 12;
        let st0 = HistView {
            text: Seq::empty(),
            date: earliest_date(),
            spec: history_spec(),
            lines: Seq::empty(),
        };
        match hist_scan(c.history, st0, bm) {
            Some(st) => Some(st.text + tabular_text(st.spec, st.lines)),
            None => None,
        }
    }
}

fn month0_of(m: u32) -> (r: u64)
    ensures
        r == month0(m),
{
    (m as u64 + 11) % 12
}

/// The history's text, as `history_text` gives it.
fn history_string(ctx: &Context) -> (r: Option<String>)
    ensures
        match history_text(ctx@) {
            Some(t) => r matches Some(x) && x@ == t,
            None => r is None,
        },
        history_valid(ctx@.history) ==> r is Some,
{
    proof {
        lemma_history_spec_columns();
    }
    let h = ctx.history();
    let ghost hv = crate::model::context::history_view(h@);
    let mut table = match table_new("[{:<}] {:<} {:<}{:>}{:<} {:<}") {
        Some(t) => t,
        None => {
            return None;
        },
    };
    let mut text: Vec<char> = Vec::new();
    let mut date = min_datetime().date;
    let bm = (month0_of(ctx.max_datetime().date.month) + 9) % 12;
    let ghost st0 = HistView {
        text: Seq::empty(),
        date: earliest_date(),
        spec: history_spec(),
        lines: Seq::empty(),
    };
    let mut i: usize = h.len();
    let mut done = false;
    assert(hv.take(i as int) =~= hv);
    while i > 0 && !done
        invariant
            0 <= i <= h@.len(),
            hv == crate::model::context::history_view(h@),
            hv == ctx@.history,
            bm == (month0(ctx@.max_datetime.date.month) + 9) % 12,
            tabular_columns(history_spec()) == Some(6nat),
            table_spec(table) == history_spec(),
            st0 == (HistView {
                text: Seq::empty(),
                date: earliest_date(),
                spec: history_spec(),
                lines: Seq::empty(),
            }),
            hist_scan(hv, st0, bm as int) == if done {
                Some(
                    HistView {
                        text: text@,
                        date,
                        spec: table_spec(table),
                        lines: table_lines(table),
                    },
                )
            } else {
                hist_scan(
                    hv.take(i as int),
                    HistView { text: text@, date, spec: table_spec(table), lines: table_lines(table) },
                    bm as int,
                )
            },
        decreases i + if done {
            0int
        } else {
            1int
        },
    {
        let e = &h[i - 1];
        let dt = e.datetime();
        let ghost st = HistView { text: text@, date, spec: table_spec(table), lines: table_lines(table) };
        assert(hv[i - 1] == e@);
        assert(history_valid(hv) ==> valid_datetime(dt));
        let ghost hi = hv.take(i as int);
        assert(hi.last() == e@);
        assert(hi.drop_last() =~= hv.take(i - 1));
        if month0_of(dt.date.month) == bm {
            done = true;
        } else {
            if dt.date != date {
                let t = table_text(&table);
                push_str(&mut text, t.as_str());
                let mut fresh = match table_new("[{:<}] {:<} {:<}{:>}{:<} {:<}") {
                    Some(t) => t,
                    None => {
                        return None;
                    },
                };
                let head = match format_datetime(dt, "*** %a %-d %B %Y") {
                    Some(x) => x,
                    None => {
                        assert(hist_step(st, e@) is None);
                        assert(hist_scan(hi, st, bm as int) is None);
                        return None;
                    },
                };
                table_add_heading(&mut fresh, "");
                table_add_heading(&mut fresh, head.as_str());
                table = fresh;
                date = dt.date;
                assert(table_lines(table) =~= seq![(true, seq![""@]), (true, seq![head@])]);
            }
            let hm = match format_datetime(dt, "%R") {
                Some(x) => x,
                None => {
                    assert(hist_step(st, e@) is None);
                    assert(hist_scan(hi, st, bm as int) is None);
                    return None;
                },
            };
            match e.entry() {
                HistoryEntry::Transaction(t) => {
                    let mut row = row_new();
                    row_add_cell(&mut row, hm.as_str());
                    let mut agent: Vec<char> = Vec::new();
                    push_spaced(&mut agent, t.agent());
                    push_str(&mut agent, ":");
                    row_add_cell(&mut row, string_of(agent.as_slice()).as_str());
                    let amount = t.amount();
                    if amount > 0 {
                        row_add_cell(&mut row, "+");
                    } else {
                        row_add_cell(&mut row, "-");
                    }
                    let size: u64 = if amount < 0 {
                        (-(amount as i64)) as u64
                    } else {
                        amount as u64
                    };
                    let mut n: Vec<char> = Vec::new();
                    push_decimal(&mut n, size);
                    row_add_cell(&mut row, string_of(n.as_slice()).as_str());
                    row_add_cell(&mut row, t.currency().abbr());
                    let mut com: Vec<char> = Vec::new();
                    push_str(&mut com, "(");
                    push_str(&mut com, t.comment());
                    push_str(&mut com, ")");
                    row_add_cell(&mut row, string_of(com.as_slice()).as_str());
                    assert(row_cells(row) =~= change_cells(hm@, t@));
                    if table_column_count(&table) != 6 {
                        return None;
                    }
                    table_add_row(&mut table, row);
                },
                HistoryEntry::Event(m) => {
                    let mut head: Vec<char> = Vec::new();
                    push_str(&mut head, "[");
                    push_str(&mut head, hm.as_str());
                    push_str(&mut head, "] ");
                    push_str(&mut head, m.as_str());
                    table_add_heading(&mut table, string_of(head.as_slice()).as_str());
                    assert(head@ =~= "["@ + hm@ + "] "@ + m@);
                },
            }
            i = i - 1;
        }
    }
    let t = table_text(&table);
    push_str(&mut text, t.as_str());
    proof {
        if !done {
            assert(hv.take(0) =~= Seq::<DatedView>::empty());
        }
    }
    Some(string_of(text.as_slice()))
}

// ---------------------------------------------------------------------------
// The report
// ---------------------------------------------------------------------------

/// The weekly report: the figures of the ledger, a table per kind of entity, and the
/// recent history.
#[derive(Debug)]
pub struct Report {
    forbes: u32,
    total_buoyancy: u32,
    buoyancy_target: u32,
    flotation: u128,
    date: Date,
    tables: Vec<AssetTable>,
    history: String,
}

pub struct ReportView {
    pub forbes: u32,
    pub total_buoyancy: u32,
    pub buoyancy_target: u32,
    pub flotation: u128,
    pub date: Date,
    pub tables: Seq<AssetTableView>,
    pub history: Seq<char>,
}

impl View for Report {
    type V = ReportView;

    closed spec fn view(&self) -> ReportView {
        ReportView {
            forbes: self.forbes,
            total_buoyancy: self.total_buoyancy,
            buoyancy_target: self.buoyancy_target,
            flotation: self.flotation,
            date: self.date,
            tables: self.tables@.map_values(|t: AssetTable| t@),
            history: self.history@,
        }
    }
}

/// The asset tables of the groups `g`, one per group.
pub open spec fn tables_of(assets: Seq<Currency>, g: Seq<(EntityKind, Seq<EntityView>)>) -> Option<
    Seq<AssetTableView>,
>
    decreases g.len(),
{
    if g.len() == 0 {
        Some(Seq::empty())
    } else {
        match tables_of(assets, g.drop_last()) {
            None => None,
            Some(ts) => match asset_table_new(assets, g.last().0) {
                None => None,
                Some(v) => Some(ts.push(with_entities(v, g.last().1))),
            },
        }
    }
}

/// The report of the ledger `c`, its entities in the groups `g`.
pub open spec fn report_of(c: ContextView, g: Seq<(EntityKind, Seq<EntityView>)>) -> Option<
    ReportView,
> {
    match (tables_of(c.assets, g), history_text(c)) {
        (Some(ts), Some(h)) => Some(
            ReportView {
                forbes: c.forbes,
                total_buoyancy: c.total_buoyancy,
                buoyancy_target: c.buoyancy_target,
                flotation: c.flotation,
                date: c.max_datetime.date,
                tables: ts,
                history: h,
            },
        ),
        _ => None,
    }
}

impl Report {
    /// The report of `ctx`: a table for each kind of entity, in the order of kinds, each
    /// sorted by lowercase identifier; and the history. `None` only where chrono cannot
    /// write a date of the history, which never happens where every entry is dated with a
    /// date and time that chrono holds.
    pub fn with_context(ctx: &Context) -> (r: Option<Report>)
        requires
            ctx.wf(),
        ensures
            history_text(ctx@) is Some ==> r is Some,
            dates_written(ctx@.history) ==> r is Some,
            history_valid(ctx@.history) ==> r is Some,
            exists|g: Seq<(EntityKind, Seq<EntityView>)>|
                grouped_as(g, ctx@.entries) && match report_of(ctx@, g) {
                    Some(v) => r matches Some(x) && x@ == v,
                    None => r is None,
                },
    {
        let groups = ctx.entities().as_grouped_vec();
        let ghost g = groups_view(groups@);
        let assets = ctx.assets();
        let mut tables: Vec<AssetTable> = Vec::new();
        let mut k: usize = 0;
        assert(g.take(0) =~= Seq::<(EntityKind, Seq<EntityView>)>::empty());
        assert(tables@.map_values(|t: AssetTable| t@) =~= Seq::<AssetTableView>::empty());
        while k < groups.len()
            invariant
                0 <= k <= groups@.len(),
                g == groups_view(groups@),
                grouped_as(g, ctx@.entries),
                assets@ == ctx@.assets,
                tables_of(ctx@.assets, g.take(k as int)) == Some(
                    tables@.map_values(|t: AssetTable| t@),
                ),
            decreases groups@.len() - k,
        {
            let kind = groups[k].0;
            let ents = &groups[k].1;
            assert(g.take(k + 1).drop_last() =~= g.take(k as int));
            assert(g.take(k + 1).last() == g[k as int]);
            let mut at = match AssetTable::new(assets.as_slice(), kind) {
                Some(t) => t,
                None => {
                    proof {
                        lemma_asset_spec_columns(ctx@.assets.len());
                    }
                    return None;
                },
            };
            let ghost v0 = at@;
            let ghost ev = refs_view(ents@);
            let mut m: usize = 0;
            assert(ev.take(0) =~= Seq::<EntityView>::empty());
            while m < ents.len()
                invariant
                    0 <= m <= ents@.len(),
                    ev == refs_view(ents@),
                    at.wf(),
                    at@ == with_entities(v0, ev.take(m as int)),
                decreases ents@.len() - m,
            {
                at.add_entity(ents[m]);
                assert(ev.take(m + 1).drop_last() =~= ev.take(m as int));
                m = m + 1;
            }
            assert(ev.take(m as int) =~= ev);
            assert(g[k as int].1 == ev);
            let ghost before = tables@.map_values(|t: AssetTable| t@);
            tables.push(at);
            assert(tables@.map_values(|t: AssetTable| t@) =~= before.push(at@));
            k = k + 1;
        }
        assert(g.take(k as int) =~= g);
        proof {
            lemma_tables_of_some(ctx@.assets, g);
            if dates_written(ctx@.history) {
                law_history_written(ctx@);
            }
        }
        let history = match history_string(ctx) {
            Some(h) => h,
            None => {
                return None;
            },
        };
        Some(
            Report {
                forbes: ctx.forbes(),
                total_buoyancy: ctx.total_buoyancy(),
                buoyancy_target: ctx.buoyancy_target(),
                flotation: ctx.flotation(),
                date: ctx.max_datetime().date,
                tables,
                history,
            },
        )
    }
}

/// The asset tables of any groups are made: `tabular` takes each table's row spec.
pub proof fn lemma_tables_of_some(assets: Seq<Currency>, g: Seq<(EntityKind, Seq<EntityView>)>)
    ensures
        tables_of(assets, g) is Some,
    decreases g.len(),
{
    if g.len() > 0 {
        lemma_tables_of_some(assets, g.drop_last());
        lemma_asset_spec_columns(assets.len());
    }
}

/// The texts of the asset tables, each followed by a newline.
pub open spec fn tables_text(ts: Seq<AssetTableView>) -> Seq<char>
    decreases ts.len(),
{
    if ts.len() == 0 {
        Seq::empty()
    } else {
        tables_text(ts.drop_last()) + asset_table_text(ts.last()) + "\n"@
    }
}

/// The lines of the buoyancy table.
pub open spec fn buoyancy_lines(r: ReportView) -> Seq<LineView> {
    seq![
        (false, seq!["Total Buoyancy:"@, decimal(r.total_buoyancy as nat)]),
        (false, seq!["Buoyancy Target:"@, decimal(r.buoyancy_target as nat)]),
        (false, seq!["Unit of Flotation:"@, flotation_text(r.flotation)]),
    ]
}

/// `FORBES` and the count of reports to come in words, upper case, centred in 72
/// columns.
pub open spec fn forbes_banner(n: u32) -> Seq<char> {
    pad_center("FORBES "@ + crate::words::uppercase(crate::words::cardinal_text(n)), 72)
}

/// The template `f` filled in: `{bar}`, `{forbes}`, `{date}`, `{tables}`, `{history}` and
/// `{buoyancy}` replaced in that order. `None` where chrono cannot write the date (the
/// buoyancy table's row spec, which `tabular` takes, is checked as well).
pub open spec fn report_format(r: ReportView, f: Seq<char>) -> Option<Seq<char>> {
    match chrono_format(DateTime { date: r.date, time: Time { hour: 0, minute: 0 } }, "%d %B %Y"@) {
        None => None,
        Some(d) => if tabular_columns("{:<} {:<}"@) == Some(2nat) {
            let s1 = crate::text::replaced(f, "{bar}"@, repeated("="@, 72));
            let s2 = crate::text::replaced(s1, "{forbes}"@, forbes_banner(r.forbes));
            let s3 = crate::text::replaced(s2, "{date}"@, d);
            let s4 = crate::text::replaced(
                s3,
                "{tables}"@,
                crate::text::trim_end(tables_text(r.tables)),
            );
            let s5 = crate::text::replaced(s4, "{history}"@, crate::text::trim(r.history));
            Some(
                crate::text::replaced(
                    s5,
                    "{buoyancy}"@,
                    crate::text::trim_end(tabular_text("{:<} {:<}"@, buoyancy_lines(r))),
                ),
            )
        } else {
            None
        },
    }
}

impl Report {
    /// The report written into the template `fstr`; `None` only where chrono cannot write
    /// the report's date, which never happens where it is a date that chrono holds.
    pub fn format(&self, fstr: &str) -> (r: Option<String>)
        ensures
            chrono_format(
                (DateTime { date: self@.date, time: Time { hour: 0, minute: 0 } }),
                "%d %B %Y"@,
            ) is Some ==> r is Some,
            valid_date(self@.date) ==> r is Some,
            match report_format(self@, fstr@) {
                Some(t) => r matches Some(x) && x@ == t,
                None => r is None,
            },
    {
        let d = match format_datetime(self.date.at_midnight(), "%d %B %Y") {
            Some(x) => x,
            None => {
                return None;
            },
        };
        proof {
            lemma_buoyancy_spec_columns();
        }
        let mut bt = match table_new("{:<} {:<}") {
            Some(t) => t,
            None => {
                return None;
            },
        };
        if table_column_count(&bt) != 2 {
            return None;
        }
        let ghost bl = buoyancy_lines(self@);
        let mut row = row_new();
        row_add_cell(&mut row, "Total Buoyancy:");
        row_add_cell(&mut row, crate::text::decimal_string(self.total_buoyancy as u64).as_str());
        assert(row_cells(row) =~= bl[0].1);
        table_add_row(&mut bt, row);
        let mut row = row_new();
        row_add_cell(&mut row, "Buoyancy Target:");
        row_add_cell(&mut row, crate::text::decimal_string(self.buoyancy_target as u64).as_str());
        assert(row_cells(row) =~= bl[1].1);
        table_add_row(&mut bt, row);
        let mut row = row_new();
        row_add_cell(&mut row, "Unit of Flotation:");
        row_add_cell(&mut row, crate::model::context::flotation_string(self.flotation).as_str());
        assert(row_cells(row) =~= bl[2].1);
        table_add_row(&mut bt, row);
        assert(table_lines(bt) =~= bl);
        let buoyancy = crate::text::trim_end_string(table_text(&bt).as_str());
        let mut bar: Vec<char> = Vec::new();
        push_repeated(&mut bar, "=", 72);
        let mut banner_text: Vec<char> = Vec::new();
        push_str(&mut banner_text, "FORBES ");
        push_str(
            &mut banner_text,
            crate::words::to_uppercase(crate::words::cardinal(self.forbes).as_str()).as_str(),
        );
        let mut banner: Vec<char> = Vec::new();
        push_pad_center(&mut banner, string_of(banner_text.as_slice()).as_str(), 72);
        let mut ts: Vec<char> = Vec::new();
        let mut i: usize = 0;
        let ghost tv = self@.tables;
        assert(tv.take(0) =~= Seq::<AssetTableView>::empty());
        while i < self.tables.len()
            invariant
                0 <= i <= self.tables@.len(),
                tv == self@.tables,
                ts@ == tables_text(tv.take(i as int)),
            decreases self.tables@.len() - i,
        {
            let t = self.tables[i].text();
            push_str(&mut ts, t.as_str());
            push_str(&mut ts, "\n");
            assert(tv.take(i + 1).drop_last() =~= tv.take(i as int));
            assert(tv[i as int] == self.tables@[i as int]@);
            i = i + 1;
        }
        assert(tv.take(i as int) =~= tv);
        let tables = crate::text::trim_end_string(string_of(ts.as_slice()).as_str());
        let history = crate::text::trim_string(self.history.as_str());
        proof {
            reveal_strlit("{bar}");
            reveal_strlit("{forbes}");
            reveal_strlit("{date}");
            reveal_strlit("{tables}");
            reveal_strlit("{history}");
            reveal_strlit("{buoyancy}");
        }
        let s1 = crate::text::replace_all(fstr, "{bar}", string_of(bar.as_slice()).as_str());
        let s2 = crate::text::replace_all(
            s1.as_str(),
            "{forbes}",
            string_of(banner.as_slice()).as_str(),
        );
        let s3 = crate::text::replace_all(s2.as_str(), "{date}", d.as_str());
        let s4 = crate::text::replace_all(s3.as_str(), "{tables}", tables.as_str());
        let s5 = crate::text::replace_all(s4.as_str(), "{history}", history.as_str());
        let s6 = crate::text::replace_all(s5.as_str(), "{buoyancy}", buoyancy.as_str());
        Some(s6)
    }
}


/// The row spec of an asset table has one column for the names and one per asset.
pub proof fn lemma_asset_spec_columns(n: nat)
    ensures
        tabular_columns(asset_spec(n)) == Some(n + 1),
{
    reveal_strlit(" {:<}");
    reveal_strlit("  {:>}");
    reveal_with_fuel(tabular_columns, 4);
    assert(" {:<}"@.skip(1) =~= seq!['{', ':', '<', '}']);
    assert(seq!['{', ':', '<', '}'].skip(4) =~= Seq::<char>::empty());
    assert("  {:>}"@.skip(1) =~= seq![' ', '{', ':', '>', '}']);
    assert(seq![' ', '{', ':', '>', '}'].skip(1) =~= seq!['{', ':', '>', '}']);
    assert(seq!['{', ':', '>', '}'].skip(4) =~= Seq::<char>::empty());
    lemma_repeated_columns(n);
    lemma_columns_concat(" {:<}"@, repeated("  {:>}"@, n));
}

proof fn lemma_repeated_columns(n: nat)
    requires
        tabular_columns("  {:>}"@) == Some(1nat),
    ensures
        tabular_columns(repeated("  {:>}"@, n)) == Some(n),
    decreases n,
{
    if n == 0 {
        assert(repeated("  {:>}"@, 0) =~= Seq::<char>::empty());
    } else {
        lemma_repeated_columns((n - 1) as nat);
        lemma_columns_concat(repeated("  {:>}"@, (n - 1) as nat), "  {:>}"@);
    }
}

/// The history's row spec has six columns.
pub proof fn lemma_history_spec_columns()
    ensures
        tabular_columns(history_spec()) == Some(6nat),
{
    reveal_strlit("[{:<}] {:<} {:<}{:>}{:<} {:<}");
    let l = seq!['{', ':', '<', '}'];
    let r = seq!['{', ':', '>', '}'];
    reveal_with_fuel(tabular_columns, 2);
    assert(l.skip(4) =~= Seq::<char>::empty());
    assert(r.skip(4) =~= Seq::<char>::empty());
    assert(seq![' '].skip(1) =~= Seq::<char>::empty());
    assert(seq!['['].skip(1) =~= Seq::<char>::empty());
    assert(seq![']', ' '].skip(1) =~= seq![' ']);
    assert(tabular_columns(l) == Some(1nat));
    assert(tabular_columns(r) == Some(1nat));
    assert(tabular_columns(seq![' ']) == Some(0nat));
    assert(tabular_columns(seq!['[']) == Some(0nat));
    assert(tabular_columns(seq![']', ' ']) == Some(0nat));
    let parts = seq!['['] + l + seq![']', ' '] + l + seq![' '] + l + r + l + seq![' '] + l;
    assert(history_spec() =~= parts);
    lemma_columns_concat(seq!['['], l);
    lemma_columns_concat(seq!['['] + l, seq![']', ' ']);
    lemma_columns_concat(seq!['['] + l + seq![']', ' '], l);
    lemma_columns_concat(seq!['['] + l + seq![']', ' '] + l, seq![' ']);
    lemma_columns_concat(seq!['['] + l + seq![']', ' '] + l + seq![' '], l);
    lemma_columns_concat(seq!['['] + l + seq![']', ' '] + l + seq![' '] + l, r);
    lemma_columns_concat(seq!['['] + l + seq![']', ' '] + l + seq![' '] + l + r, l);
    lemma_columns_concat(seq!['['] + l + seq![']', ' '] + l + seq![' '] + l + r + l, seq![' ']);
    lemma_columns_concat(
        seq!['['] + l + seq![']', ' '] + l + seq![' '] + l + r + l + seq![' '],
        l,
    );
}

/// The buoyancy table's row spec has two columns.
pub proof fn lemma_buoyancy_spec_columns()
    ensures
        tabular_columns("{:<} {:<}"@) == Some(2nat),
{
    reveal_strlit("{:<} {:<}");
    let l = seq!['{', ':', '<', '}'];
    reveal_with_fuel(tabular_columns, 2);
    assert(l.skip(4) =~= Seq::<char>::empty());
    assert(seq![' '].skip(1) =~= Seq::<char>::empty());
    assert(tabular_columns(l) == Some(1nat));
    assert(tabular_columns(seq![' ']) == Some(0nat));
    assert("{:<} {:<}"@ =~= l + seq![' '] + l);
    lemma_columns_concat(l, seq![' ']);
    lemma_columns_concat(l + seq![' '], l);
}


/// chrono writes the day heading and the time of every entry of `h`.
pub open spec fn dates_written(h: Seq<DatedView>) -> bool {
    forall|i: int|
        0 <= i < h.len() ==> (#[trigger] chrono_format(h[i].datetime, day_heading_format())) is Some
            && chrono_format(h[i].datetime, clock_format()) is Some
}

proof fn lemma_hist_scan_some(h: Seq<DatedView>, st: HistView, bm: int)
    requires
        st.spec == history_spec(),
        dates_written(h),
    ensures
        hist_scan(h, st, bm) is Some,
    decreases h.len(),
{
    if h.len() > 0 && month0(h.last().datetime.date.month) != bm {
        lemma_history_spec_columns();
        let e = h.last();
        assert(chrono_format(h[h.len() - 1].datetime, day_heading_format()) is Some);
        let st2 = hist_step(st, e)->0;
        assert(dates_written(h.drop_last())) by {
            assert forall|i: int| 0 <= i < h.drop_last().len() implies (#[trigger] chrono_format(
                h.drop_last()[i].datetime,
                day_heading_format(),
            )) is Some && chrono_format(h.drop_last()[i].datetime, clock_format()) is Some by {
                assert(h.drop_last()[i] == h[i]);
                assert(chrono_format(h[i].datetime, day_heading_format()) is Some);
            }
        }
        lemma_hist_scan_some(h.drop_last(), st2, bm);
    }
}

/// Every entry of `h` is dated with a date and time that chrono holds.
pub open spec fn history_valid(h: Seq<DatedView>) -> bool {
    forall|i: int| 0 <= i < h.len() ==> valid_datetime(#[trigger] h[i].datetime)
}

/// The history is written wherever chrono writes the day and the time of each of its
/// entries: `tabular` takes the history's row spec, so nothing else can stop it.
pub proof fn law_history_written(c: ContextView)
    requires
        dates_written(c.history),
    ensures
        history_text(c) is Some,
{
    lemma_history_spec_columns();
    let bm = (month0(c.max_datetime.date.month) + 9) % 12;
    let st0 = HistView {
        text: Seq::empty(),
        date: earliest_date(),
        spec: history_spec(),
        lines: Seq::empty(),
    };
    lemma_hist_scan_some(c.history, st0, bm);
}


/// One entry written into the history. An entry of a new day first closes the day's
/// table into the text and starts a new table, headed by an empty line and the date
/// (`*** Mon 1 March 2021`). A change then adds a row of six cells: its time, its agent
/// (spaces for underscores) and a colon, `+` where the amount is positive and `-` where
/// it is not, the size of the amount, the currency's abbreviation, and the comment in
/// parentheses. An event adds a heading of its time in brackets and its message.
pub proof fn law_history_step(st: HistView, e: DatedView)
    requires
        hist_step(st, e) is Some,
    ensures
        ({
            let after = hist_step(st, e)->Some_0;
            let hm = chrono_format(e.datetime, "%R"@)->Some_0;
            let base = if e.datetime.date != st.date {
                seq![
                    (true, seq![""@]),
                    (true, seq![chrono_format(e.datetime, "*** %a %-d %B %Y"@)->Some_0]),
                ]
            } else {
                st.lines
            };
            &&& chrono_format(e.datetime, "%R"@) is Some
            &&& e.datetime.date != st.date ==> chrono_format(e.datetime, "*** %a %-d %B %Y"@) is Some
                && after.text == st.text + tabular_text(st.spec, st.lines) && after.date
                == e.datetime.date && after.spec == "[{:<}] {:<} {:<}{:>}{:<} {:<}"@
            &&& e.datetime.date == st.date ==> after.text == st.text && after.date == st.date
                && after.spec == st.spec
            &&& after.lines.len() == base.len() + 1
            &&& after.lines.drop_last() == base
            &&& match e.entry {
                HistoryEntryView::Event(m) => after.lines.last() == (true, seq!["["@ + hm + "] "@ + m]),
                HistoryEntryView::Transaction(t) => {
                    let row = after.lines.last();
                    &&& !row.0
                    &&& row.1.len() == 6
                    &&& row.1[0] == hm
                    &&& row.1[1] == underscores_to_spaces(t.agent) + ":"@
                    &&& (row.1[2] == "+"@ <==> t.amount > 0)
                    &&& (row.1[2] == "-"@ <==> t.amount <= 0)
                    &&& row.1[3] == decimal(if t.amount < 0 {
                        (-(t.amount as int)) as nat
                    } else {
                        t.amount as nat
                    })
                    &&& row.1[4] == abbr_of(t.currency)
                    &&& row.1[5] == "("@ + t.comment + ")"@
                },
            }
        }),
{
    reveal_strlit("+");
    reveal_strlit("-");
    assert("+"@[0] == '+' && "-"@[0] == '-');
    assert("+"@ != "-"@);
    let after = hist_step(st, e)->Some_0;
    assert(after.lines.drop_last() =~= if e.datetime.date != st.date {
        seq![
            (true, seq![""@]),
            (true, seq![chrono_format(e.datetime, "*** %a %-d %B %Y"@)->Some_0]),
        ]
    } else {
        st.lines
    });
}

/// The history goes back from the latest entry up to, not including, the first entry
/// dated in the month three before the month of the last moment entered: with a last
/// moment in March, the entries of January, February and March are written, back to the
/// latest one of December.
pub proof fn law_history_months(c: ContextView, b: int)
    requires
        0 <= b < 12,
        1 <= c.max_datetime.date.month <= 12,
        (b + 3) % 12 == c.max_datetime.date.month - 1,
    ensures
        history_text(c) == match hist_scan(
            c.history,
            HistView {
                text: Seq::empty(),
                date: earliest_date(),
                spec: "[{:<}] {:<} {:<}{:>}{:<} {:<}"@,
                lines: Seq::empty(),
            },
            b,
        ) {
            Some(st) => Some(st.text + tabular_text(st.spec, st.lines)),
            None => None,
        },
{
    lemma_history_spec_columns();
    assert(b == (month0(c.max_datetime.date.month) + 9) % 12);
}

} // verus!
