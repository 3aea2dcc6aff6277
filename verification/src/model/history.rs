use vstd::prelude::*;

use crate::clock::DateTime;
use crate::parser::transaction::{AtomicTransaction, AtomicView};

verus! {

/// Something that happened to the ledger: a change to one balance, or an event with its
/// message.
#[derive(Clone, Debug)]
pub enum HistoryEntry {
    Transaction(AtomicTransaction),
    Event(String),
}

pub enum HistoryEntryView {
    Transaction(AtomicView),
    Event(Seq<char>),
}

impl View for HistoryEntry {
    type V = HistoryEntryView;

    open spec fn view(&self) -> HistoryEntryView {
        match self {
            HistoryEntry::Transaction(t) => HistoryEntryView::Transaction(t@),
            HistoryEntry::Event(s) => HistoryEntryView::Event(s@),
        }
    }
}

/// A history entry with the moment at which it happened.
#[derive(Clone, Debug)]
pub struct DatedHistoryEntry {
    datetime: DateTime,
    entry: HistoryEntry,
}

pub struct DatedView {
    pub datetime: DateTime,
    pub entry: HistoryEntryView,
}

impl View for DatedHistoryEntry {
    type V = DatedView;

    closed spec fn view(&self) -> DatedView {
        DatedView { datetime: self.datetime, entry: self.entry@ }
    }
}

impl DatedHistoryEntry {
    pub fn new(datetime: DateTime, entry: HistoryEntry) -> (r: DatedHistoryEntry)
        ensures
            r@ == (DatedView { datetime, entry: entry@ }),
    {
        DatedHistoryEntry { datetime, entry }
    }

    pub fn datetime(&self) -> (r: DateTime)
        ensures
            r == self@.datetime,
    {
        self.datetime
    }

    pub fn entry(&self) -> (r: &HistoryEntry)
        ensures
            r@ == self@.entry,
    {
        &self.entry
    }
}

} // verus!
