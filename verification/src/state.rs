//! The list, its filter and the input field, with the queries that a view
//! reads.

use vstd::prelude::*;

use crate::entry::{Entry, EntryView};
use crate::filter::Filter;

verus! {

/// The mathematical value of a [`State`].
pub struct StateView {
    pub entries: Seq<EntryView>,
    pub filter: Filter,
    pub edit_buffer: Seq<char>,
}

impl StateView {
    /// The state before anything was entered.
    pub open spec fn initial() -> StateView {
        StateView { entries: Seq::empty(), filter: Filter::All, edit_buffer: Seq::empty() }
    }

    /// Each entry with its position in the list.
    pub open spec fn indexed(self) -> Seq<(int, EntryView)> {
        self.entries.map(|i: int, e: EntryView| (i, e))
    }

    /// The entries that the filter admits, each with its position in the
    /// whole list, in list order.
    pub open spec fn visible(self) -> Seq<(int, EntryView)> {
        self.indexed().filter(|p: (int, EntryView)| self.filter.admits(p.1))
    }

    /// Whether no entry is left to do. An empty list has none.
    pub open spec fn all_completed(self) -> bool {
        forall|i: int| 0 <= i < self.entries.len() ==> (#[trigger] self.entries[i]).completed
    }

    /// The style class of the control of `filter`.
    pub open spec fn filter_class_text(self, filter: Filter) -> Seq<char> {
        if self.filter == filter {
            "selected"@
        } else {
            "not-selected"@
        }
    }

    /// The completed entries, in list order.
    pub open spec fn completed(self) -> Seq<EntryView> {
        self.entries.filter(|e: EntryView| e.completed)
    }

    /// The entries still to do, in list order.
    pub open spec fn pending(self) -> Seq<EntryView> {
        self.entries.filter(|e: EntryView| !e.completed)
    }
}

/// The values of the entries of a list, in order.
pub open spec fn entry_views(entries: Seq<Entry>) -> Seq<EntryView> {
    entries.map_values(|e: Entry| e@)
}

/// The values of indexed entries, in order.
pub open spec fn indexed_views(pairs: Seq<(usize, &Entry)>) -> Seq<(int, EntryView)> {
    pairs.map_values(|p: (usize, &Entry)| (p.0 as int, p.1@))
}

/// What the application shows and edits.
#[derive(Debug, PartialEq, Eq)]
pub struct State {
    pub entries: Vec<Entry>,
    pub filter: Filter,
    pub edit_buffer: String,
}

impl View for State {
    type V = StateView;

    open spec fn view(&self) -> StateView {
        StateView {
            entries: entry_views(self.entries@),
            filter: self.filter,
            edit_buffer: self.edit_buffer@,
        }
    }
}

impl Default for State {
    fn default() -> (state: Self)
        ensures
            state@ == StateView::initial(),
    {
        let state = State {
            entries: Vec::new(),
            filter: Filter::default(),
            edit_buffer: String::new(),
        };
        assert(state@.entries =~= Seq::empty());
        state
    }
}

impl State {
    /// Tells whether every entry is completed; `true` for an empty list.
    pub fn is_all_completed(&self) -> (all: bool)
        ensures
            all == self@.all_completed(),
    {
        let mut i: usize = 0;
        while i < self.entries.len()
            invariant
                i <= self.entries.len(),
                forall|j: int| 0 <= j < i ==> (#[trigger] self@.entries[j]).completed,
            decreases self.entries.len() - i,
        {
            if !self.entries[i].completed {
                assert(!self@.entries[i as int].completed);
                return false;
            }
            i += 1;
        }
        true
    }

    /// Counts the completed entries.
    pub fn total_completed(&self) -> (count: usize)
        ensures
            count == self@.completed().len(),
    {
        let ghost done = |e: EntryView| e.completed;
        let mut count: usize = 0;
        let mut i: usize = 0;
        proof {
            assert(self@.entries.take(0) =~= Seq::empty());
            reveal(Seq::filter);
        }
        while i < self.entries.len()
            invariant
                i <= self.entries.len(),
                done == |e: EntryView| e.completed,
                count == self@.entries.take(i as int).filter(done).len(),
                count <= i,
            decreases self.entries.len() - i,
        {
            proof {
                let head = self@.entries.take(i as int);
                assert(self@.entries.take(i + 1) =~= head.push(self@.entries[i as int]));
                head.lemma_filter_push(self@.entries[i as int], done);
            }
            if self.entries[i].completed {
                count += 1;
            }
            i += 1;
        }
        assert(self@.entries.take(i as int) =~= self@.entries);
        count
    }

    /// The style class of the control of `filter`: whether it is the one in
    /// force.
    pub fn filter_class(&self, filter: Filter) -> (class: &'static str)
        ensures
            class@ == self@.filter_class_text(filter),
    {
        if self.filter == filter {
            "selected"
        } else {
            "not-selected"
        }
    }

    /// The entries that the filter admits, each with its position in the
    /// whole list, in list order.
    pub fn visible_entries(&self) -> (shown: Vec<(usize, &Entry)>)
        ensures
            indexed_views(shown@) == self@.visible(),
    {
        let ghost admitted = |p: (int, EntryView)| self.filter.admits(p.1);
        let mut shown: Vec<(usize, &Entry)> = Vec::new();
        let mut i: usize = 0;
        proof {
            assert(self@.indexed().take(0) =~= Seq::empty());
            reveal(Seq::filter);
            assert(indexed_views(shown@) =~= Seq::empty());
        }
        while i < self.entries.len()
            invariant
                i <= self.entries.len(),
                admitted == |p: (int, EntryView)| self.filter.admits(p.1),
                indexed_views(shown@) == self@.indexed().take(i as int).filter(admitted),
            decreases self.entries.len() - i,
        {
            proof {
                let head = self@.indexed().take(i as int);
                let here = (i as int, self@.entries[i as int]);
                assert(self@.indexed().take(i + 1) =~= head.push(here));
                head.lemma_filter_push(here, admitted);
            }
            let entry = &self.entries[i];
            if self.filter.passes(entry) {
                let ghost before = shown@;
                shown.push((i, entry));
                assert(indexed_views(shown@) =~= indexed_views(before).push(
                    (i as int, self@.entries[i as int]),
                ));
            }
            i += 1;
        }
        assert(self@.indexed().take(i as int) =~= self@.indexed());
        shown
    }
}

} // verus!
