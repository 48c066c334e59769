//! The form in which a state is stored between sessions.

use vstd::prelude::*;

use crate::entry::{Entry, EntryView};
use crate::filter::{lemma_name_identifies_filter, Filter};
use crate::state::{entry_views, State, StateView};

verus! {

/// The key of the storage slot that holds the state.
pub const KEY: &'static str = "yew-sample-todo.self";

/// The mathematical value of a [`Snapshot`].
pub struct SnapshotView {
    pub entries: Seq<EntryView>,
    pub filter: Seq<char>,
    pub edit_buffer: Seq<char>,
}

/// A state as a record of plain values: the filter is written by its name.
/// This is what the storage adapter turns into text and back.
#[derive(Debug, PartialEq, Eq)]
pub struct Snapshot {
    pub entries: Vec<Entry>,
    pub filter: String,
    pub edit_buffer: String,
}

impl View for Snapshot {
    type V = SnapshotView;

    open spec fn view(&self) -> SnapshotView {
        SnapshotView {
            entries: entry_views(self.entries@),
            filter: self.filter@,
            edit_buffer: self.edit_buffer@,
        }
    }
}

/// A stored record that is no state: no filter bears the name it gives.
#[derive(Debug, PartialEq, Eq)]
pub struct DeserializationError {
    /// The name that was found in place of a filter's.
    pub filter: String,
}

impl StateView {
    /// The record that stores this state.
    pub open spec fn snapshot(self) -> SnapshotView {
        SnapshotView {
            entries: self.entries,
            filter: self.filter.name_text(),
            edit_buffer: self.edit_buffer,
        }
    }
}

impl SnapshotView {
    /// The state that the record stores, if its filter name is one.
    pub open spec fn state(self) -> Option<StateView> {
        match Filter::named(self.filter) {
            Some(filter) => Some(
                StateView { entries: self.entries, filter, edit_buffer: self.edit_buffer },
            ),
            None => None,
        }
    }
}

/// The state to start a session with: the stored one where there is one and
/// it is valid, else the initial state.
pub open spec fn restored(loaded: Option<SnapshotView>) -> StateView {
    match loaded {
        Some(snapshot) => match snapshot.state() {
            Some(state) => state,
            None => StateView::initial(),
        },
        None => StateView::initial(),
    }
}

impl State {
    /// Writes the state as a record of plain values.
    pub fn snapshot(&self) -> (snapshot: Snapshot)
        ensures
            snapshot@ == self@.snapshot(),
    {
        let mut entries: Vec<Entry> = Vec::new();
        let mut i: usize = 0;
        while i < self.entries.len()
            invariant
                i <= self.entries.len(),
                entry_views(entries@) == self@.entries.take(i as int),
            decreases self.entries.len() - i,
        {
            let ghost copied = entries@;
            entries.push(self.entries[i].clone());
            assert(entry_views(entries@) =~= entry_views(copied).push(self@.entries[i as int]));
            assert(self@.entries.take(i + 1) =~= self@.entries.take(i as int).push(
                self@.entries[i as int],
            ));
            i += 1;
        }
        assert(self@.entries.take(i as int) =~= self@.entries);
        Snapshot {
            entries,
            filter: self.filter.name().to_owned(),
            edit_buffer: self.edit_buffer.clone(),
        }
    }

    /// Reads a state from a record. The record is refused if and only if no
    /// filter bears the name it gives.
    pub fn from_snapshot(snapshot: Snapshot) -> (read: Result<State, DeserializationError>)
        ensures
            match read {
                Ok(state) => snapshot@.state() == Some(state@),
                Err(e) => snapshot@.state() is None && e.filter@ == snapshot@.filter,
            },
    {
        match Filter::from_name(snapshot.filter.as_str()) {
            Some(filter) => Ok(
                State { entries: snapshot.entries, filter, edit_buffer: snapshot.edit_buffer },
            ),
            None => Err(DeserializationError { filter: snapshot.filter }),
        }
    }

    /// The state to start a session with, from what storage held: nothing,
    /// or a record that may be no state. Where there is no valid record the
    /// session starts with the initial state; where the record was refused,
    /// the error to report comes with it.
    pub fn restore(loaded: Option<Snapshot>) -> (start: (State, Option<DeserializationError>))
        ensures
            start.0@ == restored(
                match loaded {
                    Some(snapshot) => Some(snapshot@),
                    None => None,
                },
            ),
            start.1 is Some <==> loaded is Some && loaded->0@.state() is None,
            start.1 matches Some(e) ==> e.filter@ == loaded->0@.filter,
    {
        match loaded {
            Some(snapshot) => match State::from_snapshot(snapshot) {
                Ok(state) => (state, None),
                Err(e) => (State::default(), Some(e)),
            },
            None => (State::default(), None),
        }
    }
}

/// A state that was stored is read back as it was.
pub proof fn lemma_snapshot_round_trip(state: StateView)
    ensures
        state.snapshot().state() == Some(state),
        restored(Some(state.snapshot())) == state,
{
    lemma_name_identifies_filter(state.filter);
}

/// A record that is read as a state is the record that stores that state:
/// no two records are read as the same state.
pub proof fn lemma_valid_snapshot_is_canonical(snapshot: SnapshotView)
    requires
        snapshot.state() is Some,
    ensures
        snapshot.state()->0.snapshot() == snapshot,
{
}

} // verus!
