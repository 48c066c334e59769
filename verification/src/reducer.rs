//! The transition that a message makes.

use vstd::prelude::*;

use crate::entry::{Entry, EntryView};
use crate::message::{Message, MessageView};
use crate::state::{entry_views, State, StateView};
use crate::text::{trim, trimmed};

verus! {

/// A message addressed a position that the list does not have.
#[derive(Debug, PartialEq, Eq, Clone, Copy)]
pub struct IndexError {
    /// The position that was asked for.
    pub index: usize,
    /// The number of entries at that time.
    pub len: usize,
}

/// What the caller of [`State::apply`] has to do next.
#[derive(Debug, PartialEq, Eq, Clone, Copy)]
pub struct Outcome {
    /// Whether the view is to be drawn again. Every message asks for it,
    /// also one that changed nothing.
    pub render: bool,
    /// Whether the state is to be written to storage: it is not what it was.
    pub save: bool,
    /// The error to report, if the message was refused.
    pub error: Option<IndexError>,
}

impl StateView {
    /// Whether the message addresses a position outside the list.
    pub open spec fn rejects(self, msg: MessageView) -> bool {
        msg.index() matches Some(idx) && idx >= self.entries.len()
    }

    /// The state after a message. A message that is rejected, and `Create`
    /// on an input field that holds white space only, leave it as it is.
    pub open spec fn step(self, msg: MessageView) -> StateView {
        if self.rejects(msg) {
            self
        } else {
            match msg {
                MessageView::Create => {
                    let text = trimmed(self.edit_buffer);
                    if text.len() == 0 {
                        self
                    } else {
                        StateView {
                            entries: self.entries.push(EntryView { text, completed: false }),
                            edit_buffer: Seq::empty(),
                            ..self
                        }
                    }
                },
                MessageView::Delete(idx) => StateView {
                    entries: self.entries.remove(idx as int),
                    ..self
                },
                MessageView::DeleteDone => StateView { entries: self.pending(), ..self },
                MessageView::Update(idx, text) => StateView {
                    entries: self.entries.update(
                        idx as int,
                        EntryView { text, ..self.entries[idx as int] },
                    ),
                    ..self
                },
                MessageView::UpdateBuffer(text) => StateView { edit_buffer: text, ..self },
                MessageView::SetFilter(filter) => StateView { filter, ..self },
                MessageView::Toggle(idx) => StateView {
                    entries: self.entries.update(
                        idx as int,
                        EntryView {
                            completed: !self.entries[idx as int].completed,
                            ..self.entries[idx as int]
                        },
                    ),
                    ..self
                },
                MessageView::Noop => self,
            }
        }
    }
}

impl State {
    /// Applies a message and says what is to be done next.
    pub fn apply(&mut self, msg: Message) -> (out: Outcome)
        ensures
            final(self)@ == old(self)@.step(msg@),
            out.render,
            out.save == (final(self)@ != old(self)@),
            out.error is Some == old(self)@.rejects(msg@),
            out.error matches Some(e) ==> msg@.index() == Some(e.index as nat) && e.len
                == old(self)@.entries.len(),
    {
        match msg {
            Message::Create => Outcome::of(Ok(self.create())),
            Message::Delete(idx) => Outcome::of(self.delete(idx)),
            Message::DeleteDone => Outcome::of(Ok(self.delete_done())),
            Message::Update(idx, text) => Outcome::of(self.update(idx, text)),
            Message::UpdateBuffer(text) => {
                let changed = !(self.edit_buffer == text);
                self.edit_buffer = text;
                Outcome::of(Ok(changed))
            },
            Message::SetFilter(filter) => {
                let changed = self.filter != filter;
                self.filter = filter;
                Outcome::of(Ok(changed))
            },
            Message::Toggle(idx) => Outcome::of(self.toggle(idx)),
            Message::Noop => Outcome::of(Ok(false)),
        }
    }

    /// Appends the trimmed input field as a new entry and clears the field,
    /// unless nothing but white space was typed.
    fn create(&mut self) -> (changed: bool)
        ensures
            final(self)@ == old(self)@.step(MessageView::Create),
            changed == (final(self)@ != old(self)@),
    {
        let text = trim(self.edit_buffer.as_str());
        if text.as_str().unicode_len() == 0 {
            false
        } else {
            let ghost before = self.entries@;
            let entry = Entry { text, completed: false };
            let ghost added = entry@;
            self.entries.push(entry);
            self.edit_buffer = String::new();
            proof {
                assert(entry_views(self.entries@) =~= entry_views(before).push(added));
                assert(self@.entries.len() != old(self)@.entries.len());
            }
            true
        }
    }

    /// Removes the entry at `idx`.
    fn delete(&mut self, idx: usize) -> (done: Result<bool, IndexError>)
        ensures
            final(self)@ == old(self)@.step(MessageView::Delete(idx as nat)),
            done == old(self).checked(idx, true),
            done is Ok ==> final(self)@ != old(self)@,
    {
        let len = self.entries.len();
        if idx < len {
            let ghost before = self.entries@;
            self.entries.remove(idx);
            proof {
                assert(entry_views(self.entries@) =~= entry_views(before).remove(idx as int));
                assert(self@.entries.len() != old(self)@.entries.len());
            }
            Ok(true)
        } else {
            Err(IndexError { index: idx, len })
        }
    }

    /// Flips the completion flag of the entry at `idx`.
    fn toggle(&mut self, idx: usize) -> (done: Result<bool, IndexError>)
        ensures
            final(self)@ == old(self)@.step(MessageView::Toggle(idx as nat)),
            done == old(self).checked(idx, true),
            done is Ok ==> final(self)@ != old(self)@,
    {
        let len = self.entries.len();
        if idx < len {
            let ghost before = self.entries@;
            let completed = self.entries[idx].completed;
            self.entries[idx].completed = !completed;
            proof {
                assert(entry_views(self.entries@) =~= entry_views(before).update(
                    idx as int,
                    EntryView { completed: !completed, ..before[idx as int]@ },
                ));
                assert(self@.entries[idx as int] != old(self)@.entries[idx as int]);
            }
            Ok(true)
        } else {
            Err(IndexError { index: idx, len })
        }
    }

    /// Replaces the text of the entry at `idx`.
    fn update(&mut self, idx: usize, text: String) -> (done: Result<bool, IndexError>)
        ensures
            final(self)@ == old(self)@.step(MessageView::Update(idx as nat, text@)),
            done == old(self).checked(idx, text@ != old(self)@.entries[idx as int].text),
            done == Ok::<bool, IndexError>(true) <==> final(self)@ != old(self)@,
    {
        let len = self.entries.len();
        if idx < len {
            let ghost before = self.entries@;
            let changed = !(self.entries[idx].text == text);
            self.entries[idx].text = text;
            proof {
                assert(entry_views(self.entries@) =~= entry_views(before).update(
                    idx as int,
                    EntryView { text: text@, ..before[idx as int]@ },
                ));
                if changed {
                    assert(self@.entries[idx as int] != old(self)@.entries[idx as int]);
                } else {
                    assert(self@.entries =~= old(self)@.entries);
                }
            }
            Ok(changed)
        } else {
            Err(IndexError { index: idx, len })
        }
    }

    /// Removes every completed entry.
    fn delete_done(&mut self) -> (changed: bool)
        ensures
            final(self)@ == old(self)@.step(MessageView::DeleteDone),
            changed == (final(self)@ != old(self)@),
    {
        let ghost pending = |e: EntryView| !e.completed;
        let ghost before = self@.entries;
        let len = self.entries.len();
        let mut all: Vec<Entry> = Vec::new();
        core::mem::swap(&mut self.entries, &mut all);
        let mut kept: Vec<Entry> = Vec::new();
        proof {
            assert(before.take(0) =~= Seq::empty());
            reveal(Seq::filter);
            assert(entry_views(kept@) =~= Seq::empty());
        }
        for entry in it: all
            invariant
                entry_views(it.seq()) == before,
                pending == |e: EntryView| !e.completed,
                entry_views(kept@) == before.take(it.index() as int).filter(pending),
        {
            proof {
                let i = it.index() as int;
                let head = before.take(i);
                assert(before.take(i + 1) =~= head.push(before[i]));
                head.lemma_filter_push(before[i], pending);
            }
            if !entry.completed {
                let ghost so_far = kept@;
                let ghost added = entry@;
                kept.push(entry);
                assert(entry_views(kept@) =~= entry_views(so_far).push(added));
            }
        }
        proof {
            assert(before.take(before.len() as int) =~= before);
            lemma_filter_keeps_all(before, pending);
        }
        let changed = kept.len() != len;
        self.entries = kept;
        changed
    }

    /// The result of a message that addresses position `idx`: the error where
    /// the list has no such position, else `changed`.
    spec fn checked(self, idx: usize, changed: bool) -> Result<bool, IndexError> {
        if idx < self.entries.len() {
            Ok(changed)
        } else {
            Err(IndexError { index: idx, len: self.entries.len() })
        }
    }
}

impl Outcome {
    /// The outcome of a message that changed the state or not, or was
    /// refused.
    fn of(done: Result<bool, IndexError>) -> (out: Outcome)
        ensures
            out.render,
            out.save == (done == Ok::<bool, IndexError>(true)),
            out.error == match done {
                Ok(_) => None,
                Err(e) => Some(e),
            },
    {
        match done {
            Ok(changed) => Outcome { render: true, save: changed, error: None },
            Err(e) => Outcome { render: true, save: false, error: Some(e) },
        }
    }
}

/// A filter that drops nothing returns the sequence itself; one that returns
/// a sequence of the same length dropped nothing.
proof fn lemma_filter_keeps_all<A>(s: Seq<A>, pred: spec_fn(A) -> bool)
    ensures
        s.filter(pred).len() == s.len() <==> s.filter(pred) == s,
    decreases s.len(),
{
    reveal(Seq::filter);
    if s.len() > 0 {
        let front = s.drop_last();
        lemma_filter_keeps_all(front, pred);
        front.lemma_filter_len(pred);
        if pred(s.last()) && front.filter(pred).len() == front.len() {
            assert(front.push(s.last()) =~= s);
        }
    }
}

} // verus!
