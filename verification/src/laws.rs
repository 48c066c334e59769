//! What holds of every state and every message.

use vstd::prelude::*;

use crate::entry::EntryView;
use crate::filter::Filter;
use crate::message::MessageView;
use crate::state::StateView;

verus! {

/// Toggling a position of the list flips the completion flag of the entry
/// there and changes nothing else: not its text, no other entry, neither the
/// filter nor the input field.
pub proof fn lemma_toggle_flips_one(state: StateView, idx: nat)
    requires
        idx < state.entries.len(),
    ensures
        ({
            let next = state.step(MessageView::Toggle(idx));
            &&& next.entries.len() == state.entries.len()
            &&& next.entries[idx as int].completed == !state.entries[idx as int].completed
            &&& next.entries[idx as int].text == state.entries[idx as int].text
            &&& forall|j: int|
                0 <= j < state.entries.len() && j != idx ==> next.entries[j] == state.entries[j]
            &&& next.filter == state.filter
            &&& next.edit_buffer == state.edit_buffer
        }),
{
}

/// Toggling the same position twice gives the state back.
pub proof fn lemma_toggle_twice_restores(state: StateView, idx: nat)
    ensures
        state.step(MessageView::Toggle(idx)).step(MessageView::Toggle(idx)) == state,
{
    if idx < state.entries.len() {
        let twice = state.step(MessageView::Toggle(idx)).step(MessageView::Toggle(idx));
        assert(twice.entries =~= state.entries);
    }
}

/// After `DeleteDone` the list holds exactly the entries that were not
/// completed, in the order they had: no completed entry is left, every other
/// entry is still there, and as many entries are gone as were completed.
pub proof fn lemma_delete_done_keeps_pending(state: StateView)
    ensures
        ({
            let next = state.step(MessageView::DeleteDone);
            &&& next.entries == state.entries.filter(|e: EntryView| !e.completed)
            &&& forall|k: int| 0 <= k < next.entries.len() ==> !(#[trigger] next.entries[k]).completed
            &&& forall|i: int|
                0 <= i < state.entries.len() && !state.entries[i].completed
                    ==> next.entries.contains(#[trigger] state.entries[i])
            &&& next.entries.len() + state.completed().len() == state.entries.len()
            &&& next.filter == state.filter
            &&& next.edit_buffer == state.edit_buffer
        }),
{
    let pending = |e: EntryView| !e.completed;
    let done = |e: EntryView| e.completed;
    let next = state.step(MessageView::DeleteDone);
    assert forall|k: int| 0 <= k < next.entries.len() implies !(#[trigger] next.entries[k]).completed by {
        state.entries.lemma_filter_pred(pending, k);
    }
    assert forall|i: int|
        0 <= i < state.entries.len() && !state.entries[i].completed implies next.entries.contains(
        #[trigger] state.entries[i],
    ) by {
        state.entries.lemma_filter_contains(pending, i);
    }
    lemma_filter_partitions(state.entries, done, pending);
}

/// A predicate and its negation part a sequence: what the one keeps and what
/// the other keeps are, together, as many as there were.
proof fn lemma_filter_partitions<A>(s: Seq<A>, yes: spec_fn(A) -> bool, no: spec_fn(A) -> bool)
    requires
        forall|a: A| #[trigger] no(a) == !yes(a),
    ensures
        s.filter(yes).len() + s.filter(no).len() == s.len(),
    decreases s.len(),
{
    reveal(Seq::filter);
    if s.len() > 0 {
        lemma_filter_partitions(s.drop_last(), yes, no);
        assert(no(s.last()) == !yes(s.last()));
    }
}

/// The state without its last entry.
spec fn without_last(state: StateView) -> StateView {
    StateView { entries: state.entries.drop_last(), ..state }
}

/// What is visible of a list is what is visible of the list without its last
/// entry, followed by that entry if the filter admits it.
proof fn lemma_visible_unfolds(state: StateView)
    requires
        state.entries.len() > 0,
    ensures
        state.visible() == if state.filter.admits(state.entries.last()) {
            without_last(state).visible().push((state.entries.len() - 1, state.entries.last()))
        } else {
            without_last(state).visible()
        },
{
    let admitted = |p: (int, EntryView)| state.filter.admits(p.1);
    let front = without_last(state).indexed();
    let last = (state.entries.len() - 1, state.entries.last());
    assert(state.indexed() =~= front.push(last));
    front.lemma_filter_push(last, admitted);
}

/// The visible entries stand in list order: their positions rise.
pub proof fn lemma_visible_positions_rise(state: StateView)
    ensures
        forall|k: int|
            0 <= k < state.visible().len() ==> 0 <= (#[trigger] state.visible()[k]).0
                < state.entries.len(),
        forall|j: int, k: int|
            0 <= j < k < state.visible().len() ==> (#[trigger] state.visible()[j]).0 < (
            #[trigger] state.visible()[k]).0,
    decreases state.entries.len(),
{
    if state.entries.len() == 0 {
        reveal(Seq::filter);
        assert(state.indexed() =~= Seq::empty());
    } else {
        lemma_visible_positions_rise(without_last(state));
        lemma_visible_unfolds(state);
    }
}

/// `DeleteDone` leaves in the list what the filter `Active` shows of it.
pub proof fn lemma_delete_done_leaves_active(state: StateView)
    ensures
        state.step(MessageView::DeleteDone).entries == (StateView {
            filter: Filter::Active,
            ..state
        }).visible().map_values(|p: (int, EntryView)| p.1),
    decreases state.entries.len(),
{
    let pending = |e: EntryView| !e.completed;
    let active = StateView { filter: Filter::Active, ..state };
    let entry_of = |p: (int, EntryView)| p.1;
    if state.entries.len() == 0 {
        reveal(Seq::filter);
        assert(active.indexed() =~= Seq::empty());
        assert(active.visible().map_values(entry_of) =~= state.entries.filter(pending));
    } else {
        lemma_delete_done_leaves_active(without_last(state));
        lemma_visible_unfolds(active);
        assert(without_last(active) == StateView {
            filter: Filter::Active,
            ..without_last(state)
        });
        assert(state.entries =~= state.entries.drop_last().push(state.entries.last()));
        state.entries.drop_last().lemma_filter_push(state.entries.last(), pending);
        assert(active.visible().map_values(entry_of) =~= state.entries.filter(pending));
    }
}

/// `DeleteDone` keeps the order of the list. The entries that it leaves are
/// those at the positions that the filter `Active` shows: these positions
/// rise, the entry left at each place is the one that stood at its position,
/// and every position of an entry that was not completed is among them.
pub proof fn lemma_delete_done_keeps_order(state: StateView)
    ensures
        ({
            let next = state.step(MessageView::DeleteDone);
            let kept = (StateView { filter: Filter::Active, ..state }).visible().map_values(
                |p: (int, EntryView)| p.0,
            );
            &&& kept.len() == next.entries.len()
            &&& forall|k: int|
                0 <= k < kept.len() ==> 0 <= (#[trigger] kept[k]) < state.entries.len()
                    && next.entries[k] == state.entries[kept[k]]
            &&& forall|j: int, k: int|
                0 <= j < k < kept.len() ==> (#[trigger] kept[j]) < (#[trigger] kept[k])
            &&& forall|i: int|
                0 <= i < state.entries.len() && !(#[trigger] state.entries[i]).completed
                    ==> kept.contains(i)
        }),
{
    let active = StateView { filter: Filter::Active, ..state };
    let next = state.step(MessageView::DeleteDone);
    let kept = active.visible().map_values(|p: (int, EntryView)| p.0);
    lemma_delete_done_leaves_active(state);
    lemma_visible_positions_rise(active);
    lemma_visible_entries_are_admitted(active);
    assert forall|i: int|
        0 <= i < state.entries.len() && !(#[trigger] state.entries[i]).completed implies kept.contains(
        i,
    ) by {
        assert(active.visible().contains((i, active.entries[i])));
        let k = choose|k: int|
            0 <= k < active.visible().len() && active.visible()[k] == (i, active.entries[i]);
        assert(kept[k] == i);
    }
}

/// What is visible is what the filter admits: each visible pair holds a
/// position of the list and the entry there, the filter admits that entry,
/// and every entry that the filter admits is visible with its position.
pub proof fn lemma_visible_entries_are_admitted(state: StateView)
    ensures
        forall|k: int|
            0 <= k < state.visible().len() ==> {
                let (i, entry) = #[trigger] state.visible()[k];
                &&& 0 <= i < state.entries.len()
                &&& state.entries[i] == entry
                &&& state.filter.admits(entry)
            },
        forall|i: int|
            0 <= i < state.entries.len() && state.filter.admits(state.entries[i])
                ==> state.visible().contains((i, #[trigger] state.entries[i])),
{
    let admitted = |p: (int, EntryView)| state.filter.admits(p.1);
    let pairs = state.indexed();
    assert forall|k: int| 0 <= k < state.visible().len() implies {
        let (i, entry) = #[trigger] state.visible()[k];
        &&& 0 <= i < state.entries.len()
        &&& state.entries[i] == entry
        &&& state.filter.admits(entry)
    } by {
        pairs.lemma_filter_pred(admitted, k);
        pairs.lemma_filter_contains_rev(admitted, state.visible()[k]);
        let at = choose|at: int| 0 <= at < pairs.len() && pairs[at] == state.visible()[k];
        assert(pairs[at] == (at, state.entries[at]));
    }
    assert forall|i: int|
        0 <= i < state.entries.len() && state.filter.admits(
            state.entries[i],
        ) implies state.visible().contains((i, #[trigger] state.entries[i])) by {
        assert(pairs[i] == (i, state.entries[i]));
        pairs.lemma_filter_contains(admitted, i);
    }
}

/// Once the filter is set to `Done`, only completed entries are visible.
pub proof fn lemma_done_filter_shows_completed(state: StateView)
    ensures
        forall|k: int|
            0 <= k < state.step(MessageView::SetFilter(Filter::Done)).visible().len() ==> (
            #[trigger] state.step(MessageView::SetFilter(Filter::Done)).visible()[k]).1.completed,
{
    lemma_visible_entries_are_admitted(state.step(MessageView::SetFilter(Filter::Done)));
}

/// A state without entries counts as all completed, whatever its filter and
/// its input field hold.
pub proof fn lemma_empty_list_is_all_completed(state: StateView)
    requires
        state.entries.len() == 0,
    ensures
        state.all_completed(),
{
}

/// A message that addresses a position outside the list changes nothing.
pub proof fn lemma_rejected_message_changes_nothing(state: StateView, msg: MessageView)
    requires
        state.rejects(msg),
    ensures
        state.step(msg) == state,
{
}

/// `Create` adds at most one entry, at the end of the list and not yet
/// completed, and then empties the input field; the entries that were there
/// stay where they were.
pub proof fn lemma_create_appends(state: StateView)
    ensures
        ({
            let next = state.step(MessageView::Create);
            next == state || (next.entries.len() == state.entries.len() + 1
                && next.entries.drop_last() == state.entries && !next.entries.last().completed
                && next.edit_buffer.len() == 0 && next.filter == state.filter)
        }),
{
    let next = state.step(MessageView::Create);
    if next != state {
        assert(next.entries.drop_last() =~= state.entries);
    }
}

/// `Delete` takes the entry at its position out of the list; the entries
/// before it and after it stay, in their order.
pub proof fn lemma_delete_removes_one(state: StateView, idx: nat)
    requires
        idx < state.entries.len(),
    ensures
        state.step(MessageView::Delete(idx)).entries == state.entries.take(idx as int)
            + state.entries.skip(idx as int + 1),
{
    assert(state.entries.remove(idx as int) =~= state.entries.take(idx as int)
        + state.entries.skip(idx as int + 1));
}

/// Only `Delete` and `DeleteDone` remove entries. After any other message
/// every entry but the one that the message addresses is what it was, where
/// it was.
pub proof fn lemma_only_deletion_removes(state: StateView, msg: MessageView)
    requires
        !(msg is Delete),
        !(msg is DeleteDone),
    ensures
        state.step(msg).entries.len() >= state.entries.len(),
        forall|i: int|
            0 <= i < state.entries.len() && msg.index() != Some(i as nat) ==> state.step(
                msg,
            ).entries[i] == state.entries[i],
{
}

} // verus!
