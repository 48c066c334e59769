//! What a user can ask of the list.

use vstd::prelude::*;

use crate::filter::Filter;

verus! {

/// The mathematical value of a [`Message`].
pub enum MessageView {
    Create,
    Delete(nat),
    DeleteDone,
    Update(nat, Seq<char>),
    UpdateBuffer(Seq<char>),
    SetFilter(Filter),
    Toggle(nat),
    Noop,
}

impl MessageView {
    /// The position in the list that the message addresses, if it addresses
    /// one.
    pub open spec fn index(self) -> Option<nat> {
        match self {
            MessageView::Delete(idx) => Some(idx),
            MessageView::Update(idx, _) => Some(idx),
            MessageView::Toggle(idx) => Some(idx),
            _ => None,
        }
    }
}

/// A request to change the state.
#[derive(Debug, PartialEq, Eq)]
pub enum Message {
    /// Append the trimmed input field as a new entry.
    Create,
    /// Remove the entry at a position.
    Delete(usize),
    /// Remove every completed entry.
    DeleteDone,
    /// Replace the text of the entry at a position.
    Update(usize, String),
    /// Replace the contents of the input field.
    UpdateBuffer(String),
    /// Show the entries that a filter admits.
    SetFilter(Filter),
    /// Flip the completion flag of the entry at a position.
    Toggle(usize),
    /// Change nothing; the view is still drawn again.
    Noop,
}

impl View for Message {
    type V = MessageView;

    open spec fn view(&self) -> MessageView {
        match *self {
            Message::Create => MessageView::Create,
            Message::Delete(idx) => MessageView::Delete(idx as nat),
            Message::DeleteDone => MessageView::DeleteDone,
            Message::Update(idx, text) => MessageView::Update(idx as nat, text@),
            Message::UpdateBuffer(text) => MessageView::UpdateBuffer(text@),
            Message::SetFilter(filter) => MessageView::SetFilter(filter),
            Message::Toggle(idx) => MessageView::Toggle(idx as nat),
            Message::Noop => MessageView::Noop,
        }
    }
}

impl Message {
    /// The message that a key pressed in the input field gives: the
    /// key named `Enter` creates the entry, any other changes nothing.
    pub fn for_key(key: &str) -> (msg: Message)
        ensures
            msg@ == if key@ == "Enter"@ {
                MessageView::Create
            } else {
                MessageView::Noop
            },
    {
        if key.to_owned() == "Enter".to_owned() {
            Message::Create
        } else {
            Message::Noop
        }
    }
}

} // verus!
