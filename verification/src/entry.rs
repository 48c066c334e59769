//! One item of the list.

use vstd::prelude::*;
use vstd::string::StringExecFns;

verus! {

/// The mathematical value of an [`Entry`].
pub struct EntryView {
    pub text: Seq<char>,
    pub completed: bool,
}

/// One to-do item: what it says and whether it is done.
#[derive(Debug, PartialEq, Eq)]
pub struct Entry {
    pub text: String,
    pub completed: bool,
}

impl View for Entry {
    type V = EntryView;

    open spec fn view(&self) -> EntryView {
        EntryView { text: self.text@, completed: self.completed }
    }
}

impl EntryView {
    /// The style classes of the entry's list item.
    pub open spec fn class_text(self) -> Seq<char> {
        if self.completed {
            "todo"@ + " completed"@
        } else {
            "todo"@
        }
    }
}

impl Entry {
    /// The style classes of the entry's list item: `todo`, and `completed`
    /// once it is done.
    pub fn class_name(&self) -> (class: String)
        ensures
            class@ == self@.class_text(),
    {
        let mut class = String::from_str("todo");
        if self.completed {
            class.append(" completed");
        }
        class
    }
}

impl Clone for Entry {
    fn clone(&self) -> (copy: Self)
        ensures
            copy@ == self@,
    {
        Entry { text: self.text.clone(), completed: self.completed }
    }
}

} // verus!
