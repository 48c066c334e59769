//! Which entries are shown.

use vstd::prelude::*;

use crate::entry::{Entry, EntryView};

verus! {

/// Selects entries by their completion flag.
#[derive(Copy, Clone, Debug, PartialEq, Eq, Hash, Structural)]
pub enum Filter {
    All,
    Active,
    Done,
}

impl Default for Filter {
    /// The filter of a new session shows every entry.
    fn default() -> (filter: Self)
        ensures
            filter == Filter::All,
    {
        Filter::All
    }
}

impl Filter {
    /// Whether an entry with the given value is shown under this filter.
    pub open spec fn admits(self, entry: EntryView) -> bool {
        match self {
            Filter::All => true,
            Filter::Active => !entry.completed,
            Filter::Done => entry.completed,
        }
    }

    /// The characters of the filter's name.
    pub open spec fn name_text(self) -> Seq<char> {
        match self {
            Filter::All => "All"@,
            Filter::Active => "Active"@,
            Filter::Done => "Done"@,
        }
    }

    /// The filter that bears a name, if one does.
    pub open spec fn named(name: Seq<char>) -> Option<Filter> {
        if name == Filter::All.name_text() {
            Some(Filter::All)
        } else if name == Filter::Active.name_text() {
            Some(Filter::Active)
        } else if name == Filter::Done.name_text() {
            Some(Filter::Done)
        } else {
            None
        }
    }

    /// The filters in the order in which their controls are shown.
    pub open spec fn listed() -> Seq<Filter> {
        seq![Filter::All, Filter::Active, Filter::Done]
    }

    /// Tells whether `entry` is shown under this filter.
    pub fn passes(&self, entry: &Entry) -> (shown: bool)
        ensures
            shown == self.admits(entry@),
    {
        match self {
            Filter::All => true,
            Filter::Active => !entry.completed,
            Filter::Done => entry.completed,
        }
    }

    /// The name under which the filter is shown and stored.
    pub fn name(&self) -> (name: &'static str)
        ensures
            name@ == self.name_text(),
    {
        match self {
            Filter::All => "All",
            Filter::Active => "Active",
            Filter::Done => "Done",
        }
    }

    /// Finds the filter that bears `name`.
    pub fn from_name(name: &str) -> (found: Option<Filter>)
        ensures
            found == Filter::named(name@),
    {
        let name = name.to_owned();
        if name == Filter::All.name().to_owned() {
            Some(Filter::All)
        } else if name == Filter::Active.name().to_owned() {
            Some(Filter::Active)
        } else if name == Filter::Done.name().to_owned() {
            Some(Filter::Done)
        } else {
            None
        }
    }

    /// All filters, in the order in which their controls are shown.
    pub fn variants() -> (all: Vec<Filter>)
        ensures
            all@ == Filter::listed(),
    {
        let mut all: Vec<Filter> = Vec::new();
        all.push(Filter::All);
        all.push(Filter::Active);
        all.push(Filter::Done);
        assert(all@ =~= Filter::listed());
        all
    }
}

/// Every filter is found again by its name: no two filters share one.
pub proof fn lemma_name_identifies_filter(filter: Filter)
    ensures
        Filter::named(filter.name_text()) == Some(filter),
{
    reveal_strlit("All");
    reveal_strlit("Active");
    reveal_strlit("Done");
    assert("All"@.len() == 3 && "Active"@.len() == 6 && "Done"@.len() == 4);
}

} // verus!
