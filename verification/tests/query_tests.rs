use todo_store::{Entry, Filter, State};

fn entry(text: &str, completed: bool) -> Entry {
    Entry { text: text.to_string(), completed }
}

fn state(entries: Vec<Entry>, filter: Filter) -> State {
    State { entries, filter, edit_buffer: String::new() }
}

#[test]
fn default_state_is_empty_and_shows_all() {
    let state = State::default();
    assert!(state.entries.is_empty());
    assert_eq!(state.filter, Filter::All);
    assert_eq!(state.edit_buffer, "");
}

#[test]
fn empty_list_is_all_completed() {
    assert!(State::default().is_all_completed());
    for filter in Filter::variants() {
        let state = State { entries: vec![], filter, edit_buffer: "typing".to_string() };
        assert!(state.is_all_completed());
    }
}

#[test]
fn list_with_a_pending_entry_is_not_all_completed() {
    assert!(!state(vec![entry("a", false)], Filter::All).is_all_completed());
    assert!(!state(vec![entry("a", true), entry("b", false)], Filter::All).is_all_completed());
    assert!(!state(vec![entry("a", false), entry("b", true)], Filter::All).is_all_completed());
}

#[test]
fn list_of_completed_entries_is_all_completed() {
    assert!(state(vec![entry("a", true)], Filter::Active).is_all_completed());
    assert!(state(vec![entry("a", true), entry("b", true)], Filter::All).is_all_completed());
}

#[test]
fn total_completed_counts_completed_entries() {
    assert_eq!(State::default().total_completed(), 0);
    assert_eq!(state(vec![entry("a", false)], Filter::All).total_completed(), 0);
    assert_eq!(state(vec![entry("a", true)], Filter::All).total_completed(), 1);
    let mixed = state(
        vec![entry("a", true), entry("b", false), entry("c", true), entry("d", true)],
        Filter::Active,
    );
    assert_eq!(mixed.total_completed(), 3);
}

#[test]
fn total_completed_does_not_depend_on_the_filter() {
    for filter in Filter::variants() {
        let state = state(vec![entry("a", true), entry("b", false)], filter);
        assert_eq!(state.total_completed(), 1);
    }
}

#[test]
fn active_filter_shows_pending_entries_with_their_positions() {
    let state = state(vec![entry("A", false), entry("B", true)], Filter::Active);
    assert_eq!(state.visible_entries(), vec![(0, &entry("A", false))]);
}

#[test]
fn done_filter_shows_completed_entries_with_their_positions() {
    let state = state(
        vec![entry("A", false), entry("B", true), entry("C", false), entry("D", true)],
        Filter::Done,
    );
    assert_eq!(state.visible_entries(), vec![(1, &entry("B", true)), (3, &entry("D", true))]);
}

#[test]
fn all_filter_shows_every_entry_in_order() {
    let state = state(vec![entry("A", false), entry("B", true), entry("A", false)], Filter::All);
    assert_eq!(
        state.visible_entries(),
        vec![(0, &entry("A", false)), (1, &entry("B", true)), (2, &entry("A", false))]
    );
}

#[test]
fn nothing_is_visible_of_an_empty_list() {
    for filter in Filter::variants() {
        assert!(state(vec![], filter).visible_entries().is_empty());
    }
}

#[test]
fn nothing_is_visible_where_the_filter_admits_nothing() {
    assert!(state(vec![entry("a", true)], Filter::Active).visible_entries().is_empty());
    assert!(state(vec![entry("a", false)], Filter::Done).visible_entries().is_empty());
}

#[test]
fn visible_entries_can_be_asked_for_again() {
    let state = state(vec![entry("A", false), entry("B", true)], Filter::Done);
    assert_eq!(state.visible_entries(), state.visible_entries());
}

#[test]
fn visible_entries_borrow_the_entries_of_the_list() {
    let state = state(vec![entry("A", false), entry("B", true)], Filter::All);
    for (position, shown) in state.visible_entries() {
        assert!(std::ptr::eq(shown, &state.entries[position]));
    }
}

#[test]
fn filter_class_marks_the_filter_in_force() {
    let state = state(vec![], Filter::Active);
    assert_eq!(state.filter_class(Filter::All), "not-selected");
    assert_eq!(state.filter_class(Filter::Active), "selected");
    assert_eq!(state.filter_class(Filter::Done), "not-selected");
}

#[test]
fn class_name_marks_completed_entries() {
    assert_eq!(entry("a", false).class_name(), "todo");
    assert_eq!(entry("a", true).class_name(), "todo completed");
}

#[test]
fn clone_copies_text_and_flag() {
    let original = entry("Buy milk", true);
    assert_eq!(original.clone(), original);
    let other = entry("", false);
    assert_eq!(other.clone(), other);
}
