use todo_store::{DeserializationError, Entry, Filter, Snapshot, State, KEY};

fn entry(text: &str, completed: bool) -> Entry {
    Entry { text: text.to_string(), completed }
}

fn sample(filter: Filter) -> State {
    State {
        entries: vec![entry("A", false), entry("", true), entry("\u{65e5}\u{672c}", true)],
        filter,
        edit_buffer: " half typed".to_string(),
    }
}

#[test]
fn storage_key_is_fixed() {
    assert_eq!(KEY, "yew-sample-todo.self");
}

#[test]
fn snapshot_writes_the_filter_by_name() {
    let snapshot = sample(Filter::Active).snapshot();
    assert_eq!(
        snapshot,
        Snapshot {
            entries: vec![entry("A", false), entry("", true), entry("\u{65e5}\u{672c}", true)],
            filter: "Active".to_string(),
            edit_buffer: " half typed".to_string(),
        }
    );
}

#[test]
fn snapshot_is_read_back_as_the_state() {
    for filter in Filter::variants() {
        let state = sample(filter);
        assert_eq!(State::from_snapshot(state.snapshot()), Ok(sample(filter)));
    }
    assert_eq!(State::from_snapshot(State::default().snapshot()), Ok(State::default()));
}

#[test]
fn snapshot_with_an_unknown_filter_is_refused() {
    let snapshot = Snapshot {
        entries: vec![entry("A", false)],
        filter: "Completed".to_string(),
        edit_buffer: String::new(),
    };
    assert_eq!(
        State::from_snapshot(snapshot),
        Err(DeserializationError { filter: "Completed".to_string() })
    );
}

#[test]
fn filter_names_are_read_exactly() {
    for name in ["", "all", "ACTIVE", "Done ", "#/"] {
        let snapshot =
            Snapshot { entries: vec![], filter: name.to_string(), edit_buffer: String::new() };
        assert_eq!(
            State::from_snapshot(snapshot),
            Err(DeserializationError { filter: name.to_string() })
        );
    }
}

#[test]
fn restore_without_a_record_starts_empty() {
    assert_eq!(State::restore(None), (State::default(), None));
}

#[test]
fn restore_with_a_valid_record_gives_its_state() {
    for filter in Filter::variants() {
        assert_eq!(State::restore(Some(sample(filter).snapshot())), (sample(filter), None));
    }
}

#[test]
fn restore_with_an_invalid_record_starts_empty_and_reports_it() {
    let snapshot = Snapshot {
        entries: vec![entry("A", false)],
        filter: "Pending".to_string(),
        edit_buffer: "draft".to_string(),
    };
    assert_eq!(
        State::restore(Some(snapshot)),
        (State::default(), Some(DeserializationError { filter: "Pending".to_string() }))
    );
}

#[test]
fn state_survives_a_session() {
    let mut state = State::default();
    state.apply(todo_store::Message::UpdateBuffer("Buy milk".to_string()));
    state.apply(todo_store::Message::Create);
    state.apply(todo_store::Message::Toggle(0));
    state.apply(todo_store::Message::SetFilter(Filter::Done));
    state.apply(todo_store::Message::UpdateBuffer("next".to_string()));
    let (restored, error) = State::restore(Some(state.snapshot()));
    assert_eq!(error, None);
    assert_eq!(restored, state);
    assert_eq!(restored.entries, vec![entry("Buy milk", true)]);
}
