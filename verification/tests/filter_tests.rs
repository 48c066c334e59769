use todo_store::{Entry, Filter};
use yew::html::Href;

fn entry(text: &str, completed: bool) -> Entry {
    Entry { text: text.to_string(), completed }
}

#[test]
fn all_passes_every_entry() {
    assert!(Filter::All.passes(&entry("a", false)));
    assert!(Filter::All.passes(&entry("a", true)));
}

#[test]
fn active_passes_pending_entries_only() {
    assert!(Filter::Active.passes(&entry("a", false)));
    assert!(!Filter::Active.passes(&entry("a", true)));
}

#[test]
fn done_passes_completed_entries_only() {
    assert!(!Filter::Done.passes(&entry("a", false)));
    assert!(Filter::Done.passes(&entry("a", true)));
}

#[test]
fn passes_ignores_the_text() {
    for filter in Filter::variants() {
        assert_eq!(filter.passes(&entry("", true)), filter.passes(&entry("other", true)));
        assert_eq!(filter.passes(&entry("", false)), filter.passes(&entry("other", false)));
    }
}

#[test]
fn default_filter_is_all() {
    assert_eq!(Filter::default(), Filter::All);
}

#[test]
fn variants_are_listed_in_display_order() {
    assert_eq!(Filter::variants(), vec![Filter::All, Filter::Active, Filter::Done]);
}

#[test]
fn names_are_the_variant_names() {
    assert_eq!(Filter::All.name(), "All");
    assert_eq!(Filter::Active.name(), "Active");
    assert_eq!(Filter::Done.name(), "Done");
}

#[test]
fn from_name_finds_each_filter_by_its_name() {
    for filter in Filter::variants() {
        assert_eq!(Filter::from_name(filter.name()), Some(filter));
    }
}

#[test]
fn from_name_refuses_other_names() {
    assert_eq!(Filter::from_name(""), None);
    assert_eq!(Filter::from_name("all"), None);
    assert_eq!(Filter::from_name("ALL"), None);
    assert_eq!(Filter::from_name(" Done"), None);
    assert_eq!(Filter::from_name("Done "), None);
    assert_eq!(Filter::from_name("Completed"), None);
    assert_eq!(Filter::from_name("#/done"), None);
}

#[test]
fn fragments_select_the_filters() {
    assert_eq!(Filter::All.fragment(), "#/");
    assert_eq!(Filter::Active.fragment(), "#/active");
    assert_eq!(Filter::Done.fragment(), "#/done");
}

#[test]
fn href_carries_the_fragment() {
    let all: Href = Filter::All.into();
    let active: Href = Filter::Active.into();
    let done: Href = Filter::Done.into();
    assert_eq!(all.to_string(), "#/");
    assert_eq!(active.to_string(), "#/active");
    assert_eq!(done.to_string(), "#/done");
}

#[test]
fn href_of_each_filter_is_its_fragment() {
    for filter in Filter::variants() {
        let href: Href = filter.into();
        assert_eq!(href.to_string(), filter.fragment());
    }
}
