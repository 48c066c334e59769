//! The address fragment that selects a filter.

use vstd::prelude::*;
use yew::html::Href;

use crate::filter::Filter;

verus! {

/// The value that yew takes for an `href` attribute, `yew::html::Href`.
/// Nothing inside it is visible to the verifier.
#[verifier::external_type_specification]
#[verifier::external_body]
pub struct ExHref(yew::html::Href);

/// The link that an `Href` carries: the text that its `to_string` returns.
pub uninterp spec fn href_link(href: Href) -> Seq<char>;

/// Calls yew's `Href::from` on a string slice. yew stores a copy of the
/// slice in the new value, so the link that the value carries is the text of
/// the slice. This is believed, not proved.
#[verifier::external_body]
fn href_from(link: &str) -> (href: Href)
    ensures
        href_link(href) == link@,
{
    Href::from(link)
}

impl Filter {
    /// The fragment that selects this filter, as a sequence of characters.
    pub open spec fn fragment_text(self) -> Seq<char> {
        match self {
            Filter::All => "#/"@,
            Filter::Active => "#/active"@,
            Filter::Done => "#/done"@,
        }
    }

    /// The fragment of an address that selects this filter.
    pub fn fragment(&self) -> (text: &'static str)
        ensures
            text@ == self.fragment_text(),
    {
        match self {
            Filter::All => "#/",
            Filter::Active => "#/active",
            Filter::Done => "#/done",
        }
    }
}

/// An `Href` has no value in specifications that a conversion could be
/// equated with: what `into` returns is stated by the link it carries.
impl vstd::std_specs::convert::IntoSpecImpl<Href> for Filter {
    open spec fn obeys_into_spec() -> bool {
        false
    }

    open spec fn into_spec(self) -> Href {
        arbitrary()
    }
}

impl Into<Href> for Filter {
    /// The `href` value that selects this filter: it carries the filter's
    /// fragment.
    fn into(self) -> (href: Href)
        ensures
            href_link(href) == self.fragment_text(),
    {
        href_from(self.fragment())
    }
}

} // verus!
