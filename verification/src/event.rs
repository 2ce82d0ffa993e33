//! The `Event` record: the sole domain entity, keyed by `id`, carrying a
//! mutable `title`.

use vstd::prelude::*;

verus! {

/// The abstract value of an [`Event`]: both fields as character sequences.
#[verifier::ext_equal]
pub ghost struct EventView {
    pub id: Seq<char>,
    pub title: Seq<char>,
}

/// The domain entity. `id` is externally supplied and acts as the primary
/// key; `title` is the one mutable attribute. No validation is applied to
/// either field: any string is accepted.
#[derive(Debug)]
pub struct Event {
    pub id: String,
    pub title: String,
}

impl View for Event {
    type V = EventView;

    open spec fn view(&self) -> EventView {
        EventView { id: self.id@, title: self.title@ }
    }
}

/// The abstract values of a sequence of records.
pub open spec fn views(s: Seq<Event>) -> Seq<EventView> {
    s.map_values(|e: Event| e@)
}

impl Event {
    /// Two-field constructor.
    pub fn new(id: String, title: String) -> (r: Self)
        ensures
            r@.id == id@,
            r@.title == title@,
    {
        Event { id, title }
    }
}

impl Clone for Event {
    fn clone(&self) -> (r: Self)
        ensures
            r@ == self@,
    {
        Event { id: self.id.clone(), title: self.title.clone() }
    }
}

impl PartialEq for Event {
    /// Structural equality: both fields must match.
    fn eq(&self, other: &Self) -> (r: bool) {
        self.id == other.id && self.title == other.title
    }
}

impl Eq for Event {

}

impl vstd::std_specs::cmp::PartialEqSpecImpl for Event {
    open spec fn obeys_eq_spec() -> bool {
        true
    }

    open spec fn eq_spec(&self, other: &Self) -> bool {
        self@ == other@
    }
}

} // verus!
