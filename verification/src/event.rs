//! The record of one event, as listings and storage hand it over.

use vstd::prelude::*;

verus! {

/// One event. Every field is text, as it was found.
#[derive(Debug)]
pub struct Event {
    pub name: String,
    /// Six numbers between commas: year, month, day, hour, minute, second.
    pub start_time: String,
    /// In the form of `start_time`.
    pub end_time: String,
    /// An address that a map service can find.
    pub location: String,
    pub description: String,
    /// A whole number of currency units.
    pub price: String,
    pub tags: Vec<String>,
    /// The address of the page the event was found on.
    pub source: String,
    /// What to prepare before going.
    pub check_list: Vec<String>,
}

/// What an `Event` holds: each text as its characters, each list as a sequence of
/// texts.
pub struct EventView {
    pub name: Seq<char>,
    pub start_time: Seq<char>,
    pub end_time: Seq<char>,
    pub location: Seq<char>,
    pub description: Seq<char>,
    pub price: Seq<char>,
    pub tags: Seq<Seq<char>>,
    pub source: Seq<char>,
    pub check_list: Seq<Seq<char>>,
}

impl View for Event {
    type V = EventView;

    open spec fn view(&self) -> EventView {
        EventView {
            name: self.name@,
            start_time: self.start_time@,
            end_time: self.end_time@,
            location: self.location@,
            description: self.description@,
            price: self.price@,
            tags: self.tags.deep_view(),
            source: self.source@,
            check_list: self.check_list.deep_view(),
        }
    }
}

impl DeepView for Event {
    type V = EventView;

    open spec fn deep_view(&self) -> EventView {
        self@
    }
}

impl Clone for Event {
    /// A copy that holds the same texts.
    fn clone(&self) -> (r: Event)
        ensures
            r@ == self@,
    {
        Event {
            name: self.name.clone(),
            start_time: self.start_time.clone(),
            end_time: self.end_time.clone(),
            location: self.location.clone(),
            description: self.description.clone(),
            price: self.price.clone(),
            tags: self.tags.clone(),
            source: self.source.clone(),
            check_list: self.check_list.clone(),
        }
    }
}

} // verus!
