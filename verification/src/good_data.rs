//! Whether the record of an event is filled in.

use crate::event::{Event, EventView};
use crate::text::{any_filled, has_filled_item, is_blank, str_is_blank};
use vstd::prelude::*;

verus! {

/// An event is complete when its start, end, location, description, price and
/// source each hold more than whitespace, and so does at least one of its tags and
/// at least one item of its check list.
pub open spec fn is_complete(event: EventView) -> bool {
    &&& !is_blank(event.start_time)
    &&& !is_blank(event.end_time)
    &&& !is_blank(event.location)
    &&& !is_blank(event.description)
    &&& !is_blank(event.price)
    &&& !is_blank(event.source)
    &&& any_filled(event.tags)
    &&& any_filled(event.check_list)
}

/// Whether `event` is complete.
pub fn validate_good_data(event: &Event) -> (r: bool)
    ensures
        r == is_complete(event@),
{
    !str_is_blank(event.start_time.as_str()) && !str_is_blank(event.end_time.as_str())
        && !str_is_blank(event.location.as_str()) && !str_is_blank(event.description.as_str())
        && !str_is_blank(event.price.as_str()) && has_filled_item(&event.tags) && !str_is_blank(
        event.source.as_str(),
    ) && has_filled_item(&event.check_list)
}

/// An event with a blank start, end, location, description, price or source is not
/// complete, whatever else it holds.
pub proof fn lemma_blank_field_is_incomplete(event: EventView)
    requires
        is_blank(event.start_time) || is_blank(event.end_time) || is_blank(event.location)
            || is_blank(event.description) || is_blank(event.price) || is_blank(event.source),
    ensures
        !is_complete(event),
{
}

/// A list without a filled item leaves the event incomplete, and a filled item in
/// one list does not make up for the other: an event is complete only if both its
/// tags and its check list hold one. In particular an event whose lists are both
/// empty is not complete, and stays so when an item is added to one of them.
pub proof fn lemma_both_lists_are_needed(event: EventView, item: Seq<char>)
    ensures
        !any_filled(event.tags) ==> !is_complete(event),
        !any_filled(event.check_list) ==> !is_complete(event),
        event.tags.len() == 0 ==> !is_complete(event),
        event.check_list.len() == 0 ==> !is_complete(event),
        !any_filled(event.check_list) ==> !is_complete(
            EventView { tags: event.tags.push(item), ..event },
        ),
        !any_filled(event.tags) ==> !is_complete(
            EventView { check_list: event.check_list.push(item), ..event },
        ),
{
}

} // verus!
