//! Where a person sets out from: the places they have named, and which of them is
//! the starting point.

use crate::maps::TravelMode;
use crate::text::same_text;
use vstd::prelude::*;

verus! {

/// A starting point: an address, and the way of travelling from it.
#[derive(Debug)]
pub struct Place {
    pub location: String,
    pub transit: String,
}

/// The place called `start` among the three a person can name; `None` for any other
/// name.
pub open spec fn place_named(start: Seq<char>, home: Place, school: Place, work: Place) -> Option<
    Place,
> {
    if start == "home"@ {
        Some(home)
    } else if start == "school"@ {
        Some(school)
    } else if start == "work"@ {
        Some(work)
    } else {
        None
    }
}

/// Picks the starting point by its name: `home`, `school` or `work`.
pub fn select_place(start: &str, home: Place, school: Place, work: Place) -> (r: Option<Place>)
    ensures
        r == place_named(start@, home, school, work),
{
    if same_text(start, "home") {
        Some(home)
    } else if same_text(start, "school") {
        Some(school)
    } else if same_text(start, "work") {
        Some(work)
    } else {
        None
    }
}

/// The travel mode that a name stands for: `walk`, `car` or `transit`; `None` for
/// any other name.
pub open spec fn mode_named(name: Seq<char>) -> Option<TravelMode> {
    if name == "walk"@ {
        Some(TravelMode::Walking)
    } else if name == "car"@ {
        Some(TravelMode::Driving)
    } else if name == "transit"@ {
        Some(TravelMode::Transit)
    } else {
        None
    }
}

/// Reads a travel mode from its name.
pub fn travel_mode_named(name: &str) -> (r: Option<TravelMode>)
    ensures
        r == mode_named(name@),
{
    if same_text(name, "walk") {
        Some(TravelMode::Walking)
    } else if same_text(name, "car") {
        Some(TravelMode::Driving)
    } else if same_text(name, "transit") {
        Some(TravelMode::Transit)
    } else {
        None
    }
}

/// The travel mode for a run: the one named on the command line where there is
/// one, else the one of the starting point. `None` where the name that counts is
/// not the name of a travel mode.
pub open spec fn mode_chosen(place_transit: Seq<char>, named: Option<Seq<char>>) -> Option<
    TravelMode,
> {
    if mode_named(place_transit) is None {
        None
    } else {
        match named {
            Some(name) => mode_named(name),
            None => mode_named(place_transit),
        }
    }
}

/// Chooses the travel mode for a run. The mode of the starting point must be a
/// known one even where another is named in its place.
pub fn choose_travel_mode(place: &Place, named: Option<&str>) -> (r: Option<TravelMode>)
    ensures
        r == mode_chosen(
            place.transit@,
            match named {
                Some(name) => Some(name@),
                None => None,
            },
        ),
{
    match travel_mode_named(place.transit.as_str()) {
        None => None,
        Some(own) => match named {
            Some(name) => travel_mode_named(name),
            None => Some(own),
        },
    }
}

} // verus!
