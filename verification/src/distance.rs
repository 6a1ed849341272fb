//! Lengths that carry their unit, ordered by the length they stand for.
//!
//! A `Distance` counts millionths of its unit, so that one kilometre is
//! `1_000_000` with the unit `Kilometer`. One mile is 1.60934 kilometres: 100 000
//! miles are 160 934 kilometres, and every comparison is made on that footing, in
//! whole numbers and without rounding.

use core::cmp::Ordering;
use vstd::prelude::*;
use vstd::std_specs::cmp::{PartialEqSpecImpl, PartialOrdSpecImpl};

verus! {

/// The unit of a `Distance`.
#[derive(Clone, Copy, Debug, PartialEq, Eq, Structural)]
pub enum DistanceUnit {
    Kilometer,
    Mile,
}

/// A length: `value` millionths of `unit`.
#[derive(Clone, Copy, Debug)]
pub struct Distance {
    pub value: u64,
    pub unit: DistanceUnit,
}

/// A travel time in seconds together with the length of the way.
#[derive(Clone, Copy, Debug)]
pub struct TimeDistance {
    pub travel_duration: i64,
    pub distance: Distance,
}

/// How `a` stands to `b` among the integers.
pub open spec fn order_of(a: int, b: int) -> Ordering {
    if a < b {
        Ordering::Less
    } else if a == b {
        Ordering::Equal
    } else {
        Ordering::Greater
    }
}

impl Distance {
    /// The length in the common measure of both units: one kilometre counts
    /// 100 000 million, one mile 160 934 million.
    pub open spec fn length(&self) -> int {
        match self.unit {
            DistanceUnit::Kilometer => self.value * 100_000,
            DistanceUnit::Mile => self.value * 160_934,
        }
    }

    /// The length in millionths of a kilometre, rounded down.
    pub open spec fn kilometers(&self) -> int {
        self.length() / 100_000
    }

    /// The length in millionths of a mile, rounded down.
    pub open spec fn miles(&self) -> int {
        self.length() / 160_934
    }

    /// How this length stands to `other`, whatever their units.
    pub open spec fn order(&self, other: &Distance) -> Ordering {
        order_of(self.length(), other.length())
    }

    /// This length is at most `other`.
    pub open spec fn at_most(&self, other: &Distance) -> bool {
        self.length() <= other.length()
    }

    /// The length of `kilometers` millionths of a kilometre.
    pub fn from_kilometers(kilometers: u64) -> (r: Distance)
        ensures
            r.value == kilometers,
            r.unit == DistanceUnit::Kilometer,
    {
        Distance { value: kilometers, unit: DistanceUnit::Kilometer }
    }

    /// The length of `miles` millionths of a mile.
    pub fn from_miles(miles: u64) -> (r: Distance)
        ensures
            r.value == miles,
            r.unit == DistanceUnit::Mile,
    {
        Distance { value: miles, unit: DistanceUnit::Mile }
    }

    /// The length in the common measure of both units.
    fn measure(&self) -> (r: u128)
        ensures
            r == self.length(),
    {
        match self.unit {
            DistanceUnit::Kilometer => self.value as u128 * 100_000,
            DistanceUnit::Mile => self.value as u128 * 160_934,
        }
    }

    /// The length in millionths of a kilometre, rounded down.
    pub fn to_kilometers(&self) -> (r: u128)
        ensures
            r == self.kilometers(),
            self.unit == DistanceUnit::Kilometer ==> r == self.value,
    {
        self.measure() / 100_000
    }

    /// The length in millionths of a mile, rounded down.
    pub fn to_miles(&self) -> (r: u128)
        ensures
            r == self.miles(),
            self.unit == DistanceUnit::Mile ==> r == self.value,
    {
        self.measure() / 160_934
    }

    /// Compares two lengths, whatever their units.
    pub fn cmp(&self, other: &Distance) -> (r: Ordering)
        ensures
            r == self.order(other),
    {
        let a = self.measure();
        let b = other.measure();
        if a < b {
            Ordering::Less
        } else if a == b {
            Ordering::Equal
        } else {
            Ordering::Greater
        }
    }
}

impl PartialEq for Distance {
    /// Two distances are equal when they stand for the same length.
    fn eq(&self, other: &Distance) -> (r: bool) {
        self.measure() == other.measure()
    }
}

impl PartialEqSpecImpl for Distance {
    open spec fn obeys_eq_spec() -> bool {
        true
    }

    open spec fn eq_spec(&self, other: &Distance) -> bool {
        self.length() == other.length()
    }
}

impl Eq for Distance {

}

impl PartialOrd for Distance {
    /// Distances are ordered by the length they stand for.
    fn partial_cmp(&self, other: &Distance) -> (r: Option<Ordering>) {
        Some(self.cmp(other))
    }
}

impl PartialOrdSpecImpl for Distance {
    open spec fn obeys_partial_cmp_spec() -> bool {
        true
    }

    open spec fn partial_cmp_spec(&self, other: &Distance) -> Option<Ordering> {
        Some(self.order(other))
    }
}

/// Of two distances exactly one is shorter, or they are equal; and each is at most
/// the other or the other at most it.
pub proof fn lemma_order_is_total(a: Distance, b: Distance)
    ensures
        a.order(&b) == Ordering::Less <==> b.order(&a) == Ordering::Greater,
        a.order(&b) == Ordering::Equal <==> b.order(&a) == Ordering::Equal,
        a.at_most(&b) || b.at_most(&a),
        a.at_most(&b) <==> a.order(&b) != Ordering::Greater,
{
}

/// The order of distances is transitive.
pub proof fn lemma_order_is_transitive(a: Distance, b: Distance, c: Distance)
    requires
        a.at_most(&b),
        b.at_most(&c),
    ensures
        a.at_most(&c),
{
}

/// The order does not look at the unit: two distances compare as their lengths in
/// kilometres do wherever those differ, and distances that compare equal have the
/// same length in kilometres and in miles.
pub proof fn lemma_order_follows_length(a: Distance, b: Distance)
    ensures
        a.kilometers() < b.kilometers() ==> a.order(&b) == Ordering::Less,
        a.at_most(&b) ==> a.kilometers() <= b.kilometers() && a.miles() <= b.miles(),
        a.order(&b) == Ordering::Equal ==> a.kilometers() == b.kilometers() && a.miles()
            == b.miles(),
{
}

/// A number of miles is longer than the same number of kilometres.
pub proof fn lemma_mile_exceeds_kilometer(value: u64)
    requires
        value > 0,
    ensures
        (Distance { value, unit: DistanceUnit::Mile }).order(
            &Distance { value, unit: DistanceUnit::Kilometer },
        ) == Ordering::Greater,
{
}

/// 100 000 miles and 160 934 kilometres are one length, and so is every multiple
/// of the two.
pub proof fn lemma_same_length_in_both_units(miles: Distance, kilometers: Distance, k: nat)
    requires
        miles.unit == DistanceUnit::Mile,
        kilometers.unit == DistanceUnit::Kilometer,
        miles.value == k * 100_000,
        kilometers.value == k * 160_934,
    ensures
        miles.order(&kilometers) == Ordering::Equal,
        kilometers.order(&miles) == Ordering::Equal,
{
}

/// A length read back in its own unit is the value it was made of, and a length in
/// miles read in kilometres is 1.60934 times its value, short by less than one
/// millionth of a kilometre.
pub proof fn lemma_conversions(value: u64)
    ensures
        (Distance { value, unit: DistanceUnit::Kilometer }).kilometers() == value,
        (Distance { value, unit: DistanceUnit::Mile }).miles() == value,
        ({
            let km = (Distance { value, unit: DistanceUnit::Mile }).kilometers();
            km * 100_000 <= value * 160_934 < (km + 1) * 100_000
        }),
        ({
            let mi = (Distance { value, unit: DistanceUnit::Kilometer }).miles();
            mi * 160_934 <= value * 100_000 < (mi + 1) * 160_934
        }),
{
}

} // verus!
