//! The partial order of requirements as `<`, `>` and `partial_cmp`.

use crate::interval::RangeOrder;
use crate::requirement::{
    lemma_requirement_order_antisymmetric, requirement_interval, requirement_order, Version,
};
use std::cmp::Ordering;
use vstd::std_specs::cmp::PartialOrdSpec;
use vstd::prelude::*;

verus! {

/// An order between intervals as `partial_cmp` gives it: nothing where the
/// two are incomparable.
pub open spec fn partial_ordering(order: RangeOrder) -> Option<Ordering> {
    match order {
        RangeOrder::Equal => Some(Ordering::Equal),
        RangeOrder::Less => Some(Ordering::Less),
        RangeOrder::Greater => Some(Ordering::Greater),
        RangeOrder::Incomparable => None,
    }
}

/// Turns an order between intervals into the form of `partial_cmp`.
pub fn to_partial_ordering(order: RangeOrder) -> (r: Option<Ordering>)
    ensures
        r == partial_ordering(order),
{
    match order {
        RangeOrder::Equal => Some(Ordering::Equal),
        RangeOrder::Less => Some(Ordering::Less),
        RangeOrder::Greater => Some(Ordering::Greater),
        RangeOrder::Incomparable => None,
    }
}

impl PartialOrd for Version {
    /// Requirements are ordered as the intervals of versions they allow.
    fn partial_cmp(&self, other: &Self) -> (r: Option<Ordering>) {
        to_partial_ordering(self.compare(other))
    }
}

impl vstd::std_specs::cmp::PartialOrdSpecImpl for Version {
    open spec fn obeys_partial_cmp_spec() -> bool {
        true
    }

    open spec fn partial_cmp_spec(&self, other: &Self) -> Option<Ordering> {
        partial_ordering(requirement_order(self@, other@))
    }
}

/// `partial_cmp` finds a requirement that allows at least one version equal
/// to itself.
pub proof fn lemma_partial_cmp_reflexive(version: Version)
    requires
        requirement_interval(version@).is_valid(),
    ensures
        version.partial_cmp_spec(&version) == Some(Ordering::Equal),
{
}

/// `a < b` exactly when `b > a`, and `partial_cmp` finds `a` equal to `b`
/// exactly when it finds `b` equal to `a`.
pub proof fn lemma_partial_cmp_antisymmetric(a: Version, b: Version)
    ensures
        a.partial_cmp_spec(&b) == Some(Ordering::Less) <==> b.partial_cmp_spec(&a) == Some(
            Ordering::Greater,
        ),
        a.partial_cmp_spec(&b) == Some(Ordering::Equal) <==> b.partial_cmp_spec(&a) == Some(
            Ordering::Equal,
        ),
        a.partial_cmp_spec(&b) is None <==> b.partial_cmp_spec(&a) is None,
{
    lemma_requirement_order_antisymmetric(a@, b@);
}

} // verus!
