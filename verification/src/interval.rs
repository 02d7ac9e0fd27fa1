//! Half-open intervals of versions, one per comparator, and the partial order
//! between them.
//!
//! A bound is a `(major, minor, patch)` triple. Its components are wider than
//! the numbers of a requirement, so that the bound just above the largest
//! version a requirement can name is itself a bound.

use vstd::prelude::*;

verus! {

/// A concrete version, or the bound of an interval of versions.
#[derive(Debug, Clone, Copy, PartialEq, Eq, Structural)]
pub struct VersionTriple {
    pub major: u128,
    pub minor: u128,
    pub patch: u128,
}

impl VersionTriple {
    /// Strict lexicographic order: major first, then minor, then patch.
    pub open spec fn before(self, other: VersionTriple) -> bool {
        ||| self.major < other.major
        ||| (self.major == other.major && self.minor < other.minor)
        ||| (self.major == other.major && self.minor == other.minor && self.patch < other.patch)
    }

    /// `self` is `other` or comes before it.
    pub open spec fn at_most(self, other: VersionTriple) -> bool {
        self == other || self.before(other)
    }

    /// The version `major.minor.patch`.
    pub open spec fn of(major: u64, minor: u64, patch: u64) -> VersionTriple {
        VersionTriple { major: major as u128, minor: minor as u128, patch: patch as u128 }
    }

    /// The smallest version, `0.0.0`.
    pub open spec fn lowest() -> VersionTriple {
        VersionTriple { major: 0, minor: 0, patch: 0 }
    }

    /// The largest version that three 64-bit numbers can name.
    pub open spec fn highest() -> VersionTriple {
        VersionTriple::of(u64::MAX, u64::MAX, u64::MAX)
    }

    /// The first version of the next major line.
    pub open spec fn bumped_major(major: u64) -> VersionTriple {
        VersionTriple { major: (major + 1) as u128, minor: 0, patch: 0 }
    }

    /// The first version of the next minor line.
    pub open spec fn bumped_minor(major: u64, minor: u64) -> VersionTriple {
        VersionTriple { major: major as u128, minor: (minor + 1) as u128, patch: 0 }
    }

    /// The version that follows `major.minor.patch`.
    pub open spec fn bumped_patch(major: u64, minor: u64, patch: u64) -> VersionTriple {
        VersionTriple { major: major as u128, minor: minor as u128, patch: (patch + 1) as u128 }
    }

    /// The version `major.minor.patch`.
    pub fn new(major: u64, minor: u64, patch: u64) -> (v: VersionTriple)
        ensures
            v == VersionTriple::of(major, minor, patch),
    {
        VersionTriple { major: major as u128, minor: minor as u128, patch: patch as u128 }
    }

    /// The smallest version, `0.0.0`.
    pub fn zero() -> (v: VersionTriple)
        ensures
            v == VersionTriple::lowest(),
    {
        VersionTriple { major: 0, minor: 0, patch: 0 }
    }

    /// The largest version that three 64-bit numbers can name.
    pub fn max() -> (v: VersionTriple)
        ensures
            v == VersionTriple::highest(),
    {
        VersionTriple::new(u64::MAX, u64::MAX, u64::MAX)
    }

    /// Whether `self` comes strictly before `other`.
    pub fn lt(&self, other: &VersionTriple) -> (r: bool)
        ensures
            r == self.before(*other),
    {
        if self.major != other.major {
            self.major < other.major
        } else if self.minor != other.minor {
            self.minor < other.minor
        } else {
            self.patch < other.patch
        }
    }

    /// Whether `self` is `other` or comes before it.
    pub fn le(&self, other: &VersionTriple) -> (r: bool)
        ensures
            r == self.at_most(*other),
    {
        !other.lt(self)
    }
}

/// The order of versions is a strict total order.
pub proof fn lemma_version_order(a: VersionTriple, b: VersionTriple, c: VersionTriple)
    ensures
        !a.before(a),
        a.before(b) && b.before(c) ==> a.before(c),
        a.before(b) || b.before(a) || a == b,
        !(a.before(b) && b.before(a)),
        a.at_most(b) <==> !b.before(a),
{
}

/// The first version of the major line after `major`.
pub fn version_with_bumped_major(major: u64) -> (v: VersionTriple)
    ensures
        v == VersionTriple::bumped_major(major),
{
    VersionTriple { major: major as u128 + 1, minor: 0, patch: 0 }
}

/// The first version of the minor line after `major.minor`.
pub fn version_with_bumped_minor(major: u64, minor: u64) -> (v: VersionTriple)
    ensures
        v == VersionTriple::bumped_minor(major, minor),
{
    VersionTriple { major: major as u128, minor: minor as u128 + 1, patch: 0 }
}

/// The version that follows `major.minor.patch`.
pub fn version_with_bumped_patch(major: u64, minor: u64, patch: u64) -> (v: VersionTriple)
    ensures
        v == VersionTriple::bumped_patch(major, minor, patch),
{
    VersionTriple { major: major as u128, minor: minor as u128, patch: patch as u128 + 1 }
}

/// The versions from `start` up to, and without, `end`.
#[derive(Debug, Clone, Copy, PartialEq, Eq, Structural)]
pub struct Interval {
    pub start: VersionTriple,
    pub end: VersionTriple,
}

impl Interval {
    /// An interval is valid when it holds at least one version.
    pub open spec fn is_valid(self) -> bool {
        self.start.before(self.end)
    }

    /// Whether `version` lies in the interval.
    pub open spec fn contains(self, version: VersionTriple) -> bool {
        self.start.at_most(version) && version.before(self.end)
    }

    /// The interval from `0.0.0` to the largest version.
    pub open spec fn full() -> Interval {
        Interval { start: VersionTriple::lowest(), end: VersionTriple::highest() }
    }

    /// Whether the interval holds at least one version.
    pub fn valid(&self) -> (r: bool)
        ensures
            r == self.is_valid(),
    {
        self.start.lt(&self.end)
    }
}

/// The smallest version that a partial version stands for: what is left out
/// counts as zero. A patch without a minor is not read.
pub open spec fn floor_of(major: u64, minor: Option<u64>, patch: Option<u64>) -> VersionTriple {
    match minor {
        Some(j) => match patch {
            Some(k) => VersionTriple::of(major, j, k),
            None => VersionTriple::of(major, j, 0),
        },
        None => VersionTriple::of(major, 0, 0),
    }
}

/// The version one step above a partial version, the step taken at the lowest
/// component that is given.
pub open spec fn bump_of(major: u64, minor: Option<u64>, patch: Option<u64>) -> VersionTriple {
    match minor {
        Some(j) => match patch {
            Some(k) => VersionTriple::bumped_patch(major, j, k),
            None => VersionTriple::bumped_minor(major, j),
        },
        None => VersionTriple::bumped_major(major),
    }
}

/// The upper bound of a caret requirement: the next major line, or below
/// major 1 the next minor line, or below `0.1` the next patch.
pub open spec fn caret_end(major: u64, minor: Option<u64>, patch: Option<u64>) -> VersionTriple {
    if major > 0 {
        VersionTriple::bumped_major(major)
    } else {
        match minor {
            Some(j) => if j > 0 {
                VersionTriple::bumped_minor(major, j)
            } else {
                match patch {
                    Some(k) => VersionTriple::bumped_patch(major, j, k),
                    None => VersionTriple::bumped_minor(major, j),
                }
            },
            None => VersionTriple::bumped_major(major),
        }
    }
}

/// `^I.J.K`, `^I.J`, `^I`.
pub open spec fn caret_interval(major: u64, minor: Option<u64>, patch: Option<u64>) -> Interval {
    Interval { start: floor_of(major, minor, patch), end: caret_end(major, minor, patch) }
}

/// `=I.J.K`, `=I.J`, `=I`: the whole band of what is given.
pub open spec fn exact_interval(major: u64, minor: Option<u64>, patch: Option<u64>) -> Interval {
    Interval { start: floor_of(major, minor, patch), end: bump_of(major, minor, patch) }
}

/// `>I.J.K`, `>I.J`, `>I`.
pub open spec fn greater_interval(major: u64, minor: Option<u64>, patch: Option<u64>) -> Interval {
    Interval { start: bump_of(major, minor, patch), end: VersionTriple::highest() }
}

/// `>=I.J.K`, `>=I.J`, `>=I`.
pub open spec fn greater_or_equal_interval(
    major: u64,
    minor: Option<u64>,
    patch: Option<u64>,
) -> Interval {
    Interval { start: floor_of(major, minor, patch), end: VersionTriple::highest() }
}

/// `<I.J.K`, `<I.J`, `<I`.
pub open spec fn less_interval(major: u64, minor: Option<u64>, patch: Option<u64>) -> Interval {
    Interval { start: VersionTriple::lowest(), end: floor_of(major, minor, patch) }
}

/// `<=I.J.K`, `<=I.J`, `<=I`.
pub open spec fn less_or_equal_interval(
    major: u64,
    minor: Option<u64>,
    patch: Option<u64>,
) -> Interval {
    Interval { start: VersionTriple::lowest(), end: bump_of(major, minor, patch) }
}

/// `~I.J.K` allows the patch to grow; `~I.J` and `~I` are `=I.J` and `=I`.
pub open spec fn tilde_interval(major: u64, minor: Option<u64>, patch: Option<u64>) -> Interval {
    match minor {
        Some(j) => Interval {
            start: floor_of(major, minor, patch),
            end: VersionTriple::bumped_minor(major, j),
        },
        None => exact_interval(major, minor, patch),
    }
}

/// `I.J.*` is `=I.J`; `I.*` is `=I`. A patch is not read.
pub open spec fn wildcard_interval(major: u64, minor: Option<u64>, patch: Option<u64>) -> Interval {
    exact_interval(major, minor, None)
}

/// The interval of `^I.J.K`, `^I.J` or `^I`.
pub fn caret_range(major: u64, minor: Option<u64>, patch: Option<u64>) -> (r: Interval)
    ensures
        r == caret_interval(major, minor, patch),
{
    if major == 0 {
        match minor {
            Some(minor_version) => {
                if minor_version == 0 {
                    match patch {
                        Some(patch_version) => Interval {
                            start: VersionTriple::new(major, minor_version, patch_version),
                            end: version_with_bumped_patch(major, minor_version, patch_version),
                        },
                        None => Interval {
                            start: VersionTriple::new(major, minor_version, 0),
                            end: version_with_bumped_minor(major, minor_version),
                        },
                    }
                } else {
                    match patch {
                        Some(patch_version) => Interval {
                            start: VersionTriple::new(major, minor_version, patch_version),
                            end: version_with_bumped_minor(major, minor_version),
                        },
                        None => Interval {
                            start: VersionTriple::new(major, minor_version, 0),
                            end: version_with_bumped_minor(major, minor_version),
                        },
                    }
                }
            },
            None => Interval {
                start: VersionTriple::new(0, 0, 0),
                end: VersionTriple::new(1, 0, 0),
            },
        }
    } else {
        match minor {
            Some(minor_version) => match patch {
                Some(patch_version) => Interval {
                    start: VersionTriple::new(major, minor_version, patch_version),
                    end: version_with_bumped_major(major),
                },
                None => Interval {
                    start: VersionTriple::new(major, minor_version, 0),
                    end: version_with_bumped_major(major),
                },
            },
            None => Interval {
                start: VersionTriple::new(major, 0, 0),
                end: version_with_bumped_major(major),
            },
        }
    }
}

/// The smallest version that a partial version stands for.
pub fn floor_version(major: u64, minor: Option<u64>, patch: Option<u64>) -> (v: VersionTriple)
    ensures
        v == floor_of(major, minor, patch),
{
    match minor {
        Some(minor_version) => match patch {
            Some(patch_version) => VersionTriple::new(major, minor_version, patch_version),
            None => VersionTriple::new(major, minor_version, 0),
        },
        None => VersionTriple::new(major, 0, 0),
    }
}

/// The version one step above a partial version.
pub fn bumped_version(major: u64, minor: Option<u64>, patch: Option<u64>) -> (v: VersionTriple)
    ensures
        v == bump_of(major, minor, patch),
{
    match minor {
        Some(minor_version) => match patch {
            Some(patch_version) => version_with_bumped_patch(major, minor_version, patch_version),
            None => version_with_bumped_minor(major, minor_version),
        },
        None => version_with_bumped_major(major),
    }
}

/// The interval of `=I.J.K`, `=I.J` or `=I`.
pub fn exact_range(major: u64, minor: Option<u64>, patch: Option<u64>) -> (r: Interval)
    ensures
        r == exact_interval(major, minor, patch),
{
    Interval {
        start: floor_version(major, minor, patch),
        end: bumped_version(major, minor, patch),
    }
}

/// The interval of `>I.J.K`, `>I.J` or `>I`.
pub fn greater_range(major: u64, minor: Option<u64>, patch: Option<u64>) -> (r: Interval)
    ensures
        r == greater_interval(major, minor, patch),
{
    Interval { start: bumped_version(major, minor, patch), end: VersionTriple::max() }
}

/// The interval of `>=I.J.K`, `>=I.J` or `>=I`.
pub fn greater_or_equal_range(major: u64, minor: Option<u64>, patch: Option<u64>) -> (r: Interval)
    ensures
        r == greater_or_equal_interval(major, minor, patch),
{
    Interval { start: floor_version(major, minor, patch), end: VersionTriple::max() }
}

/// The interval of `<I.J.K`, `<I.J` or `<I`.
pub fn less_range(major: u64, minor: Option<u64>, patch: Option<u64>) -> (r: Interval)
    ensures
        r == less_interval(major, minor, patch),
{
    Interval { start: VersionTriple::zero(), end: floor_version(major, minor, patch) }
}

/// The interval of `<=I.J.K`, `<=I.J` or `<=I`.
pub fn less_or_equal_range(major: u64, minor: Option<u64>, patch: Option<u64>) -> (r: Interval)
    ensures
        r == less_or_equal_interval(major, minor, patch),
{
    Interval { start: VersionTriple::zero(), end: bumped_version(major, minor, patch) }
}

/// The interval of `~I.J.K`, `~I.J` or `~I`.
pub fn tilde_range(major: u64, minor: Option<u64>, patch: Option<u64>) -> (r: Interval)
    ensures
        r == tilde_interval(major, minor, patch),
{
    match minor {
        Some(minor_version) => Interval {
            start: floor_version(major, minor, patch),
            end: version_with_bumped_minor(major, minor_version),
        },
        None => exact_range(major, minor, patch),
    }
}

/// The interval of `I.J.*` or `I.*`.
pub fn wildcard_range(major: u64, minor: Option<u64>, patch: Option<u64>) -> (r: Interval)
    ensures
        r == wildcard_interval(major, minor, patch),
{
    exact_range(major, minor, None)
}

/// How one interval stands to another.
#[derive(Debug, Clone, Copy, PartialEq, Eq, Structural)]
pub enum RangeOrder {
    Equal,
    Less,
    Greater,
    Incomparable,
}

/// `a` lies wholly below `b`, or the two share one bound and `a` has the
/// smaller other bound.
pub open spec fn lies_below(a: Interval, b: Interval) -> bool {
    ||| a.end.at_most(b.start)
    ||| (a.start.before(b.start) && a.end == b.end)
    ||| (a.start == b.start && a.end.before(b.end))
}

/// The order of two intervals. One that holds no version is comparable with
/// nothing, itself included.
pub open spec fn range_order(a: Interval, b: Interval) -> RangeOrder {
    if !a.is_valid() || !b.is_valid() {
        RangeOrder::Incomparable
    } else if a == b {
        RangeOrder::Equal
    } else if lies_below(a, b) {
        RangeOrder::Less
    } else if lies_below(b, a) {
        RangeOrder::Greater
    } else {
        RangeOrder::Incomparable
    }
}

/// Compares two intervals.
pub fn range_compare(a: &Interval, b: &Interval) -> (order: RangeOrder)
    ensures
        order == range_order(*a, *b),
{
    if !a.valid() || !b.valid() {
        RangeOrder::Incomparable
    } else if a.start == b.start && a.end == b.end {
        RangeOrder::Equal
    } else if a.end.le(&b.start) || (a.start.lt(&b.start) && a.end == b.end) || (a.start
        == b.start && a.end.lt(&b.end)) {
        RangeOrder::Less
    } else if b.end.le(&a.start) || (b.start.lt(&a.start) && a.end == b.end) || (a.start
        == b.start && b.end.lt(&a.end)) {
        RangeOrder::Greater
    } else {
        RangeOrder::Incomparable
    }
}

/// Every valid interval is equal to itself.
pub proof fn lemma_range_order_reflexive(a: Interval)
    requires
        a.is_valid(),
    ensures
        range_order(a, a) == RangeOrder::Equal,
{
}

/// Between valid intervals each outcome is met exactly on its own condition:
/// equal bounds, `a` below `b`, `b` below `a`, and otherwise none of these.
pub proof fn lemma_range_order_cases(a: Interval, b: Interval)
    requires
        a.is_valid(),
        b.is_valid(),
    ensures
        range_order(a, b) == RangeOrder::Equal <==> (a.start == b.start && a.end == b.end),
        range_order(a, b) == RangeOrder::Less <==> lies_below(a, b),
        range_order(a, b) == RangeOrder::Greater <==> lies_below(b, a),
        range_order(a, b) == RangeOrder::Incomparable <==> !(a.start == b.start && a.end == b.end)
            && !lies_below(a, b) && !lies_below(b, a),
{
}

/// Swapping the two intervals swaps `Less` and `Greater` and keeps `Equal`
/// and `Incomparable`.
pub proof fn lemma_range_order_antisymmetric(a: Interval, b: Interval)
    ensures
        range_order(a, b) == RangeOrder::Less <==> range_order(b, a) == RangeOrder::Greater,
        range_order(a, b) == RangeOrder::Greater <==> range_order(b, a) == RangeOrder::Less,
        range_order(a, b) == RangeOrder::Equal <==> range_order(b, a) == RangeOrder::Equal,
        range_order(a, b) == RangeOrder::Incomparable <==> range_order(b, a)
            == RangeOrder::Incomparable,
{
}

/// Where all three pairs are comparable, `Less` carries over.
pub proof fn lemma_range_order_transitive(a: Interval, b: Interval, c: Interval)
    requires
        range_order(a, b) == RangeOrder::Less,
        range_order(b, c) == RangeOrder::Less,
        range_order(a, c) != RangeOrder::Incomparable,
    ensures
        range_order(a, c) == RangeOrder::Less,
{
}

/// The interval of a single comparator that is not a bound from one side
/// only holds at least one version.
pub proof fn lemma_band_intervals_valid(major: u64, minor: Option<u64>, patch: Option<u64>)
    ensures
        caret_interval(major, minor, patch).is_valid(),
        exact_interval(major, minor, patch).is_valid(),
        tilde_interval(major, minor, patch).is_valid(),
        wildcard_interval(major, minor, patch).is_valid(),
{
}

} // verus!
