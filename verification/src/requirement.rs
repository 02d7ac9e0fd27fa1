//! Version requirements: one or more comparators read from a requirement
//! text, the interval of versions they allow together, and how two
//! requirements stand to each other.

use crate::change::Change;
use crate::interval::{
    caret_interval, caret_range, exact_interval, exact_range, greater_interval,
    greater_or_equal_interval, greater_or_equal_range, greater_range, less_interval,
    less_or_equal_interval, less_or_equal_range, less_range, range_compare, range_order,
    tilde_interval, tilde_range, wildcard_interval, wildcard_range, Interval, RangeOrder,
    VersionTriple,
};
use crate::semver_bridge::{
    comparator_at, comparator_count, held_comparators, parse_requirement, parsed_requirement,
};
use crate::text::{copy_text, decimal, decimal_string};
use vstd::prelude::*;
use vstd::string::*;

verus! {

/// The operator of a comparator.
#[derive(Debug, Clone, Copy, PartialEq, Eq, Structural)]
pub enum Op {
    Exact,
    Greater,
    GreaterEq,
    Less,
    LessEq,
    Tilde,
    Caret,
    Wildcard,
}

/// One clause of a requirement: an operator and a version that may leave out
/// its patch, or its minor and patch.
#[derive(Debug, PartialEq, Eq)]
pub struct Comparator {
    pub op: Op,
    pub major: u64,
    pub minor: Option<u64>,
    pub patch: Option<u64>,
    pub pre: String,
}

/// A comparator as contracts speak of it.
pub struct ComparatorSpec {
    pub op: Op,
    pub major: u64,
    pub minor: Option<u64>,
    pub patch: Option<u64>,
    pub pre: Seq<char>,
}

impl View for Comparator {
    type V = ComparatorSpec;

    open spec fn view(&self) -> ComparatorSpec {
        ComparatorSpec {
            op: self.op,
            major: self.major,
            minor: self.minor,
            patch: self.patch,
            pre: self.pre@,
        }
    }
}

/// The view of a comparator that may be missing.
pub open spec fn optional_comparator_view(comparator: Option<Comparator>) -> Option<
    ComparatorSpec,
> {
    match comparator {
        Some(c) => Some(c@),
        None => None,
    }
}

/// The views of a list of comparators.
pub open spec fn comparator_views(comparators: Seq<Comparator>) -> Seq<ComparatorSpec> {
    comparators.map_values(|c: Comparator| c@)
}

/// The views of a list of comparators of which some may be missing.
pub open spec fn optional_comparator_views(comparators: Seq<Option<Comparator>>) -> Seq<
    Option<ComparatorSpec>,
> {
    comparators.map_values(|c: Option<Comparator>| optional_comparator_view(c))
}

/// The views of a list that grew by one comparator.
pub proof fn lemma_comparator_views_push(comparators: Seq<Comparator>, c: Comparator)
    ensures
        comparator_views(comparators.push(c)) == comparator_views(comparators).push(c@),
{
    assert(comparator_views(comparators.push(c)) =~= comparator_views(comparators).push(c@));
}

/// The views of a list that grew by one comparator that may be missing.
pub proof fn lemma_optional_comparator_views_push(
    comparators: Seq<Option<Comparator>>,
    c: Option<Comparator>,
)
    ensures
        optional_comparator_views(comparators.push(c)) == optional_comparator_views(
            comparators,
        ).push(optional_comparator_view(c)),
{
    assert(optional_comparator_views(comparators.push(c)) =~= optional_comparator_views(
        comparators,
    ).push(optional_comparator_view(c)));
}

/// The interval of versions that one comparator allows.
pub open spec fn comparator_interval(c: ComparatorSpec) -> Interval {
    match c.op {
        Op::Exact => exact_interval(c.major, c.minor, c.patch),
        Op::Greater => greater_interval(c.major, c.minor, c.patch),
        Op::GreaterEq => greater_or_equal_interval(c.major, c.minor, c.patch),
        Op::Less => less_interval(c.major, c.minor, c.patch),
        Op::LessEq => less_or_equal_interval(c.major, c.minor, c.patch),
        Op::Tilde => tilde_interval(c.major, c.minor, c.patch),
        Op::Caret => caret_interval(c.major, c.minor, c.patch),
        Op::Wildcard => wildcard_interval(c.major, c.minor, c.patch),
    }
}

/// Whether a comparator with this operator sets a lower bound.
pub open spec fn bounds_below(op: Op) -> bool {
    op != Op::Less && op != Op::LessEq
}

/// Whether a comparator with this operator sets an upper bound.
pub open spec fn bounds_above(op: Op) -> bool {
    op != Op::Greater && op != Op::GreaterEq
}

/// An interval cut down by one more comparator: the start rises to the
/// comparator's lower bound and the end falls to its upper bound, where it
/// sets one.
pub open spec fn narrowed(within: Interval, c: ComparatorSpec) -> Interval {
    let range = comparator_interval(c);
    Interval {
        start: if bounds_below(c.op) && within.start.before(range.start) {
            range.start
        } else {
            within.start
        },
        end: if bounds_above(c.op) && range.end.before(within.end) {
            range.end
        } else {
            within.end
        },
    }
}

/// The interval of versions that all comparators of a requirement allow.
pub open spec fn requirement_interval(comparators: Seq<ComparatorSpec>) -> Interval
    decreases comparators.len(),
{
    if comparators.len() == 0 {
        Interval::full()
    } else {
        narrowed(requirement_interval(comparators.drop_last()), comparators.last())
    }
}

/// How two requirements stand to each other: as their intervals do.
pub open spec fn requirement_order(a: Seq<ComparatorSpec>, b: Seq<ComparatorSpec>) -> RangeOrder {
    range_order(requirement_interval(a), requirement_interval(b))
}

/// The magnitude of the change between two comparators, read off their
/// numbers alone.
pub open spec fn comparator_change(a: ComparatorSpec, b: ComparatorSpec) -> Change {
    if a.major != b.major {
        Change::Major
    } else if a.minor is Some && b.minor is Some && a.minor != b.minor {
        if a.major > 0 {
            Change::Minor
        } else {
            Change::Major
        }
    } else if a.patch is Some && b.patch is Some && a.patch != b.patch {
        if a.major > 0 {
            Change::Patch
        } else if a.minor is Some && a.minor->0 > 0 {
            Change::Minor
        } else {
            Change::Major
        }
    } else if a.minor is Some && b.minor is Some && a.patch is Some && b.patch is Some {
        Change::Unchanged
    } else {
        Change::Unknown
    }
}

/// The magnitude of the change between two requirements. Only requirements
/// of a single comparator are classified.
pub open spec fn requirement_change(a: Seq<ComparatorSpec>, b: Seq<ComparatorSpec>) -> Change {
    if a.len() == 1 && b.len() == 1 {
        comparator_change(a[0], b[0])
    } else {
        Change::Unknown
    }
}

/// How an operator is written. The caret is implied and left out; a wildcard
/// is written behind the numbers.
pub open spec fn operator_text(op: Op) -> Seq<char> {
    match op {
        Op::Exact => "="@,
        Op::Greater => ">"@,
        Op::GreaterEq => ">="@,
        Op::Less => "<"@,
        Op::LessEq => "<="@,
        Op::Tilde => "~"@,
        Op::Caret => ""@,
        Op::Wildcard => ""@,
    }
}

/// What follows the numbers of a comparator that leaves a component out.
pub open spec fn open_end_text(op: Op) -> Seq<char> {
    if op == Op::Wildcard {
        ".*"@
    } else {
        ""@
    }
}

/// What follows the patch: the pre-release tag, if there is one.
pub open spec fn pre_release_text(pre: Seq<char>) -> Seq<char> {
    if pre.len() > 0 {
        "-"@ + pre
    } else {
        ""@
    }
}

/// How a comparator is written.
pub open spec fn comparator_text(c: ComparatorSpec) -> Seq<char> {
    operator_text(c.op) + decimal(c.major as nat) + match c.minor {
        Some(j) => "."@ + decimal(j as nat) + match c.patch {
            Some(k) => "."@ + decimal(k as nat) + pre_release_text(c.pre),
            None => open_end_text(c.op),
        },
        None => open_end_text(c.op),
    }
}

/// How a requirement is written: its comparators, separated by a comma and a
/// space.
pub open spec fn requirement_text(comparators: Seq<ComparatorSpec>) -> Seq<char>
    decreases comparators.len(),
{
    if comparators.len() == 0 {
        ""@
    } else if comparators.len() == 1 {
        comparator_text(comparators[0])
    } else {
        requirement_text(comparators.drop_last()) + ", "@ + comparator_text(comparators.last())
    }
}

/// A comparator is well formed when it names no patch without a minor.
pub open spec fn well_formed(c: ComparatorSpec) -> bool {
    c.patch is Some ==> c.minor is Some
}

/// The comparators that can make up a requirement: at least one, each of
/// them well formed.
pub open spec fn admissible(comparators: Seq<ComparatorSpec>) -> bool {
    &&& comparators.len() > 0
    &&& forall|i: int| 0 <= i < comparators.len() ==> well_formed(#[trigger] comparators[i])
}

/// The error for a requirement without a comparator.
pub open spec fn no_comparator_message() -> Seq<char> {
    "a version requirement without a comparator is not supported"@
}

/// The error for a comparator that names a patch without a minor.
pub open spec fn malformed_comparator_message() -> Seq<char> {
    "a comparator names a patch version without a minor version"@
}

/// The error for a comparator with an operator that this library does not
/// know.
pub open spec fn unsupported_operator_message() -> Seq<char> {
    "a comparator uses an operator that is not supported"@
}

/// What comes of a list of comparators that is offered as a requirement.
pub open spec fn accepted(comparators: Seq<ComparatorSpec>) -> Result<
    Seq<ComparatorSpec>,
    Seq<char>,
> {
    if comparators.len() == 0 {
        Err(no_comparator_message())
    } else if !admissible(comparators) {
        Err(malformed_comparator_message())
    } else {
        Ok(comparators)
    }
}

/// The comparators of a parsed list, each taken out of its `Some`.
pub open spec fn supported(parsed: Seq<Option<ComparatorSpec>>) -> Seq<ComparatorSpec> {
    parsed.map_values(|c: Option<ComparatorSpec>| c->0)
}

/// Every comparator of a parsed list has one of the eight operators.
pub open spec fn all_supported(parsed: Seq<Option<ComparatorSpec>>) -> bool {
    forall|i: int| 0 <= i < parsed.len() ==> (#[trigger] parsed[i]) is Some
}

/// What comes of a parsed list of comparators, in which an unsupported
/// operator has left a `None`.
pub open spec fn admitted(parsed: Seq<Option<ComparatorSpec>>) -> Result<
    Seq<ComparatorSpec>,
    Seq<char>,
> {
    if !all_supported(parsed) {
        Err(unsupported_operator_message())
    } else {
        accepted(supported(parsed))
    }
}

/// The requirement that a text stands for, or why it stands for none.
pub open spec fn requirement_of(text: Seq<char>) -> Result<Seq<ComparatorSpec>, Seq<char>> {
    match parsed_requirement(text) {
        Ok(parsed) => admitted(parsed),
        Err(message) => Err(message),
    }
}

/// The requirement that stands in for a dependency taken from a git
/// repository: `0`.
pub open spec fn sentinel_requirement() -> Seq<ComparatorSpec> {
    seq![
        ComparatorSpec { op: Op::Caret, major: 0, minor: None, patch: None, pre: Seq::empty() },
    ]
}

/// A requirement whose comparators allow at least one version together
/// stands equal to itself.
pub proof fn lemma_requirement_order_reflexive(requirement: Seq<ComparatorSpec>)
    requires
        requirement_interval(requirement).is_valid(),
    ensures
        requirement_order(requirement, requirement) == RangeOrder::Equal,
{
}

/// Swapping two requirements swaps `Less` and `Greater` and keeps `Equal`
/// and `Incomparable`.
pub proof fn lemma_requirement_order_antisymmetric(
    a: Seq<ComparatorSpec>,
    b: Seq<ComparatorSpec>,
)
    ensures
        requirement_order(a, b) == RangeOrder::Less <==> requirement_order(b, a)
            == RangeOrder::Greater,
        requirement_order(a, b) == RangeOrder::Greater <==> requirement_order(b, a)
            == RangeOrder::Less,
        requirement_order(a, b) == RangeOrder::Equal <==> requirement_order(b, a)
            == RangeOrder::Equal,
        requirement_order(a, b) == RangeOrder::Incomparable <==> requirement_order(b, a)
            == RangeOrder::Incomparable,
{
}

/// Where all three pairs of requirements are comparable, `Less` carries
/// over.
pub proof fn lemma_requirement_order_transitive(
    a: Seq<ComparatorSpec>,
    b: Seq<ComparatorSpec>,
    c: Seq<ComparatorSpec>,
)
    requires
        requirement_order(a, b) == RangeOrder::Less,
        requirement_order(b, c) == RangeOrder::Less,
        requirement_order(a, c) != RangeOrder::Incomparable,
    ensures
        requirement_order(a, c) == RangeOrder::Less,
{
}

/// The interval of a requirement starts at the highest lower bound that its
/// comparators set, or at `0.0.0` where that is higher or none sets one, and
/// ends at the lowest upper bound that they set, or at the largest version
/// where that is lower or none sets one.
pub proof fn lemma_requirement_interval_bounds(comparators: Seq<ComparatorSpec>)
    ensures
        forall|i: int|
            0 <= i < comparators.len() && bounds_below((#[trigger] comparators[i]).op)
                ==> comparator_interval(comparators[i]).start.at_most(
                requirement_interval(comparators).start,
            ),
        forall|i: int|
            0 <= i < comparators.len() && bounds_above((#[trigger] comparators[i]).op)
                ==> requirement_interval(comparators).end.at_most(
                comparator_interval(comparators[i]).end,
            ),
        VersionTriple::lowest().at_most(requirement_interval(comparators).start),
        requirement_interval(comparators).end.at_most(VersionTriple::highest()),
        requirement_interval(comparators).start == VersionTriple::lowest() || exists|i: int|
            0 <= i < comparators.len() && bounds_below((#[trigger] comparators[i]).op)
                && comparator_interval(comparators[i]).start == requirement_interval(
                comparators,
            ).start,
        requirement_interval(comparators).end == VersionTriple::highest() || exists|i: int|
            0 <= i < comparators.len() && bounds_above((#[trigger] comparators[i]).op)
                && comparator_interval(comparators[i]).end == requirement_interval(
                comparators,
            ).end,
    decreases comparators.len(),
{
    if comparators.len() > 0 {
        let rest = comparators.drop_last();
        let last = comparators.len() - 1;
        let whole = requirement_interval(comparators);
        let before = requirement_interval(rest);
        lemma_requirement_interval_bounds(rest);
        assert(comparators.last() == comparators[last]);
        assert forall|i: int|
            0 <= i < comparators.len() && bounds_below(
                (#[trigger] comparators[i]).op,
            ) implies comparator_interval(comparators[i]).start.at_most(whole.start) by {
            if i < last {
                assert(rest[i] == comparators[i]);
            }
        }
        assert forall|i: int|
            0 <= i < comparators.len() && bounds_above(
                (#[trigger] comparators[i]).op,
            ) implies whole.end.at_most(comparator_interval(comparators[i]).end) by {
            if i < last {
                assert(rest[i] == comparators[i]);
            }
        }
        if whole.start != VersionTriple::lowest() {
            if whole.start == before.start {
                let i = choose|i: int|
                    0 <= i < rest.len() && bounds_below((#[trigger] rest[i]).op)
                        && comparator_interval(rest[i]).start == before.start;
                assert(rest[i] == comparators[i]);
                assert(bounds_below(comparators[i].op) && comparator_interval(
                    comparators[i],
                ).start == whole.start);
            } else {
                assert(bounds_below(comparators[last].op) && comparator_interval(
                    comparators[last],
                ).start == whole.start);
            }
        }
        if whole.end != VersionTriple::highest() {
            if whole.end == before.end {
                let i = choose|i: int|
                    0 <= i < rest.len() && bounds_above((#[trigger] rest[i]).op)
                        && comparator_interval(rest[i]).end == before.end;
                assert(rest[i] == comparators[i]);
                assert(bounds_above(comparators[i].op) && comparator_interval(
                    comparators[i],
                ).end == whole.end);
            } else {
                assert(bounds_above(comparators[last].op) && comparator_interval(
                    comparators[last],
                ).end == whole.end);
            }
        }
    }
}

/// A requirement of one comparator that names all three numbers is
/// unchanged against itself.
pub proof fn lemma_fully_precise_is_unchanged(requirement: Seq<ComparatorSpec>)
    requires
        requirement.len() == 1,
        requirement[0].minor is Some,
        requirement[0].patch is Some,
    ensures
        requirement_change(requirement, requirement) == Change::Unchanged,
{
}

/// Two comparators that agree in every number that both of them name, of
/// which one names a number that the other leaves out, are classified as
/// unknown, whichever comes first.
pub proof fn lemma_precision_mismatch_is_unknown(a: ComparatorSpec, b: ComparatorSpec)
    requires
        well_formed(a),
        well_formed(b),
        a.major == b.major,
        a.minor is Some && b.minor is Some ==> a.minor == b.minor,
        (a.minor is Some) != (b.minor is Some) || (a.patch is Some) != (b.patch is Some),
    ensures
        comparator_change(a, b) == Change::Unknown,
        comparator_change(b, a) == Change::Unknown,
{
}

/// A change is classified as unchanged only between comparators that name
/// the same three numbers.
pub proof fn lemma_unchanged_means_same_numbers(a: ComparatorSpec, b: ComparatorSpec)
    ensures
        comparator_change(a, b) == Change::Unchanged <==> (a.major == b.major && a.minor is Some
            && a.minor == b.minor && a.patch is Some && a.patch == b.patch),
{
}

impl Comparator {
    /// A comparator without a pre-release tag.
    pub fn new(op: Op, major: u64, minor: Option<u64>, patch: Option<u64>) -> (c: Comparator)
        ensures
            c@ == (ComparatorSpec { op, major, minor, patch, pre: Seq::empty() }),
    {
        Comparator { op, major, minor, patch, pre: String::new() }
    }

    /// A copy of this comparator.
    pub fn duplicate(&self) -> (c: Comparator)
        ensures
            c@ == self@,
    {
        Comparator {
            op: self.op,
            major: self.major,
            minor: self.minor,
            patch: self.patch,
            pre: copy_text(self.pre.as_str()),
        }
    }

    /// Whether the comparator names no patch without a minor.
    pub fn is_well_formed(&self) -> (r: bool)
        ensures
            r == well_formed(self@),
    {
        self.patch.is_none() || self.minor.is_some()
    }

    /// The interval of versions that this comparator allows.
    pub fn range(&self) -> (r: Interval)
        ensures
            r == comparator_interval(self@),
    {
        match self.op {
            Op::Exact => exact_range(self.major, self.minor, self.patch),
            Op::Greater => greater_range(self.major, self.minor, self.patch),
            Op::GreaterEq => greater_or_equal_range(self.major, self.minor, self.patch),
            Op::Less => less_range(self.major, self.minor, self.patch),
            Op::LessEq => less_or_equal_range(self.major, self.minor, self.patch),
            Op::Tilde => tilde_range(self.major, self.minor, self.patch),
            Op::Caret => caret_range(self.major, self.minor, self.patch),
            Op::Wildcard => wildcard_range(self.major, self.minor, self.patch),
        }
    }

    /// The magnitude of the change from `other` to this comparator.
    pub fn change_type(&self, other: &Comparator) -> (change: Change)
        ensures
            change == comparator_change(self@, other@),
    {
        if self.major != other.major {
            return Change::Major;
        }
        match (self.minor, other.minor) {
            (Some(self_minor), Some(other_minor)) => {
                if self_minor != other_minor {
                    if self.major > 0 {
                        return Change::Minor;
                    }
                    return Change::Major;
                }
            },
            _ => {},
        }
        match (self.patch, other.patch) {
            (Some(self_patch), Some(other_patch)) => {
                if self_patch != other_patch {
                    if self.major > 0 {
                        return Change::Patch;
                    }
                    return match self.minor {
                        Some(self_minor) => if self_minor > 0 {
                            Change::Minor
                        } else {
                            Change::Major
                        },
                        None => Change::Major,
                    };
                }
                if self.minor.is_some() && other.minor.is_some() {
                    return Change::Unchanged;
                }
            },
            _ => {},
        }
        Change::Unknown
    }

    /// Writes the comparator: the operator, but for the implied caret, then
    /// the numbers that are given, a wildcard where one was written, and the
    /// pre-release tag behind a full version.
    pub fn to_string(&self) -> (text: String)
        ensures
            text@ == comparator_text(self@),
    {
        let mut text = String::from_str(
            match self.op {
                Op::Exact => "=",
                Op::Greater => ">",
                Op::GreaterEq => ">=",
                Op::Less => "<",
                Op::LessEq => "<=",
                Op::Tilde => "~",
                Op::Caret => "",
                Op::Wildcard => "",
            },
        );
        let mut tail = String::new();
        match self.minor {
            Some(minor) => {
                tail.append(".");
                tail.append(decimal_string(minor).as_str());
                match self.patch {
                    Some(patch) => {
                        tail.append(".");
                        tail.append(decimal_string(patch).as_str());
                        if self.pre.as_str().unicode_len() > 0 {
                            tail.append("-");
                            tail.append(self.pre.as_str());
                        }
                    },
                    None => {
                        if self.op == Op::Wildcard {
                            tail.append(".*");
                        }
                    },
                }
            },
            None => {
                if self.op == Op::Wildcard {
                    tail.append(".*");
                }
            },
        }
        proof {
            reveal_strlit("");
            assert(""@ =~= Seq::<char>::empty());
            let rest = match self@.minor {
                Some(j) => "."@ + decimal(j as nat) + match self@.patch {
                    Some(k) => "."@ + decimal(k as nat) + pre_release_text(self@.pre),
                    None => open_end_text(self@.op),
                },
                None => open_end_text(self@.op),
            };
            assert(tail@ =~= rest);
        }
        text.append(decimal_string(self.major).as_str());
        text.append(tail.as_str());
        proof {
            assert(text@ =~= operator_text(self@.op) + decimal(self@.major as nat) + tail@);
        }
        text
    }
}

/// A version requirement: at least one comparator, each of them well formed.
#[derive(Debug, PartialEq, Eq)]
pub struct Version {
    comparators: Vec<Comparator>,
}

impl View for Version {
    type V = Seq<ComparatorSpec>;

    closed spec fn view(&self) -> Seq<ComparatorSpec> {
        comparator_views(self.comparators@)
    }
}

impl Version {
    #[verifier::type_invariant]
    closed spec fn holds_a_requirement(self) -> bool {
        admissible(self@)
    }

    /// Reads a requirement from its text.
    pub fn new(version_number: &str) -> (outcome: Result<Version, String>)
        ensures
            match outcome {
                Ok(version) => requirement_of(version_number@) == Ok::<
                    Seq<ComparatorSpec>,
                    Seq<char>,
                >(version@) && admissible(version@),
                Err(message) => requirement_of(version_number@) == Err::<
                    Seq<ComparatorSpec>,
                    Seq<char>,
                >(message@),
            },
    {
        match parse_requirement(version_number) {
            Ok(req) => {
                let count = comparator_count(&req);
                let mut parsed: Vec<Option<Comparator>> = Vec::new();
                let mut index: usize = 0;
                while index < count
                    invariant
                        index <= count,
                        count == held_comparators(req).len(),
                        optional_comparator_views(parsed@) == held_comparators(req).take(
                            index as int,
                        ),
                    decreases count - index,
                {
                    let comparator = comparator_at(&req, index);
                    proof {
                        lemma_optional_comparator_views_push(parsed@, comparator);
                        assert(held_comparators(req).take(index as int).push(
                            held_comparators(req)[index as int],
                        ) =~= held_comparators(req).take(index as int + 1));
                    }
                    parsed.push(comparator);
                    index = index + 1;
                }
                proof {
                    assert(held_comparators(req).take(count as int) =~= held_comparators(req));
                }
                Version::from_parsed(parsed)
            },
            Err(message) => Err(message),
        }
    }

    /// Refuses a parsed list of comparators in which an operator that is not
    /// supported has left a `None`.
    pub fn error_if_comparator_operator_not_supported(parsed: &Vec<Option<Comparator>>) -> (outcome:
        Result<(), String>)
        ensures
            outcome is Ok <==> all_supported(optional_comparator_views(parsed@)),
            outcome matches Err(message) ==> message@ == unsupported_operator_message(),
    {
        let ghost views = optional_comparator_views(parsed@);
        let mut index: usize = 0;
        while index < parsed.len()
            invariant
                index <= parsed.len(),
                views == optional_comparator_views(parsed@),
                forall|i: int| 0 <= i < index ==> (#[trigger] views[i]) is Some,
            decreases parsed.len() - index,
        {
            if parsed[index].is_none() {
                proof {
                    assert(views[index as int] is None);
                }
                return Err(
                    String::from_str("a comparator uses an operator that is not supported"),
                );
            }
            index = index + 1;
        }
        Ok(())
    }

    /// Makes a requirement of a parsed list of comparators, in which an
    /// operator that is not supported has left a `None`.
    pub fn from_parsed(parsed: Vec<Option<Comparator>>) -> (outcome: Result<Version, String>)
        ensures
            match outcome {
                Ok(version) => admitted(optional_comparator_views(parsed@)) == Ok::<
                    Seq<ComparatorSpec>,
                    Seq<char>,
                >(version@) && admissible(version@),
                Err(message) => admitted(optional_comparator_views(parsed@)) == Err::<
                    Seq<ComparatorSpec>,
                    Seq<char>,
                >(message@),
            },
    {
        match Version::error_if_comparator_operator_not_supported(&parsed) {
            Ok(_) => {},
            Err(message) => {
                return Err(message);
            },
        }
        let ghost views = optional_comparator_views(parsed@);
        let mut comparators: Vec<Comparator> = Vec::new();
        let mut index: usize = 0;
        while index < parsed.len()
            invariant
                index <= parsed.len(),
                views == optional_comparator_views(parsed@),
                all_supported(views),
                comparator_views(comparators@) == supported(views.take(index as int)),
            decreases parsed.len() - index,
        {
            proof {
                assert(views[index as int] is Some);
            }
            match &parsed[index] {
                Some(comparator) => {
                    let copy = comparator.duplicate();
                    proof {
                        lemma_comparator_views_push(comparators@, copy);
                        assert(views[index as int] == Some(copy@));
                        assert(supported(views.take(index as int)).push(copy@) =~= supported(
                            views.take(index as int + 1),
                        ));
                    }
                    comparators.push(copy);
                },
                None => {},
            }
            index = index + 1;
        }
        proof {
            assert(views.take(index as int) =~= views);
        }
        Version::from_comparators(comparators)
    }

    /// Makes a requirement of its comparators.
    pub fn from_comparators(comparators: Vec<Comparator>) -> (outcome: Result<Version, String>)
        ensures
            match outcome {
                Ok(version) => accepted(comparator_views(comparators@)) == Ok::<
                    Seq<ComparatorSpec>,
                    Seq<char>,
                >(version@) && admissible(version@),
                Err(message) => accepted(comparator_views(comparators@)) == Err::<
                    Seq<ComparatorSpec>,
                    Seq<char>,
                >(message@),
            },
    {
        if comparators.len() == 0 {
            return Err(
                String::from_str("a version requirement without a comparator is not supported"),
            );
        }
        let ghost views = comparator_views(comparators@);
        let mut index: usize = 0;
        while index < comparators.len()
            invariant
                index <= comparators.len(),
                views == comparator_views(comparators@),
                forall|i: int| 0 <= i < index ==> well_formed(#[trigger] views[i]),
            decreases comparators.len() - index,
        {
            if !comparators[index].is_well_formed() {
                proof {
                    assert(!well_formed(views[index as int]));
                }
                return Err(
                    String::from_str("a comparator names a patch version without a minor version"),
                );
            }
            index = index + 1;
        }
        Ok(Version { comparators })
    }

    /// The requirement `0`, which stands in for a dependency taken from a git
    /// repository.
    pub fn sentinel() -> (version: Version)
        ensures
            version@ == sentinel_requirement(),
            admissible(version@),
    {
        let mut comparators: Vec<Comparator> = Vec::new();
        comparators.push(Comparator::new(Op::Caret, 0, None, None));
        proof {
            assert(comparator_views(comparators@) =~= sentinel_requirement());
        }
        Version { comparators }
    }

    /// The number of comparators, which is never zero.
    pub fn len(&self) -> (count: usize)
        ensures
            count == self@.len(),
            admissible(self@),
    {
        proof {
            use_type_invariant(self);
        }
        self.comparators.len()
    }

    /// The comparator at `index`.
    pub fn comparator(&self, index: usize) -> (c: &Comparator)
        requires
            index < self@.len(),
        ensures
            c@ == self@[index as int],
    {
        &self.comparators[index]
    }

    /// The interval of versions that all comparators allow together: from
    /// the highest of their lower bounds to the lowest of their upper bounds.
    pub fn comparator_ranges(&self) -> (range: Interval)
        ensures
            range == requirement_interval(self@),
    {
        let mut range = Interval { start: VersionTriple::zero(), end: VersionTriple::max() };
        let mut index: usize = 0;
        while index < self.comparators.len()
            invariant
                index <= self.comparators.len(),
                range == requirement_interval(self@.take(index as int)),
            decreases self.comparators.len() - index,
        {
            let comparator = &self.comparators[index];
            let bounds = comparator.range();
            proof {
                assert(self@.take(index as int + 1).drop_last() =~= self@.take(index as int));
                assert(self@.take(index as int + 1).last() == comparator@);
            }
            match comparator.op {
                Op::Exact | Op::Tilde | Op::Caret | Op::Wildcard => {
                    if range.start.lt(&bounds.start) {
                        range.start = bounds.start;
                    }
                    if bounds.end.lt(&range.end) {
                        range.end = bounds.end;
                    }
                },
                Op::Greater | Op::GreaterEq => {
                    if range.start.lt(&bounds.start) {
                        range.start = bounds.start;
                    }
                },
                Op::Less | Op::LessEq => {
                    if bounds.end.lt(&range.end) {
                        range.end = bounds.end;
                    }
                },
            }
            index = index + 1;
        }
        proof {
            assert(self@.take(index as int) =~= self@);
        }
        range
    }

    /// Whether the comparators allow at least one version together.
    pub fn has_valid_range(&self) -> (r: bool)
        ensures
            r == requirement_interval(self@).is_valid(),
    {
        self.comparator_ranges().valid()
    }

    /// How this requirement stands to `other`.
    pub fn compare(&self, other: &Version) -> (order: RangeOrder)
        ensures
            order == requirement_order(self@, other@),
    {
        let a = self.comparator_ranges();
        let b = other.comparator_ranges();
        range_compare(&a, &b)
    }

    /// The magnitude of the change from `other` to this requirement.
    pub fn change_type(&self, other: &Version) -> (change: Change)
        ensures
            change == requirement_change(self@, other@),
    {
        if self.comparators.len() == 1 && other.comparators.len() == 1 {
            self.comparators[0].change_type(&other.comparators[0])
        } else {
            Change::Unknown
        }
    }

    /// Writes one comparator of a requirement.
    pub fn fmt_comparator_version(comparator: &Comparator) -> (text: String)
        ensures
            text@ == comparator_text(comparator@),
    {
        comparator.to_string()
    }

    /// Writes the requirement.
    pub fn to_string(&self) -> (text: String)
        ensures
            text@ == requirement_text(self@),
    {
        proof {
            use_type_invariant(self);
        }
        let mut text = Version::fmt_comparator_version(&self.comparators[0]);
        proof {
            assert(self@.take(1) =~= seq![self@[0]]);
        }
        let mut index: usize = 1;
        while index < self.comparators.len()
            invariant
                1 <= index <= self.comparators.len(),
                text@ == requirement_text(self@.take(index as int)),
            decreases self.comparators.len() - index,
        {
            proof {
                assert(self@.take(index as int + 1).drop_last() =~= self@.take(index as int));
                assert(self@.take(index as int + 1).last() == self.comparators[index as int]@);
            }
            text.append(", ");
            text.append(Version::fmt_comparator_version(&self.comparators[index]).as_str());
            index = index + 1;
        }
        proof {
            assert(self@.take(index as int) =~= self@);
        }
        text
    }
}

} // verus!
