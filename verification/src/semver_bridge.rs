//! The calls into the `semver` crate. Nothing here is proved: each contract
//! states what the crate's parser and types are taken to do.

use crate::requirement::{optional_comparator_view, Comparator, ComparatorSpec, Op};
use vstd::prelude::*;

verus! {

/// `semver::VersionReq`, a parsed requirement. Its comparators are read
/// through `comparator_count` and `comparator_at`.
#[verifier::external_type_specification]
#[verifier::external_body]
pub struct ExVersionReq(semver::VersionReq);

/// What `semver::VersionReq::parse` makes of a text: the comparators it reads,
/// in the order in which they are written, or the message of its error. A
/// comparator whose operator is none of the eight that this library knows
/// stands as `None`.
pub uninterp spec fn parsed_requirement(text: Seq<char>) -> Result<
    Seq<Option<ComparatorSpec>>,
    Seq<char>,
>;

/// The comparators that a `semver::VersionReq` holds, in order. One whose
/// operator is none of the eight that this library knows stands as `None`.
pub uninterp spec fn held_comparators(req: semver::VersionReq) -> Seq<Option<ComparatorSpec>>;

/// Calls `semver::VersionReq::parse`. The contract claims only that the
/// outcome is a function of the text: a requirement that holds the parsed
/// comparators, or the text of the parser's error as its `Display` gives it.
#[verifier::external_body]
pub(crate) fn parse_requirement(text: &str) -> (outcome: Result<semver::VersionReq, String>)
    ensures
        match outcome {
            Ok(req) => parsed_requirement(text@) == Ok::<Seq<Option<ComparatorSpec>>, Seq<char>>(
                held_comparators(req),
            ),
            Err(message) => parsed_requirement(text@) == Err::<
                Seq<Option<ComparatorSpec>>,
                Seq<char>,
            >(message@),
        },
{
    semver::VersionReq::parse(text).map_err(|error| error.to_string())
}

/// Reads the length of the public field `comparators` of a
/// `semver::VersionReq`.
#[verifier::external_body]
pub(crate) fn comparator_count(req: &semver::VersionReq) -> (count: usize)
    ensures
        count == held_comparators(*req).len(),
{
    req.comparators.len()
}

/// Reads one `semver::Comparator` out of the public field `comparators` of a
/// `semver::VersionReq` and copies its public fields: the operator, the three
/// numbers and the text of the pre-release tag. `semver::Op` may grow new
/// variants; for one of those the result is `None`.
#[verifier::external_body]
pub(crate) fn comparator_at(req: &semver::VersionReq, index: usize) -> (comparator: Option<
    Comparator,
>)
    requires
        index < held_comparators(*req).len(),
    ensures
        optional_comparator_view(comparator) == held_comparators(*req)[index as int],
{
    let found = &req.comparators[index];
    let op = match found.op {
        semver::Op::Exact => Op::Exact,
        semver::Op::Greater => Op::Greater,
        semver::Op::GreaterEq => Op::GreaterEq,
        semver::Op::Less => Op::Less,
        semver::Op::LessEq => Op::LessEq,
        semver::Op::Tilde => Op::Tilde,
        semver::Op::Caret => Op::Caret,
        semver::Op::Wildcard => Op::Wildcard,
        _ => return None,
    };
    let pre = found.pre.as_str().to_string();
    Some(Comparator { op, major: found.major, minor: found.minor, patch: found.patch, pre })
}

} // verus!
