//! The semantic magnitude of a change between two requirements.

use vstd::prelude::*;
use vstd::string::*;

verus! {

/// How much a requirement changed, by the rules of semantic versioning.
#[derive(Debug, Clone, Copy, PartialEq, Eq, Structural)]
pub enum Change {
    Major,
    Minor,
    Patch,
    Unchanged,
    Unknown,
}

/// The marker that stands for a magnitude in a report.
pub open spec fn change_marker(change: Change) -> Seq<char> {
    match change {
        Change::Major => "❗"@,
        Change::Minor => "📦"@,
        Change::Patch => "🔧"@,
        Change::Unchanged => "😐"@,
        Change::Unknown => "🤷"@,
    }
}

impl Change {
    /// The marker of this magnitude.
    pub fn to_string(&self) -> (marker: String)
        ensures
            marker@ == change_marker(*self),
    {
        match self {
            Change::Major => String::from_str("❗"),
            Change::Minor => String::from_str("📦"),
            Change::Patch => String::from_str("🔧"),
            Change::Unchanged => String::from_str("😐"),
            Change::Unknown => String::from_str("🤷"),
        }
    }
}

} // verus!
