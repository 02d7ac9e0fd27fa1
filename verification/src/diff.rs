//! The diff of two snapshots of a manifest: one record for each dependency
//! that was added, removed or whose requirement changed, in a fixed order.

use crate::change::{change_marker, Change};
use crate::interval::RangeOrder;
use crate::manifest::{
    lemma_lookup_finds, lookup, sorted_by_key, CargoDependencyValue, DependencyEntry,
    DependencySpec, DependencyTable, EntrySpec, File, FileSpec,
};
use crate::requirement::{
    admissible, lemma_requirement_order_reflexive, requirement_change, requirement_interval,
    requirement_of, requirement_order, requirement_text, sentinel_requirement, ComparatorSpec,
    Version,
};
use crate::text::{copy_optional_text, copy_text, optional_text};
use vstd::prelude::*;
use vstd::string::*;

verus! {

/// The four dependency tables of a manifest.
#[derive(Debug, Clone, Copy, PartialEq, Eq, Structural)]
pub enum TableKind {
    Normal,
    Dev,
    Build,
    Workspace,
}

/// The label that marks the records of a table. The table of the normal
/// dependencies has none.
pub open spec fn table_label(kind: TableKind) -> Option<Seq<char>> {
    match kind {
        TableKind::Normal => None,
        TableKind::Dev => Some("(🖥\u{fe0f} dev-dependencies)"@),
        TableKind::Build => Some("(🧱 build-dependencies)"@),
        TableKind::Workspace => Some("(🗄\u{fe0f} workspace-dependencies)"@),
    }
}

/// The view of a label that may be missing.
pub open spec fn label_view(label: Option<&str>) -> Option<Seq<char>> {
    match label {
        Some(text) => Some(text@),
        None => None,
    }
}

impl TableKind {
    /// The label that marks the records of this table.
    pub fn label(&self) -> (label: Option<&'static str>)
        ensures
            label_view(label) == table_label(*self),
    {
        match self {
            TableKind::Normal => None,
            TableKind::Dev => Some("(🖥\u{fe0f} dev-dependencies)"),
            TableKind::Build => Some("(🧱 build-dependencies)"),
            TableKind::Workspace => Some("(🗄\u{fe0f} workspace-dependencies)"),
        }
    }
}

/// What happened to a dependency.
#[derive(Debug, Clone, Copy, PartialEq, Eq, Structural)]
pub enum Verb {
    Add,
    Remove,
    Bump,
    Drop,
    Change,
}

/// One line of a report.
#[derive(Debug, PartialEq, Eq)]
pub struct ChangeRecord {
    pub display_name: String,
    pub table_label: Option<String>,
    pub verb: Verb,
    pub from: Option<String>,
    pub to: Option<String>,
    pub magnitude: Change,
}

/// One line of a report, as contracts speak of it.
pub struct RecordSpec {
    pub display_name: Seq<char>,
    pub table_label: Option<Seq<char>>,
    pub verb: Verb,
    pub from: Option<Seq<char>>,
    pub to: Option<Seq<char>>,
    pub magnitude: Change,
}

impl View for ChangeRecord {
    type V = RecordSpec;

    open spec fn view(&self) -> RecordSpec {
        RecordSpec {
            display_name: self.display_name@,
            table_label: optional_text(self.table_label),
            verb: self.verb,
            from: optional_text(self.from),
            to: optional_text(self.to),
            magnitude: self.magnitude,
        }
    }
}

/// Something worth telling that does not stop the diff.
#[derive(Debug, PartialEq, Eq)]
pub enum Diagnostic {
    /// A dependency is taken from a git repository, so its requirement is
    /// not known and `0` stands in for it.
    GitDependency { locator: String },
    /// The comparators of a requirement allow no version together.
    InvalidRange { requirement: String },
}

/// A diagnostic, as contracts speak of it.
pub enum DiagnosticSpec {
    GitDependency { locator: Seq<char> },
    InvalidRange { requirement: Seq<char> },
}

impl View for Diagnostic {
    type V = DiagnosticSpec;

    open spec fn view(&self) -> DiagnosticSpec {
        match self {
            Diagnostic::GitDependency { locator } => DiagnosticSpec::GitDependency {
                locator: locator@,
            },
            Diagnostic::InvalidRange { requirement } => DiagnosticSpec::InvalidRange {
                requirement: requirement@,
            },
        }
    }
}

/// Why no diff could be made: a requirement that could not be read.
#[derive(Debug, PartialEq, Eq)]
pub enum DiffError {
    /// The requirement of a dependency written as a plain text.
    Simple { requirement: String, reason: String },
    /// The `version` of a dependency written as a table.
    Detailed { requirement: String, reason: String },
}

/// An error, as contracts speak of it.
pub enum DiffErrorSpec {
    Simple { requirement: Seq<char>, reason: Seq<char> },
    Detailed { requirement: Seq<char>, reason: Seq<char> },
}

impl View for DiffError {
    type V = DiffErrorSpec;

    open spec fn view(&self) -> DiffErrorSpec {
        match self {
            DiffError::Simple { requirement, reason } => DiffErrorSpec::Simple {
                requirement: requirement@,
                reason: reason@,
            },
            DiffError::Detailed { requirement, reason } => DiffErrorSpec::Detailed {
                requirement: requirement@,
                reason: reason@,
            },
        }
    }
}

/// How an error is told.
pub open spec fn error_text(error: DiffErrorSpec) -> Seq<char> {
    match error {
        DiffErrorSpec::Simple { requirement, reason } => "Unexpected semver "@ + requirement
            + " found while computing dependency changes: "@ + reason,
        DiffErrorSpec::Detailed { requirement, reason } => "Unexpected semver version `"@
            + requirement + "` found while computing dependency changes"@,
    }
}

impl DiffError {
    /// Tells the error.
    pub fn to_string(&self) -> (text: String)
        ensures
            text@ == error_text(self@),
    {
        match self {
            DiffError::Simple { requirement, reason } => {
                let mut text = String::from_str("Unexpected semver ");
                text.append(requirement.as_str());
                text.append(" found while computing dependency changes: ");
                text.append(reason.as_str());
                text
            },
            DiffError::Detailed { requirement, reason } => {
                let mut text = String::from_str("Unexpected semver version `");
                text.append(requirement.as_str());
                text.append("` found while computing dependency changes");
                text
            },
        }
    }
}

/// The views of a list of records.
pub open spec fn record_views(records: Seq<ChangeRecord>) -> Seq<RecordSpec> {
    records.map_values(|r: ChangeRecord| r@)
}

/// The views of a list of diagnostics.
pub open spec fn diagnostic_views(diagnostics: Seq<Diagnostic>) -> Seq<DiagnosticSpec> {
    diagnostics.map_values(|d: Diagnostic| d@)
}

/// What a diff yields: the records of the report and what was noted on the
/// way.
#[derive(Debug, PartialEq, Eq)]
pub struct Changes {
    pub records: Vec<ChangeRecord>,
    pub diagnostics: Vec<Diagnostic>,
}

/// What a diff yields, as contracts speak of it.
pub struct ChangesSpec {
    pub records: Seq<RecordSpec>,
    pub diagnostics: Seq<DiagnosticSpec>,
}

impl View for Changes {
    type V = ChangesSpec;

    open spec fn view(&self) -> ChangesSpec {
        ChangesSpec {
            records: record_views(self.records@),
            diagnostics: diagnostic_views(self.diagnostics@),
        }
    }
}

/// Nothing changed and nothing was noted.
pub open spec fn no_changes() -> ChangesSpec {
    ChangesSpec { records: Seq::empty(), diagnostics: Seq::empty() }
}

/// The changes of two steps, one after the other.
pub open spec fn joined(first: ChangesSpec, second: ChangesSpec) -> ChangesSpec {
    ChangesSpec {
        records: first.records + second.records,
        diagnostics: first.diagnostics + second.diagnostics,
    }
}

/// The outcome of two steps, one after the other: the first error stops the
/// diff.
pub open spec fn followed_by(
    first: Result<ChangesSpec, DiffErrorSpec>,
    second: Result<ChangesSpec, DiffErrorSpec>,
) -> Result<ChangesSpec, DiffErrorSpec> {
    match first {
        Err(error) => Err(error),
        Ok(before) => match second {
            Err(error) => Err(error),
            Ok(after) => Ok(joined(before, after)),
        },
    }
}

/// The view of the outcome of a diff.
pub open spec fn outcome_view(outcome: Result<Changes, DiffError>) -> Result<
    ChangesSpec,
    DiffErrorSpec,
> {
    match outcome {
        Ok(changes) => Ok(changes@),
        Err(error) => Err(error@),
    }
}

/// The view of a requirement that was read for a dependency, or of the error.
pub open spec fn version_view(outcome: Result<Version, DiffError>) -> Result<
    Seq<ComparatorSpec>,
    DiffErrorSpec,
> {
    match outcome {
        Ok(version) => Ok(version@),
        Err(error) => Err(error@),
    }
}

/// The view of a report, or of the error.
pub open spec fn report_view(outcome: Result<String, DiffError>) -> Result<
    Seq<char>,
    DiffErrorSpec,
> {
    match outcome {
        Ok(text) => Ok(text@),
        Err(error) => Err(error@),
    }
}

/// The name under which a dependency is reported: the package it names, or
/// else its key.
pub open spec fn display_name(entry: EntrySpec) -> Seq<char> {
    match entry.value {
        DependencySpec::Simple { version } => entry.key,
        DependencySpec::Detailed { version, package } => match package {
            Some(name) => name,
            None => entry.key,
        },
        DependencySpec::Git { git, package } => match package {
            Some(name) => name,
            None => entry.key,
        },
    }
}

/// The requirement of a dependency: the one its text stands for, and `0`
/// for a dependency taken from a git repository.
pub open spec fn entry_requirement(value: DependencySpec) -> Result<
    Seq<ComparatorSpec>,
    DiffErrorSpec,
> {
    match value {
        DependencySpec::Simple { version } => match requirement_of(version) {
            Ok(comparators) => Ok(comparators),
            Err(reason) => Err(DiffErrorSpec::Simple { requirement: version, reason }),
        },
        DependencySpec::Detailed { version, package } => match requirement_of(version) {
            Ok(comparators) => Ok(comparators),
            Err(reason) => Err(DiffErrorSpec::Detailed { requirement: version, reason }),
        },
        DependencySpec::Git { git, package } => Ok(sentinel_requirement()),
    }
}

/// What is noted of a dependency by itself: that it is taken from a git
/// repository.
pub open spec fn entry_diagnostics(value: DependencySpec) -> Seq<DiagnosticSpec> {
    match value {
        DependencySpec::Git { git, package } => seq![
            DiagnosticSpec::GitDependency { locator: git },
        ],
        _ => Seq::empty(),
    }
}

/// What is noted of a requirement that is compared: that it allows no
/// version.
pub open spec fn range_diagnostics(comparators: Seq<ComparatorSpec>) -> Seq<DiagnosticSpec> {
    if requirement_interval(comparators).is_valid() {
        Seq::empty()
    } else {
        seq![DiagnosticSpec::InvalidRange { requirement: requirement_text(comparators) }]
    }
}

/// The record of a dependency that the previous manifest did not have.
pub open spec fn added_record(
    name: Seq<char>,
    label: Option<Seq<char>>,
    current: Seq<ComparatorSpec>,
) -> RecordSpec {
    RecordSpec {
        display_name: name,
        table_label: label,
        verb: Verb::Add,
        from: None,
        to: Some(requirement_text(current)),
        magnitude: Change::Unknown,
    }
}

/// The record of a dependency that the current manifest no longer has.
pub open spec fn removed_record(
    name: Seq<char>,
    label: Option<Seq<char>>,
    previous: Seq<ComparatorSpec>,
) -> RecordSpec {
    RecordSpec {
        display_name: name,
        table_label: label,
        verb: Verb::Remove,
        from: Some(requirement_text(previous)),
        to: None,
        magnitude: Change::Unknown,
    }
}

/// What is said of a dependency whose requirement went from `previous` to
/// `current`: a bump where the new range lies above the old one, a drop
/// where it lies below, a change where the two cannot be compared.
pub open spec fn revision_verb(order: RangeOrder) -> Option<Verb> {
    match order {
        RangeOrder::Equal => None,
        RangeOrder::Greater => Some(Verb::Bump),
        RangeOrder::Less => Some(Verb::Drop),
        RangeOrder::Incomparable => Some(Verb::Change),
    }
}

/// The records of a dependency that both manifests have: none where the two
/// requirements allow the same versions, else one.
pub open spec fn revision_records(
    name: Seq<char>,
    label: Option<Seq<char>>,
    current: Seq<ComparatorSpec>,
    previous: Seq<ComparatorSpec>,
) -> Seq<RecordSpec> {
    match revision_verb(requirement_order(current, previous)) {
        None => Seq::empty(),
        Some(verb) => seq![
            RecordSpec {
                display_name: name,
                table_label: label,
                verb,
                from: Some(requirement_text(previous)),
                to: Some(requirement_text(current)),
                magnitude: requirement_change(current, previous),
            },
        ],
    }
}

/// What one dependency of the current manifest adds to the diff.
pub open spec fn current_entry_changes(
    entry: EntrySpec,
    previous: Seq<EntrySpec>,
    label: Option<Seq<char>>,
) -> Result<ChangesSpec, DiffErrorSpec> {
    match entry_requirement(entry.value) {
        Err(error) => Err(error),
        Ok(current) => match lookup(previous, entry.key) {
            None => Ok(
                ChangesSpec {
                    records: seq![added_record(display_name(entry), label, current)],
                    diagnostics: entry_diagnostics(entry.value),
                },
            ),
            Some(previous_value) => match entry_requirement(previous_value) {
                Err(error) => Err(error),
                Ok(before) => Ok(
                    ChangesSpec {
                        records: revision_records(display_name(entry), label, current, before),
                        diagnostics: entry_diagnostics(entry.value) + entry_diagnostics(
                            previous_value,
                        ) + range_diagnostics(current) + range_diagnostics(before),
                    },
                ),
            },
        },
    }
}

/// What the dependencies of the current manifest add to the diff, in the
/// order of their keys.
pub open spec fn current_changes(
    current: Seq<EntrySpec>,
    previous: Seq<EntrySpec>,
    label: Option<Seq<char>>,
) -> Result<ChangesSpec, DiffErrorSpec>
    decreases current.len(),
{
    if current.len() == 0 {
        Ok(no_changes())
    } else {
        followed_by(
            current_changes(current.drop_last(), previous, label),
            current_entry_changes(current.last(), previous, label),
        )
    }
}

/// What one dependency of the previous manifest adds to the diff: its
/// removal, if the current manifest does not have its key.
pub open spec fn previous_entry_changes(
    entry: EntrySpec,
    current: Seq<EntrySpec>,
    label: Option<Seq<char>>,
) -> Result<ChangesSpec, DiffErrorSpec> {
    if lookup(current, entry.key) is Some {
        Ok(no_changes())
    } else {
        match entry_requirement(entry.value) {
            Err(error) => Err(error),
            Ok(before) => Ok(
                ChangesSpec {
                    records: seq![removed_record(display_name(entry), label, before)],
                    diagnostics: entry_diagnostics(entry.value),
                },
            ),
        }
    }
}

/// What the dependencies that were removed add to the diff, in the order of
/// their keys.
pub open spec fn removed_changes(
    previous: Seq<EntrySpec>,
    current: Seq<EntrySpec>,
    label: Option<Seq<char>>,
) -> Result<ChangesSpec, DiffErrorSpec>
    decreases previous.len(),
{
    if previous.len() == 0 {
        Ok(no_changes())
    } else {
        followed_by(
            removed_changes(previous.drop_last(), current, label),
            previous_entry_changes(previous.last(), current, label),
        )
    }
}

/// The diff of one table: what its current dependencies add, then the
/// removals.
pub open spec fn table_changes(
    current: Seq<EntrySpec>,
    previous: Seq<EntrySpec>,
    label: Option<Seq<char>>,
) -> Result<ChangesSpec, DiffErrorSpec> {
    followed_by(
        current_changes(current, previous, label),
        removed_changes(previous, current, label),
    )
}

/// The diff of two manifests: that of their normal dependencies, then of
/// their dev, build and workspace dependencies.
pub open spec fn file_changes(current: FileSpec, previous: FileSpec) -> Result<
    ChangesSpec,
    DiffErrorSpec,
> {
    followed_by(
        followed_by(
            followed_by(
                table_changes(
                    current.dependencies,
                    previous.dependencies,
                    table_label(TableKind::Normal),
                ),
                table_changes(
                    current.dev_dependencies,
                    previous.dev_dependencies,
                    table_label(TableKind::Dev),
                ),
            ),
            table_changes(
                current.build_dependencies,
                previous.build_dependencies,
                table_label(TableKind::Build),
            ),
        ),
        table_changes(
            current.workspace_dependencies,
            previous.workspace_dependencies,
            table_label(TableKind::Workspace),
        ),
    )
}

/// What stands between the name and the requirements of a line: the label
/// of the table, if it has one.
pub open spec fn label_text(label: Option<Seq<char>>) -> Seq<char> {
    match label {
        Some(text) => " "@ + text,
        None => Seq::empty(),
    }
}

/// A text that may be missing; a missing one is empty.
pub open spec fn text_or_empty(text: Option<Seq<char>>) -> Seq<char> {
    match text {
        Some(t) => t,
        None => Seq::empty(),
    }
}

/// How a verb is written.
pub open spec fn verb_text(verb: Verb) -> Seq<char> {
    match verb {
        Verb::Add => "add"@,
        Verb::Remove => "remove"@,
        Verb::Bump => "bump"@,
        Verb::Drop => "drop"@,
        Verb::Change => "change"@,
    }
}

/// What a line starts with: a fixed mark for an addition or a removal, else
/// the marker of the magnitude.
pub open spec fn lead_text(record: RecordSpec) -> Seq<char> {
    match record.verb {
        Verb::Add => "✨"@,
        Verb::Remove => "🗑\u{fe0f}"@,
        _ => change_marker(record.magnitude),
    }
}

/// What a line ends with: the requirement that was added or removed, or the
/// requirement before and after.
pub open spec fn requirements_text(record: RecordSpec) -> Seq<char> {
    match record.verb {
        Verb::Add => text_or_empty(record.to),
        Verb::Remove => text_or_empty(record.from),
        _ => "from "@ + text_or_empty(record.from) + " to "@ + text_or_empty(record.to),
    }
}

/// The line of a record, with its line feed.
pub open spec fn record_line(record: RecordSpec) -> Seq<char> {
    lead_text(record) + " "@ + verb_text(record.verb) + " "@ + record.display_name + label_text(
        record.table_label,
    ) + " "@ + requirements_text(record) + "\n"@
}

/// The lines of a list of records, one after the other.
pub open spec fn records_text(records: Seq<RecordSpec>) -> Seq<char>
    decreases records.len(),
{
    if records.len() == 0 {
        Seq::empty()
    } else {
        records_text(records.drop_last()) + record_line(records.last())
    }
}

/// The line that is reported where nothing changed.
pub open spec fn no_changes_text() -> Seq<char> {
    "🧹 No changes detected.\n"@
}

/// The report of a list of records: their lines, or where there is none the
/// line that says so.
pub open spec fn report_text(records: Seq<RecordSpec>) -> Seq<char> {
    if records.len() == 0 {
        no_changes_text()
    } else {
        records_text(records)
    }
}

/// The report of the diff of two manifests.
pub open spec fn report(current: FileSpec, previous: FileSpec) -> Result<Seq<char>, DiffErrorSpec> {
    match file_changes(current, previous) {
        Ok(changes) => Ok(report_text(changes.records)),
        Err(error) => Err(error),
    }
}

/// The views of a list that grew by one record.
pub proof fn lemma_record_views_push(records: Seq<ChangeRecord>, record: ChangeRecord)
    ensures
        record_views(records.push(record)) == record_views(records).push(record@),
{
    assert(record_views(records.push(record)) =~= record_views(records).push(record@));
}

/// The views of a list that grew by one diagnostic.
pub proof fn lemma_diagnostic_views_push(diagnostics: Seq<Diagnostic>, diagnostic: Diagnostic)
    ensures
        diagnostic_views(diagnostics.push(diagnostic)) == diagnostic_views(diagnostics).push(
            diagnostic@,
        ),
{
    assert(diagnostic_views(diagnostics.push(diagnostic)) =~= diagnostic_views(diagnostics).push(
        diagnostic@,
    ));
}

/// Joining with nothing changes nothing, and joining is associative.
pub proof fn lemma_joined(a: ChangesSpec, b: ChangesSpec, c: ChangesSpec)
    ensures
        joined(a, no_changes()) == a,
        joined(no_changes(), a) == a,
        joined(joined(a, b), c) == joined(a, joined(b, c)),
{
    assert(a.records + Seq::<RecordSpec>::empty() =~= a.records);
    assert(a.diagnostics + Seq::<DiagnosticSpec>::empty() =~= a.diagnostics);
    assert(Seq::<RecordSpec>::empty() + a.records =~= a.records);
    assert(Seq::<DiagnosticSpec>::empty() + a.diagnostics =~= a.diagnostics);
    assert((a.records + b.records) + c.records =~= a.records + (b.records + c.records));
    assert((a.diagnostics + b.diagnostics) + c.diagnostics =~= a.diagnostics + (b.diagnostics
        + c.diagnostics));
}

/// An error among the first dependencies of the current manifest is the
/// error of the whole walk.
pub proof fn lemma_current_error_stays(
    current: Seq<EntrySpec>,
    previous: Seq<EntrySpec>,
    label: Option<Seq<char>>,
    upto: int,
)
    requires
        0 <= upto <= current.len(),
        current_changes(current.take(upto), previous, label) is Err,
    ensures
        current_changes(current, previous, label) == current_changes(
            current.take(upto),
            previous,
            label,
        ),
    decreases current.len(),
{
    if upto < current.len() {
        assert(current.drop_last().take(upto) =~= current.take(upto));
        lemma_current_error_stays(current.drop_last(), previous, label, upto);
    } else {
        assert(current.take(upto) =~= current);
    }
}

/// An error among the first dependencies of the previous manifest is the
/// error of the whole walk.
pub proof fn lemma_removed_error_stays(
    previous: Seq<EntrySpec>,
    current: Seq<EntrySpec>,
    label: Option<Seq<char>>,
    upto: int,
)
    requires
        0 <= upto <= previous.len(),
        removed_changes(previous.take(upto), current, label) is Err,
    ensures
        removed_changes(previous, current, label) == removed_changes(
            previous.take(upto),
            current,
            label,
        ),
    decreases previous.len(),
{
    if upto < previous.len() {
        assert(previous.drop_last().take(upto) =~= previous.take(upto));
        lemma_removed_error_stays(previous.drop_last(), current, label, upto);
    } else {
        assert(previous.take(upto) =~= previous);
    }
}

/// The requirement of the entry can be read and allows at least one
/// version.
pub open spec fn comparable_entry(entry: EntrySpec) -> bool {
    entry_requirement(entry.value) matches Ok(requirement) && requirement_interval(
        requirement,
    ).is_valid()
}

/// A table in the order of its keys in which every requirement can be read
/// and allows at least one version.
pub open spec fn comparable_table(entries: Seq<EntrySpec>) -> bool {
    &&& sorted_by_key(entries)
    &&& forall|i: int| 0 <= i < entries.len() ==> comparable_entry(#[trigger] entries[i])
}

/// A manifest of four such tables.
pub open spec fn comparable_file(file: FileSpec) -> bool {
    &&& comparable_table(file.dependencies)
    &&& comparable_table(file.dev_dependencies)
    &&& comparable_table(file.build_dependencies)
    &&& comparable_table(file.workspace_dependencies)
}

/// Against itself, the first dependencies of a table yield no record.
proof fn lemma_same_table_current(entries: Seq<EntrySpec>, upto: int, label: Option<Seq<char>>)
    requires
        comparable_table(entries),
        0 <= upto <= entries.len(),
    ensures
        current_changes(entries.take(upto), entries, label) matches Ok(changes)
            && changes.records.len() == 0,
    decreases upto,
{
    if upto > 0 {
        lemma_same_table_current(entries, upto - 1, label);
        let first = entries.take(upto);
        let entry = entries[upto - 1];
        assert(first.drop_last() =~= entries.take(upto - 1));
        assert(first.last() == entry);
        lemma_lookup_finds(entries, upto - 1);
        assert(comparable_entry(entry));
        let requirement = entry_requirement(entry.value)->Ok_0;
        lemma_requirement_order_reflexive(requirement);
    }
}

/// Against itself, the first dependencies of a table yield no removal.
proof fn lemma_same_table_removed(entries: Seq<EntrySpec>, upto: int, label: Option<Seq<char>>)
    requires
        comparable_table(entries),
        0 <= upto <= entries.len(),
    ensures
        removed_changes(entries.take(upto), entries, label) matches Ok(changes)
            && changes.records.len() == 0,
    decreases upto,
{
    if upto > 0 {
        lemma_same_table_removed(entries, upto - 1, label);
        let first = entries.take(upto);
        assert(first.drop_last() =~= entries.take(upto - 1));
        assert(first.last() == entries[upto - 1]);
        lemma_lookup_finds(entries, upto - 1);
    }
}

/// The diff of a table against itself holds no record, if each of its
/// requirements can be read and allows at least one version.
pub proof fn lemma_same_table_has_no_records(entries: Seq<EntrySpec>, label: Option<Seq<char>>)
    requires
        comparable_table(entries),
    ensures
        table_changes(entries, entries, label) matches Ok(changes) && changes.records.len() == 0,
{
    lemma_same_table_current(entries, entries.len() as int, label);
    lemma_same_table_removed(entries, entries.len() as int, label);
    assert(entries.take(entries.len() as int) =~= entries);
}

/// The report of a manifest against itself is the line that says that
/// nothing changed, if each of its requirements can be read and allows at
/// least one version.
pub proof fn lemma_identical_manifests_report_no_changes(file: FileSpec)
    requires
        comparable_file(file),
    ensures
        report(file, file) == Ok::<Seq<char>, DiffErrorSpec>(no_changes_text()),
{
    lemma_same_table_has_no_records(file.dependencies, table_label(TableKind::Normal));
    lemma_same_table_has_no_records(file.dev_dependencies, table_label(TableKind::Dev));
    lemma_same_table_has_no_records(file.build_dependencies, table_label(TableKind::Build));
    lemma_same_table_has_no_records(
        file.workspace_dependencies,
        table_label(TableKind::Workspace),
    );
}

/// Every line of a report ends in a line feed.
pub proof fn lemma_record_line_nonempty(record: RecordSpec)
    ensures
        record_line(record).len() > 0,
        record_line(record).last() == '\n',
{
    reveal_strlit("\n");
}

/// The lines of a list of records are the empty text exactly when the list
/// holds no record, so the line that says that nothing changed stands for
/// the empty text and for nothing else.
pub proof fn lemma_records_text_empty(records: Seq<RecordSpec>)
    ensures
        records_text(records).len() == 0 <==> records.len() == 0,
        report_text(records).len() > 0,
    decreases records.len(),
{
    reveal_strlit("🧹 No changes detected.\n");
    if records.len() > 0 {
        lemma_record_line_nonempty(records.last());
    }
}

impl ChangeRecord {
    /// The record of a dependency that the previous manifest did not have.
    pub fn added(name: String, label: Option<&str>, current: &Version) -> (record: ChangeRecord)
        ensures
            record@ == added_record(name@, label_view(label), current@),
    {
        ChangeRecord {
            display_name: name,
            table_label: copy_label(label),
            verb: Verb::Add,
            from: None,
            to: Some(current.to_string()),
            magnitude: Change::Unknown,
        }
    }

    /// The record of a dependency that the current manifest no longer has.
    pub fn removed(name: String, label: Option<&str>, previous: &Version) -> (record: ChangeRecord)
        ensures
            record@ == removed_record(name@, label_view(label), previous@),
    {
        ChangeRecord {
            display_name: name,
            table_label: copy_label(label),
            verb: Verb::Remove,
            from: Some(previous.to_string()),
            to: None,
            magnitude: Change::Unknown,
        }
    }

    /// The record of a dependency whose requirement went from `previous` to
    /// `current`, if the two do not allow the same versions.
    pub fn revised(
        name: String,
        label: Option<&str>,
        current: &Version,
        previous: &Version,
    ) -> (record: Option<ChangeRecord>)
        ensures
            match record {
                Some(r) => revision_records(name@, label_view(label), current@, previous@)
                    == seq![r@],
                None => revision_records(name@, label_view(label), current@, previous@)
                    == Seq::<RecordSpec>::empty(),
            },
    {
        let verb = match current.compare(previous) {
            RangeOrder::Equal => {
                return None;
            },
            RangeOrder::Greater => Verb::Bump,
            RangeOrder::Less => Verb::Drop,
            RangeOrder::Incomparable => Verb::Change,
        };
        Some(
            ChangeRecord {
                display_name: name,
                table_label: copy_label(label),
                verb,
                from: Some(previous.to_string()),
                to: Some(current.to_string()),
                magnitude: current.change_type(previous),
            },
        )
    }

    /// Writes the line of the record, with its line feed.
    pub fn to_string(&self) -> (line: String)
        ensures
            line@ == record_line(self@),
    {
        let mut line = match self.verb {
            Verb::Add => String::from_str("✨"),
            Verb::Remove => String::from_str("🗑\u{fe0f}"),
            _ => self.magnitude.to_string(),
        };
        line.append(" ");
        line.append(
            match self.verb {
                Verb::Add => "add",
                Verb::Remove => "remove",
                Verb::Bump => "bump",
                Verb::Drop => "drop",
                Verb::Change => "change",
            },
        );
        line.append(" ");
        line.append(self.display_name.as_str());
        let mut label = String::new();
        match &self.table_label {
            Some(text) => {
                label.append(" ");
                label.append(text.as_str());
            },
            None => {},
        }
        proof {
            assert(label@ =~= label_text(self@.table_label));
        }
        line.append(label.as_str());
        line.append(" ");
        let mut rest = String::new();
        match self.verb {
            Verb::Add => {
                append_optional(&mut rest, &self.to);
            },
            Verb::Remove => {
                append_optional(&mut rest, &self.from);
            },
            _ => {
                rest.append("from ");
                append_optional(&mut rest, &self.from);
                rest.append(" to ");
                append_optional(&mut rest, &self.to);
            },
        }
        proof {
            assert(rest@ =~= requirements_text(self@));
        }
        line.append(rest.as_str());
        line.append("\n");
        proof {
            assert(line@ =~= record_line(self@));
        }
        line
    }
}

/// A copy of a label that may be missing.
fn copy_label(label: Option<&str>) -> (copy: Option<String>)
    ensures
        optional_text(copy) == label_view(label),
{
    match label {
        Some(text) => Some(copy_text(text)),
        None => None,
    }
}

/// Writes a text that may be missing behind another.
fn append_optional(text: &mut String, more: &Option<String>)
    ensures
        final(text)@ == old(text)@ + text_or_empty(optional_text(*more)),
{
    match more {
        Some(t) => {
            text.append(t.as_str());
        },
        None => {
            proof {
                assert(text@ =~= text@ + Seq::<char>::empty());
            }
        },
    }
}

impl Changes {
    /// Nothing changed and nothing was noted.
    pub fn new() -> (changes: Changes)
        ensures
            changes@ == no_changes(),
    {
        let changes = Changes { records: Vec::new(), diagnostics: Vec::new() };
        proof {
            assert(changes@.records =~= Seq::<RecordSpec>::empty());
            assert(changes@.diagnostics =~= Seq::<DiagnosticSpec>::empty());
        }
        changes
    }

    /// Adds the changes of a later step.
    pub fn append(&mut self, later: Changes)
        ensures
            final(self)@ == joined(old(self)@, later@),
    {
        let mut later = later;
        let ghost first_records = self.records@;
        let ghost first_diagnostics = self.diagnostics@;
        let ghost later_records = later.records@;
        let ghost later_diagnostics = later.diagnostics@;
        self.records.append(&mut later.records);
        self.diagnostics.append(&mut later.diagnostics);
        proof {
            assert(record_views(first_records + later_records) =~= record_views(first_records)
                + record_views(later_records));
            assert(diagnostic_views(first_diagnostics + later_diagnostics) =~= diagnostic_views(
                first_diagnostics,
            ) + diagnostic_views(later_diagnostics));
        }
    }

    /// Writes the report: the lines of the records, or where there is none
    /// the line that says so.
    pub fn to_string(&self) -> (text: String)
        ensures
            text@ == report_text(self@.records),
    {
        if self.records.len() == 0 {
            return String::from_str("🧹 No changes detected.\n");
        }
        let ghost records = self@.records;
        let mut text = String::new();
        let mut index: usize = 0;
        while index < self.records.len()
            invariant
                index <= self.records.len(),
                records == record_views(self.records@),
                text@ == records_text(records.take(index as int)),
            decreases self.records.len() - index,
        {
            proof {
                assert(records.take(index as int + 1).drop_last() =~= records.take(index as int));
                assert(records.take(index as int + 1).last() == self.records[index as int]@);
            }
            text.append(self.records[index].to_string().as_str());
            index = index + 1;
        }
        proof {
            assert(records.take(index as int) =~= records);
        }
        text
    }
}

/// The name under which a dependency is reported.
pub fn entry_display_name(entry: &DependencyEntry) -> (name: String)
    ensures
        name@ == display_name(entry@),
{
    match &entry.value {
        CargoDependencyValue::Simple(_) => copy_text(entry.key.as_str()),
        CargoDependencyValue::Detailed(detailed) => match &detailed.package {
            Some(package) => copy_text(package.as_str()),
            None => copy_text(entry.key.as_str()),
        },
        CargoDependencyValue::Git(git) => match &git.package {
            Some(package) => copy_text(package.as_str()),
            None => copy_text(entry.key.as_str()),
        },
    }
}

/// Notes a dependency that is taken from a git repository.
pub fn note_git_dependency(value: &CargoDependencyValue, diagnostics: &mut Vec<Diagnostic>)
    ensures
        diagnostic_views(final(diagnostics)@) == diagnostic_views(old(diagnostics)@)
            + entry_diagnostics(value@),
{
    match value {
        CargoDependencyValue::Git(git) => {
            let diagnostic = Diagnostic::GitDependency { locator: copy_text(git.git.as_str()) };
            proof {
                lemma_diagnostic_views_push(diagnostics@, diagnostic);
                assert(diagnostic_views(diagnostics@).push(diagnostic@) =~= diagnostic_views(
                    diagnostics@,
                ) + entry_diagnostics(value@));
            }
            diagnostics.push(diagnostic);
        },
        _ => {
            proof {
                assert(diagnostic_views(diagnostics@) =~= diagnostic_views(diagnostics@)
                    + entry_diagnostics(value@));
            }
        },
    }
}

/// Notes a requirement whose comparators allow no version together.
pub fn note_invalid_range(version: &Version, diagnostics: &mut Vec<Diagnostic>)
    ensures
        diagnostic_views(final(diagnostics)@) == diagnostic_views(old(diagnostics)@)
            + range_diagnostics(version@),
{
    if version.has_valid_range() {
        proof {
            assert(diagnostic_views(diagnostics@) =~= diagnostic_views(diagnostics@)
                + range_diagnostics(version@));
        }
    } else {
        let diagnostic = Diagnostic::InvalidRange { requirement: version.to_string() };
        proof {
            lemma_diagnostic_views_push(diagnostics@, diagnostic);
            assert(diagnostic_views(diagnostics@).push(diagnostic@) =~= diagnostic_views(
                diagnostics@,
            ) + range_diagnostics(version@));
        }
        diagnostics.push(diagnostic);
    }
}

/// The entries of a table that may be missing: a missing table has none.
pub open spec fn optional_table_entries(table: Option<&DependencyTable>) -> Seq<EntrySpec> {
    match table {
        Some(t) => t@,
        None => Seq::empty(),
    }
}

impl File {
    /// The requirement of a dependency.
    pub fn get_version(value: &CargoDependencyValue) -> (outcome: Result<Version, DiffError>)
        ensures
            version_view(outcome) == entry_requirement(value@),
            outcome matches Ok(version) ==> admissible(version@),
    {
        match value {
            CargoDependencyValue::Simple(version) => match Version::new(version.as_str()) {
                Ok(requirement) => Ok(requirement),
                Err(reason) => Err(
                    DiffError::Simple { requirement: copy_text(version.as_str()), reason },
                ),
            },
            CargoDependencyValue::Detailed(detailed) => match Version::new(
                detailed.version.as_str(),
            ) {
                Ok(requirement) => Ok(requirement),
                Err(reason) => Err(
                    DiffError::Detailed {
                        requirement: copy_text(detailed.version.as_str()),
                        reason,
                    },
                ),
            },
            CargoDependencyValue::Git(_) => Ok(Version::sentinel()),
        }
    }

    /// What one dependency of the current manifest adds to the diff.
    pub fn get_changes_from_current_dependency(
        entry: &DependencyEntry,
        previous_dependencies: &DependencyTable,
        label: Option<&str>,
    ) -> (outcome: Result<Changes, DiffError>)
        ensures
            outcome_view(outcome) == current_entry_changes(
                entry@,
                previous_dependencies@,
                label_view(label),
            ),
    {
        let current_version = match File::get_version(&entry.value) {
            Ok(version) => version,
            Err(error) => {
                return Err(error);
            },
        };
        let mut changes = Changes::new();
        let package_name = entry_display_name(entry);
        match previous_dependencies.get(entry.key.as_str()) {
            Some(previous_value) => {
                let previous_version = match File::get_version(previous_value) {
                    Ok(version) => version,
                    Err(error) => {
                        return Err(error);
                    },
                };
                match ChangeRecord::revised(
                    package_name,
                    label,
                    &current_version,
                    &previous_version,
                ) {
                    Some(record) => {
                        proof {
                            lemma_record_views_push(changes.records@, record);
                            assert(record_views(changes.records@).push(record@) =~= seq![record@]);
                        }
                        changes.records.push(record);
                    },
                    None => {},
                }
                note_git_dependency(&entry.value, &mut changes.diagnostics);
                note_git_dependency(previous_value, &mut changes.diagnostics);
                note_invalid_range(&current_version, &mut changes.diagnostics);
                note_invalid_range(&previous_version, &mut changes.diagnostics);
                proof {
                    assert(changes@.diagnostics =~= entry_diagnostics(entry@.value)
                        + entry_diagnostics(previous_value@) + range_diagnostics(current_version@)
                        + range_diagnostics(previous_version@));
                }
            },
            None => {
                let record = ChangeRecord::added(package_name, label, &current_version);
                proof {
                    lemma_record_views_push(changes.records@, record);
                    assert(record_views(changes.records@).push(record@) =~= seq![record@]);
                }
                changes.records.push(record);
                note_git_dependency(&entry.value, &mut changes.diagnostics);
                proof {
                    assert(changes@.diagnostics =~= entry_diagnostics(entry@.value));
                }
            },
        }
        Ok(changes)
    }

    /// What the dependencies of the current manifest add to the diff, in the
    /// order of their keys.
    pub fn get_changes_from_current_dependencies(
        current_dependencies: &DependencyTable,
        previous_dependencies: &DependencyTable,
        label: Option<&str>,
    ) -> (outcome: Result<Changes, DiffError>)
        ensures
            outcome_view(outcome) == current_changes(
                current_dependencies@,
                previous_dependencies@,
                label_view(label),
            ),
    {
        let ghost current = current_dependencies@;
        let ghost previous = previous_dependencies@;
        let count = current_dependencies.len();
        let mut changes = Changes::new();
        let mut index: usize = 0;
        while index < count
            invariant
                index <= count,
                count == current.len(),
                current == current_dependencies@,
                previous == previous_dependencies@,
                current_changes(current.take(index as int), previous, label_view(label)) == Ok::<
                    ChangesSpec,
                    DiffErrorSpec,
                >(changes@),
            decreases count - index,
        {
            let entry = current_dependencies.entry(index);
            proof {
                assert(current.take(index as int + 1).drop_last() =~= current.take(index as int));
                assert(current.take(index as int + 1).last() == entry@);
            }
            match File::get_changes_from_current_dependency(entry, previous_dependencies, label) {
                Ok(more) => {
                    changes.append(more);
                },
                Err(error) => {
                    proof {
                        lemma_current_error_stays(
                            current,
                            previous,
                            label_view(label),
                            index as int + 1,
                        );
                    }
                    return Err(error);
                },
            }
            index = index + 1;
        }
        proof {
            assert(current.take(index as int) =~= current);
        }
        Ok(changes)
    }

    /// What one dependency of the previous manifest adds to the diff: its
    /// removal, if the current manifest does not have its key.
    pub fn get_changes_from_previous_dependency(
        entry: &DependencyEntry,
        current_dependencies: &DependencyTable,
        label: Option<&str>,
    ) -> (outcome: Result<Changes, DiffError>)
        ensures
            outcome_view(outcome) == previous_entry_changes(
                entry@,
                current_dependencies@,
                label_view(label),
            ),
    {
        let mut changes = Changes::new();
        if current_dependencies.contains_key(entry.key.as_str()) {
            return Ok(changes);
        }
        let version = match File::get_version(&entry.value) {
            Ok(version) => version,
            Err(error) => {
                return Err(error);
            },
        };
        let record = ChangeRecord::removed(entry_display_name(entry), label, &version);
        proof {
            lemma_record_views_push(changes.records@, record);
            assert(record_views(changes.records@).push(record@) =~= seq![record@]);
        }
        changes.records.push(record);
        note_git_dependency(&entry.value, &mut changes.diagnostics);
        proof {
            assert(changes@.diagnostics =~= entry_diagnostics(entry@.value));
        }
        Ok(changes)
    }

    /// The diff of one table: what its current dependencies add, then the
    /// removals, each in the order of the keys.
    pub fn get_dependency_changes_versus_previous(
        current_dependencies: &DependencyTable,
        previous_dependencies: &DependencyTable,
        label: Option<&str>,
    ) -> (outcome: Result<Changes, DiffError>)
        ensures
            outcome_view(outcome) == table_changes(
                current_dependencies@,
                previous_dependencies@,
                label_view(label),
            ),
    {
        let ghost current = current_dependencies@;
        let ghost previous = previous_dependencies@;
        let mut changes = match File::get_changes_from_current_dependencies(
            current_dependencies,
            previous_dependencies,
            label,
        ) {
            Ok(changes) => changes,
            Err(error) => {
                return Err(error);
            },
        };
        let count = previous_dependencies.len();
        let mut removed = Changes::new();
        let mut index: usize = 0;
        while index < count
            invariant
                index <= count,
                count == previous.len(),
                current == current_dependencies@,
                previous == previous_dependencies@,
                current_changes(current, previous, label_view(label)) is Ok,
                removed_changes(previous.take(index as int), current, label_view(label)) == Ok::<
                    ChangesSpec,
                    DiffErrorSpec,
                >(removed@),
            decreases count - index,
        {
            let entry = previous_dependencies.entry(index);
            proof {
                assert(previous.take(index as int + 1).drop_last() =~= previous.take(
                    index as int,
                ));
                assert(previous.take(index as int + 1).last() == entry@);
            }
            match File::get_changes_from_previous_dependency(entry, current_dependencies, label) {
                Ok(more) => {
                    removed.append(more);
                },
                Err(error) => {
                    proof {
                        lemma_removed_error_stays(
                            previous,
                            current,
                            label_view(label),
                            index as int + 1,
                        );
                    }
                    return Err(error);
                },
            }
            index = index + 1;
        }
        proof {
            assert(previous.take(index as int) =~= previous);
        }
        changes.append(removed);
        Ok(changes)
    }

    /// The diff of one table that either manifest may lack: a missing table
    /// counts as one without dependencies.
    pub fn get_optional_dependency_changes_versus_previous(
        current_dependencies: Option<&DependencyTable>,
        previous_dependencies: Option<&DependencyTable>,
        label: Option<&str>,
    ) -> (outcome: Result<Changes, DiffError>)
        ensures
            outcome_view(outcome) == table_changes(
                optional_table_entries(current_dependencies),
                optional_table_entries(previous_dependencies),
                label_view(label),
            ),
    {
        match (current_dependencies, previous_dependencies) {
            (Some(current_value), Some(previous_value)) => {
                File::get_dependency_changes_versus_previous(current_value, previous_value, label)
            },
            (Some(current_value), None) => {
                let previous = DependencyTable::new();
                File::get_dependency_changes_versus_previous(current_value, &previous, label)
            },
            (None, Some(previous_value)) => {
                let current = DependencyTable::new();
                File::get_dependency_changes_versus_previous(&current, previous_value, label)
            },
            (None, None) => {
                proof {
                    lemma_joined(no_changes(), no_changes(), no_changes());
                }
                Ok(Changes::new())
            },
        }
    }

    /// The diff of this manifest against a previous one: the changes of the
    /// normal dependencies, then of the dev, build and workspace
    /// dependencies.
    pub fn changes_versus_previous_version(&self, previous: &File) -> (outcome: Result<
        Changes,
        DiffError,
    >)
        ensures
            outcome_view(outcome) == file_changes(self@, previous@),
    {
        let mut changes = match File::get_optional_dependency_changes_versus_previous(
            self.dependencies.as_ref(),
            previous.dependencies.as_ref(),
            TableKind::Normal.label(),
        ) {
            Ok(changes) => changes,
            Err(error) => {
                return Err(error);
            },
        };
        match File::get_optional_dependency_changes_versus_previous(
            self.dev_dependencies.as_ref(),
            previous.dev_dependencies.as_ref(),
            TableKind::Dev.label(),
        ) {
            Ok(more) => {
                changes.append(more);
            },
            Err(error) => {
                return Err(error);
            },
        }
        match File::get_optional_dependency_changes_versus_previous(
            self.build_dependencies.as_ref(),
            previous.build_dependencies.as_ref(),
            TableKind::Build.label(),
        ) {
            Ok(more) => {
                changes.append(more);
            },
            Err(error) => {
                return Err(error);
            },
        }
        match File::get_optional_dependency_changes_versus_previous(
            self.workspace_dependencies.as_ref(),
            previous.workspace_dependencies.as_ref(),
            TableKind::Workspace.label(),
        ) {
            Ok(more) => {
                changes.append(more);
            },
            Err(error) => {
                return Err(error);
            },
        }
        Ok(changes)
    }

    /// The report of the diff of this manifest against a previous one: one
    /// line for each change, or the line that says that there is none.
    pub fn print_changes_versus_previous_version(&self, previous: &File) -> (outcome: Result<
        String,
        DiffError,
    >)
        ensures
            report_view(outcome) == report(self@, previous@),
    {
        match self.changes_versus_previous_version(previous) {
            Ok(changes) => Ok(changes.to_string()),
            Err(error) => Err(error),
        }
    }
}

} // verus!
