//! How a workflow ends: with a report of what was done, or with an error.

use crate::provider::ProviderError;
use crate::types::text_of;
use vstd::prelude::*;

verus! {

/// What `update` did for one dependency.
#[derive(Debug, PartialEq, Eq)]
pub enum UpdateOutcome {
    /// The dependency was brought up to date; a pinned one on `branch`.
    Updated { name: String, branch: Option<String> },
    /// The provider failed on this dependency.
    Failed { name: String, reason: ProviderError },
}

/// What an [`UpdateOutcome`] holds.
pub enum UpdateOutcomeView {
    Updated { name: Seq<char>, branch: Option<Seq<char>> },
    Failed { name: Seq<char>, reason: ProviderError },
}

impl View for UpdateOutcome {
    type V = UpdateOutcomeView;

    open spec fn view(&self) -> UpdateOutcomeView {
        match self {
            UpdateOutcome::Updated { name, branch } => UpdateOutcomeView::Updated {
                name: name@,
                branch: text_of(*branch),
            },
            UpdateOutcome::Failed { name, reason } => UpdateOutcomeView::Failed {
                name: name@,
                reason: *reason,
            },
        }
    }
}

impl UpdateOutcomeView {
    /// The dependency that the outcome is about.
    pub open spec fn name(self) -> Seq<char> {
        match self {
            UpdateOutcomeView::Updated { name, .. } => name,
            UpdateOutcomeView::Failed { name, .. } => name,
        }
    }
}

/// The views of a run of outcomes.
pub open spec fn outcome_views(outcomes: Seq<UpdateOutcome>) -> Seq<UpdateOutcomeView> {
    outcomes.map_values(|outcome: UpdateOutcome| outcome@)
}

/// What `list` found for one dependency.
#[derive(Debug, PartialEq, Eq)]
pub enum Row {
    /// The repository stands at `commit`, on `branch`.
    Head { name: String, branch: String, commit: String },
    /// The provider could not tell.
    Failed { name: String, reason: ProviderError },
}

/// What a [`Row`] holds.
pub enum RowView {
    Head { name: Seq<char>, branch: Seq<char>, commit: Seq<char> },
    Failed { name: Seq<char>, reason: ProviderError },
}

impl View for Row {
    type V = RowView;

    open spec fn view(&self) -> RowView {
        match self {
            Row::Head { name, branch, commit } => RowView::Head {
                name: name@,
                branch: branch@,
                commit: commit@,
            },
            Row::Failed { name, reason } => RowView::Failed { name: name@, reason: *reason },
        }
    }
}

impl RowView {
    /// The dependency that the row is about.
    pub open spec fn name(self) -> Seq<char> {
        match self {
            RowView::Head { name, .. } => name,
            RowView::Failed { name, .. } => name,
        }
    }
}

/// The views of a run of rows.
pub open spec fn row_views(rows: Seq<Row>) -> Seq<RowView> {
    rows.map_values(|row: Row| row@)
}

/// What a workflow did.
#[derive(Debug, PartialEq, Eq)]
pub enum Report {
    /// The workspace is initialized, by this run or an earlier one.
    Initialized,
    /// A dependency was cloned and declared under `name`.
    Vended { name: String },
    /// The workspace is removed.
    Cleaned,
    /// Every declared dependency was gone through, in ascending order of the
    /// names.
    Updated { outcomes: Vec<UpdateOutcome> },
    /// The state of every declared dependency, in ascending order of the
    /// names.
    Listed { rows: Vec<Row> },
}

/// What a [`Report`] holds.
pub enum ReportView {
    Initialized,
    Vended { name: Seq<char> },
    Cleaned,
    Updated { outcomes: Seq<UpdateOutcomeView> },
    Listed { rows: Seq<RowView> },
}

impl View for Report {
    type V = ReportView;

    open spec fn view(&self) -> ReportView {
        match self {
            Report::Initialized => ReportView::Initialized,
            Report::Vended { name } => ReportView::Vended { name: name@ },
            Report::Cleaned => ReportView::Cleaned,
            Report::Updated { outcomes } => ReportView::Updated {
                outcomes: outcome_views(outcomes@),
            },
            Report::Listed { rows } => ReportView::Listed { rows: row_views(rows@) },
        }
    }
}

/// What the file system was asked for when it refused.
#[derive(Clone, Copy, Debug, PartialEq, Eq, Structural)]
pub enum Operation {
    CreateRoot,
    ReadManifest,
    WriteManifest,
    RemoveRoot,
}

/// Why a workflow gave up.
#[derive(Clone, Copy, Debug, PartialEq, Eq, Structural)]
pub enum Error {
    /// There is no manifest: the workspace was never initialized.
    NotInitialized,
    /// The manifest is there but does not decode.
    Corrupt,
    /// The file system refused an operation.
    IOError { during: Operation },
    /// The clone of a new dependency failed. The manifest is as it was.
    CloneFailed { reason: ProviderError },
    /// A response came that does not answer the request that was issued.
    UnexpectedResponse,
}

/// The outcome of a workflow, as the contracts speak of it.
pub open spec fn outcome_view(outcome: Result<Report, Error>) -> Result<ReportView, Error> {
    match outcome {
        Ok(report) => Ok(report@),
        Err(error) => Err(error),
    }
}

} // verus!
