//! What the user is told: each report and each error as a line or a text of
//! markdown.

use crate::provider::ProviderError;
use crate::report::{outcome_views, row_views, Error, Operation, Report, ReportView, Row, RowView,
    UpdateOutcome, UpdateOutcomeView};
use vstd::prelude::*;
use vstd::string::StringExecFns;

verus! {

/// `lines` with `separator` between each two of them.
pub open spec fn joined(lines: Seq<Seq<char>>, separator: Seq<char>) -> Seq<char>
    decreases lines.len(),
{
    if lines.len() == 0 {
        Seq::empty()
    } else if lines.len() == 1 {
        lines[0]
    } else {
        joined(lines.drop_last(), separator) + separator + lines.last()
    }
}

/// Why the provider failed, in words.
pub open spec fn reason_text(reason: ProviderError) -> Seq<char> {
    match reason {
        ProviderError::SourceUnavailable => "source unavailable"@,
        ProviderError::AuthFailed => "authentication failed"@,
        ProviderError::PathConflict => "destination is in the way"@,
        ProviderError::NetworkError => "network error"@,
        ProviderError::RemoteNotFound => "remote not found"@,
        ProviderError::DirtyWorkingTree => "working tree has conflicting changes"@,
        ProviderError::InvalidReference => "invalid reference"@,
        ProviderError::EmptyRepository => "repository has no commits"@,
        ProviderError::WorkspaceMissing => "no repository in the workspace"@,
    }
}

/// Why a workflow gave up, in words.
pub open spec fn error_text(error: Error) -> Seq<char> {
    match error {
        Error::NotInitialized => "No .vendman directory found. Run `vendman init` to initialize it."@,
        Error::Corrupt => "Can't parse config file"@,
        Error::IOError { during } => match during {
            Operation::CreateRoot => "Can't create .vendman directory"@,
            Operation::ReadManifest => "Can't read config file"@,
            Operation::WriteManifest => "Can't write to config file"@,
            Operation::RemoveRoot => "Can't remove .vendman directory"@,
        },
        Error::CloneFailed { reason } => "Can't clone repository: "@ + reason_text(reason),
        Error::UnexpectedResponse => "Unexpected response to a request"@,
    }
}

/// The line of markdown that announces an error.
pub open spec fn alert_text(error: Error) -> Seq<char> {
    "**Error**: "@ + error_text(error)
}

/// What `update` did for one dependency, as a line of markdown.
pub open spec fn outcome_line(outcome: UpdateOutcomeView) -> Seq<char> {
    match outcome {
        UpdateOutcomeView::Updated { name, branch } => match branch {
            Some(branch) => name + "/*"@ + branch + "*"@,
            None => name,
        },
        UpdateOutcomeView::Failed { name, reason } => "["@ + name + "] "@ + reason_text(reason),
    }
}

/// One dependency as a row of the table that `list` shows.
pub open spec fn row_line(row: RowView) -> Seq<char> {
    match row {
        RowView::Head { name, branch, commit } => "| **"@ + name + "** | "@ + branch + " | *"@
            + commit + "* |"@,
        RowView::Failed { name, reason } => "| **"@ + name + "** | "@ + reason_text(reason) + " | |"@,
    }
}

/// The head of the table that `list` shows.
pub const TABLE_HEAD: &'static str = "\n|**Name**|**Branch**|**Hash**|\n|:-:|:-:|:-:|\n";

/// The line of markdown that announces a report. A listing has none.
pub open spec fn headline_text(report: ReportView) -> Seq<char> {
    match report {
        ReportView::Initialized => "**.vendman directory initialized**"@,
        ReportView::Vended { name } => "**Cloned**: *"@ + name + "*"@,
        ReportView::Cleaned => "**.vendman directory removed**"@,
        ReportView::Updated { .. } => "**Dependencies updated**"@,
        ReportView::Listed { .. } => Seq::empty(),
    }
}

/// The text of markdown that follows the headline of a report: for
/// `update` a line for each dependency, for `list` the table, and nothing
/// otherwise.
pub open spec fn body_text(report: ReportView) -> Seq<char> {
    match report {
        ReportView::Updated { outcomes } => joined(
            Seq::new(outcomes.len(), |i: int| outcome_line(outcomes[i])),
            "\n"@,
        ),
        ReportView::Listed { rows } => TABLE_HEAD@ + joined(
            Seq::new(rows.len(), |i: int| row_line(rows[i])),
            "\n"@,
        ) + "\n"@,
        _ => Seq::empty(),
    }
}

/// Appending a line to a text of `count` lines gives the text of
/// `count + 1` lines.
proof fn lemma_joined_next(lines: Seq<Seq<char>>, separator: Seq<char>, count: int)
    requires
        0 <= count < lines.len(),
    ensures
        joined(lines.take(count + 1), separator) == if count == 0 {
            lines[count]
        } else {
            joined(lines.take(count), separator) + separator + lines[count]
        },
{
    assert(lines.take(count + 1).drop_last() =~= lines.take(count));
}

impl ProviderError {
    /// Why the provider failed, in words.
    pub fn describe(&self) -> (text: String)
        ensures
            text@ == reason_text(*self),
    {
        match self {
            ProviderError::SourceUnavailable => "source unavailable".to_owned(),
            ProviderError::AuthFailed => "authentication failed".to_owned(),
            ProviderError::PathConflict => "destination is in the way".to_owned(),
            ProviderError::NetworkError => "network error".to_owned(),
            ProviderError::RemoteNotFound => "remote not found".to_owned(),
            ProviderError::DirtyWorkingTree => "working tree has conflicting changes".to_owned(),
            ProviderError::InvalidReference => "invalid reference".to_owned(),
            ProviderError::EmptyRepository => "repository has no commits".to_owned(),
            ProviderError::WorkspaceMissing => "no repository in the workspace".to_owned(),
        }
    }
}

impl Error {
    /// Why the workflow gave up, in words.
    pub fn message(&self) -> (text: String)
        ensures
            text@ == error_text(*self),
    {
        match self {
            Error::NotInitialized => {
                "No .vendman directory found. Run `vendman init` to initialize it.".to_owned()
            },
            Error::Corrupt => "Can't parse config file".to_owned(),
            Error::IOError { during } => match during {
                Operation::CreateRoot => "Can't create .vendman directory".to_owned(),
                Operation::ReadManifest => "Can't read config file".to_owned(),
                Operation::WriteManifest => "Can't write to config file".to_owned(),
                Operation::RemoveRoot => "Can't remove .vendman directory".to_owned(),
            },
            Error::CloneFailed { reason } => {
                let mut text = "Can't clone repository: ".to_owned();
                text.append(reason.describe().as_str());
                text
            },
            Error::UnexpectedResponse => "Unexpected response to a request".to_owned(),
        }
    }

    /// The line of markdown that announces the error.
    pub fn alert(&self) -> (text: String)
        ensures
            text@ == alert_text(*self),
    {
        let mut text = "**Error**: ".to_owned();
        text.append(self.message().as_str());
        text
    }
}

impl UpdateOutcome {
    /// The outcome as a line of markdown.
    pub fn line(&self) -> (text: String)
        ensures
            text@ == outcome_line(self@),
    {
        match self {
            UpdateOutcome::Updated { name, branch } => match branch {
                Some(branch) => {
                    let mut text = name.clone();
                    text.append("/*");
                    text.append(branch.as_str());
                    text.append("*");
                    text
                },
                None => name.clone(),
            },
            UpdateOutcome::Failed { name, reason } => {
                let mut text = "[".to_owned();
                text.append(name.as_str());
                text.append("] ");
                text.append(reason.describe().as_str());
                text
            },
        }
    }
}

impl Row {
    /// The row as a line of the table.
    pub fn line(&self) -> (text: String)
        ensures
            text@ == row_line(self@),
    {
        match self {
            Row::Head { name, branch, commit } => {
                let mut text = "| **".to_owned();
                text.append(name.as_str());
                text.append("** | ");
                text.append(branch.as_str());
                text.append(" | *");
                text.append(commit.as_str());
                text.append("* |");
                text
            },
            Row::Failed { name, reason } => {
                let mut text = "| **".to_owned();
                text.append(name.as_str());
                text.append("** | ");
                text.append(reason.describe().as_str());
                text.append(" | |");
                text
            },
        }
    }
}

impl Report {
    /// The line of markdown that announces the report. A listing has none.
    pub fn headline(&self) -> (text: String)
        ensures
            text@ == headline_text(self@),
    {
        match self {
            Report::Initialized => "**.vendman directory initialized**".to_owned(),
            Report::Vended { name } => {
                let mut text = "**Cloned**: *".to_owned();
                text.append(name.as_str());
                text.append("*");
                text
            },
            Report::Cleaned => "**.vendman directory removed**".to_owned(),
            Report::Updated { .. } => "**Dependencies updated**".to_owned(),
            Report::Listed { .. } => String::new(),
        }
    }

    /// The text of markdown that follows the headline.
    pub fn body(&self) -> (text: String)
        ensures
            text@ == body_text(self@),
    {
        match self {
            Report::Updated { outcomes } => {
                let ghost lines = Seq::new(
                    outcomes.len() as nat,
                    |i: int| outcome_line(outcome_views(outcomes@)[i]),
                );
                let mut text = String::new();
                let mut i: usize = 0;
                while i < outcomes.len()
                    invariant
                        i <= outcomes.len(),
                        lines == Seq::new(
                            outcomes.len() as nat,
                            |i: int| outcome_line(outcome_views(outcomes@)[i]),
                        ),
                        text@ == joined(lines.take(i as int), "\n"@),
                    decreases outcomes.len() - i,
                {
                    proof {
                        lemma_joined_next(lines, "\n"@, i as int);
                    }
                    if i > 0 {
                        text.append("\n");
                    }
                    text.append(outcomes[i].line().as_str());
                    i = i + 1;
                }
                proof {
                    assert(lines.take(i as int) =~= lines);
                    assert(lines =~= Seq::new(
                        outcome_views(outcomes@).len(),
                        |i: int| outcome_line(outcome_views(outcomes@)[i]),
                    ));
                }
                text
            },
            Report::Listed { rows } => {
                let ghost lines = Seq::new(
                    rows.len() as nat,
                    |i: int| row_line(row_views(rows@)[i]),
                );
                let mut text = String::new();
                let mut i: usize = 0;
                while i < rows.len()
                    invariant
                        i <= rows.len(),
                        lines == Seq::new(rows.len() as nat, |i: int| row_line(row_views(rows@)[i])),
                        text@ == joined(lines.take(i as int), "\n"@),
                    decreases rows.len() - i,
                {
                    proof {
                        lemma_joined_next(lines, "\n"@, i as int);
                    }
                    if i > 0 {
                        text.append("\n");
                    }
                    text.append(rows[i].line().as_str());
                    i = i + 1;
                }
                proof {
                    assert(lines.take(i as int) =~= lines);
                    assert(lines =~= Seq::new(
                        row_views(rows@).len(),
                        |i: int| row_line(row_views(rows@)[i]),
                    ));
                }
                let mut table = TABLE_HEAD.to_owned();
                table.append(text.as_str());
                table.append("\n");
                table
            },
            _ => String::new(),
        }
    }
}

} // verus!
