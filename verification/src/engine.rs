//! The workflows, each as a state machine.
//!
//! A [`Workflow`] is started with a [`Command`] and issues a first
//! [`Request`]. Each [`Response`] handed to [`Workflow::step`] yields either
//! the next request or the end of the workflow. What the machine does is
//! stated by [`begin`] and [`react`]; what a whole run comes to is stated in
//! [`crate::model`].

use crate::provider::{Request, RequestView, Response, ResponseView, ORIGIN};
use crate::report::{outcome_view, outcome_views, row_views, Error, Operation, Report, ReportView,
    Row, RowView, UpdateOutcome, UpdateOutcomeView};
use crate::text::{derive_name, final_segment};
use crate::types::{declared, initial_manifest, listing_of, text_of, views, Config, ConfigView,
    Dependency, DependencyView, Entry, EntryView};
use vstd::prelude::*;

verus! {

/// What the user asks for.
#[derive(Debug, PartialEq, Eq)]
pub enum Command {
    /// Create the workspace with an empty manifest, unless it is there.
    Init,
    /// Clone `repo` and declare it as a dependency, pinned to `branch` where
    /// one is given.
    Vend { repo: String, branch: Option<String> },
    /// Remove the workspace.
    Clean,
    /// Bring every declared dependency up to date with its source.
    Update,
    /// Report where every declared dependency stands.
    List,
}

/// What a [`Command`] holds.
pub enum CommandView {
    Init,
    Vend { repo: Seq<char>, branch: Option<Seq<char>> },
    Clean,
    Update,
    List,
}

impl View for Command {
    type V = CommandView;

    open spec fn view(&self) -> CommandView {
        match self {
            Command::Init => CommandView::Init,
            Command::Vend { repo, branch } => CommandView::Vend {
                repo: repo@,
                branch: text_of(*branch),
            },
            Command::Clean => CommandView::Clean,
            Command::Update => CommandView::Update,
            Command::List => CommandView::List,
        }
    }
}

/// What comes after a response: the next request, or the end.
#[derive(Debug, PartialEq, Eq)]
pub enum Step {
    Perform(Request),
    Finish(Result<Report, Error>),
}

/// What a [`Step`] holds.
pub enum StepView {
    Perform(RequestView),
    Finish(Result<ReportView, Error>),
}

impl View for Step {
    type V = StepView;

    open spec fn view(&self) -> StepView {
        match self {
            Step::Perform(request) => StepView::Perform(request@),
            Step::Finish(outcome) => StepView::Finish(outcome_view(*outcome)),
        }
    }
}

/// Where a workflow stands: which response it waits for, and what it has
/// gathered so far.
pub enum WorkflowView {
    /// `init` asked whether the managed root exists.
    InitProbe,
    /// `init` asked for the managed root to be created.
    InitCreate,
    /// `init` asked for the empty manifest to be written.
    InitSave,
    /// `vend` asked for the manifest.
    VendLoad { locator: Seq<char>, branch: Option<Seq<char>> },
    /// `vend` asked for the clone.
    VendClone { manifest: ConfigView, name: Seq<char>, branch: Option<Seq<char>> },
    /// `vend` asked for the manifest with the new entry to be written.
    VendSave { name: Seq<char> },
    /// `clean` asked for the manifest.
    CleanLoad,
    /// `clean` asked for the managed root to be removed.
    CleanRemove,
    /// `update` asked for the manifest.
    UpdateLoad,
    /// `update` asked for a fetch in `current`; `rest` is still to come.
    UpdateFetch { current: EntryView, rest: Seq<EntryView>, outcomes: Seq<UpdateOutcomeView> },
    /// `update` asked for a checkout in `current`, which is pinned.
    UpdateCheckout { current: EntryView, rest: Seq<EntryView>, outcomes: Seq<UpdateOutcomeView> },
    /// `list` asked for the manifest.
    ListLoad,
    /// `list` asked for the head of `current`; `rest` is still to come.
    ListHead { current: EntryView, rest: Seq<EntryView>, rows: Seq<RowView> },
    /// The workflow is over.
    Finished,
}

/// The name that a repository without a short reference name is listed
/// under.
pub const DETACHED: &'static str = "HEAD";

/// The workflow ends with `error`.
pub open spec fn give_up(error: Error) -> (WorkflowView, StepView) {
    (WorkflowView::Finished, StepView::Finish(Err(error)))
}

/// The workflow ends with `report`.
pub open spec fn conclude(report: ReportView) -> (WorkflowView, StepView) {
    (WorkflowView::Finished, StepView::Finish(Ok(report)))
}

/// The error that a response to `LoadManifest` other than the manifest
/// stands for.
pub open spec fn load_failure(response: ResponseView) -> Error {
    match response {
        ResponseView::Missing => Error::NotInitialized,
        ResponseView::Unreadable => Error::IOError { during: Operation::ReadManifest },
        ResponseView::Corrupt => Error::Corrupt,
        _ => Error::UnexpectedResponse,
    }
}

/// The manifest after a dependency cloned to `location` is declared under
/// `name`: an entry of that name is replaced, every other entry stays.
pub open spec fn vended(
    manifest: ConfigView,
    name: Seq<char>,
    location: Seq<char>,
    branch: Option<Seq<char>>,
) -> ConfigView {
    ConfigView {
        version: manifest.version,
        dependencies: manifest.dependencies.insert(name, declared(location, branch)),
    }
}

/// The fetch that `update` asks for in a dependency: from [`ORIGIN`], and
/// only the branch that the dependency is pinned to, if it is pinned.
pub open spec fn fetch_of(entry: EntryView) -> RequestView {
    RequestView::Fetch { name: entry.name, remote: ORIGIN@, branch: entry.dependency.branch() }
}

/// `update` with `remaining` still to go through.
pub open spec fn update_stage(remaining: Seq<EntryView>, outcomes: Seq<UpdateOutcomeView>) -> (
    WorkflowView,
    StepView,
) {
    if remaining.len() == 0 {
        conclude(ReportView::Updated { outcomes })
    } else {
        (
            WorkflowView::UpdateFetch {
                current: remaining.first(),
                rest: remaining.drop_first(),
                outcomes,
            },
            StepView::Perform(fetch_of(remaining.first())),
        )
    }
}

/// `list` with `remaining` still to go through.
pub open spec fn list_stage(remaining: Seq<EntryView>, rows: Seq<RowView>) -> (
    WorkflowView,
    StepView,
) {
    if remaining.len() == 0 {
        conclude(ReportView::Listed { rows })
    } else {
        (
            WorkflowView::ListHead {
                current: remaining.first(),
                rest: remaining.drop_first(),
                rows,
            },
            StepView::Perform(RequestView::CurrentHead { name: remaining.first().name }),
        )
    }
}

/// The branch that a head is listed under: the short name of its reference,
/// or [`DETACHED`] where it has none.
pub open spec fn listed_branch(shorthand: Option<Seq<char>>) -> Seq<char> {
    match shorthand {
        Some(name) => name,
        None => DETACHED@,
    }
}

/// How a workflow begins: the state it is in, and its first request.
pub open spec fn begin(command: CommandView) -> (WorkflowView, RequestView) {
    match command {
        CommandView::Init => (WorkflowView::InitProbe, RequestView::ProbeRoot),
        CommandView::Vend { repo, branch } => (
            WorkflowView::VendLoad { locator: repo, branch },
            RequestView::LoadManifest,
        ),
        CommandView::Clean => (WorkflowView::CleanLoad, RequestView::LoadManifest),
        CommandView::Update => (WorkflowView::UpdateLoad, RequestView::LoadManifest),
        CommandView::List => (WorkflowView::ListLoad, RequestView::LoadManifest),
    }
}

/// How a workflow in `state` reacts to `response`: the state it moves to,
/// and what comes next.
///
/// A response of a kind that does not answer the request of `state` ends
/// the workflow with [`Error::UnexpectedResponse`].
pub open spec fn react(state: WorkflowView, response: ResponseView) -> (WorkflowView, StepView) {
    match state {
        WorkflowView::InitProbe => match response {
            ResponseView::Exists { found } => if found {
                conclude(ReportView::Initialized)
            } else {
                (WorkflowView::InitCreate, StepView::Perform(RequestView::CreateRoot))
            },
            _ => give_up(Error::UnexpectedResponse),
        },
        WorkflowView::InitCreate => match response {
            ResponseView::Done => (
                WorkflowView::InitSave,
                StepView::Perform(RequestView::SaveManifest { manifest: initial_manifest() }),
            ),
            ResponseView::IoFailed => give_up(Error::IOError { during: Operation::CreateRoot }),
            _ => give_up(Error::UnexpectedResponse),
        },
        WorkflowView::InitSave => match response {
            ResponseView::Done => conclude(ReportView::Initialized),
            ResponseView::IoFailed => give_up(Error::IOError { during: Operation::WriteManifest }),
            _ => give_up(Error::UnexpectedResponse),
        },
        WorkflowView::VendLoad { locator, branch } => match response {
            ResponseView::Loaded { manifest } => (
                WorkflowView::VendClone { manifest, name: final_segment(locator), branch },
                StepView::Perform(
                    RequestView::Clone { locator, name: final_segment(locator), branch },
                ),
            ),
            _ => give_up(load_failure(response)),
        },
        WorkflowView::VendClone { manifest, name, branch } => match response {
            ResponseView::Cloned { location } => (
                WorkflowView::VendSave { name },
                StepView::Perform(
                    RequestView::SaveManifest { manifest: vended(manifest, name, location, branch) },
                ),
            ),
            ResponseView::ProviderFailed { error } => give_up(Error::CloneFailed { reason: error }),
            _ => give_up(Error::UnexpectedResponse),
        },
        WorkflowView::VendSave { name } => match response {
            ResponseView::Done => conclude(ReportView::Vended { name }),
            ResponseView::IoFailed => give_up(Error::IOError { during: Operation::WriteManifest }),
            _ => give_up(Error::UnexpectedResponse),
        },
        WorkflowView::CleanLoad => match response {
            ResponseView::Loaded { .. } => (
                WorkflowView::CleanRemove,
                StepView::Perform(RequestView::RemoveRoot),
            ),
            _ => give_up(load_failure(response)),
        },
        WorkflowView::CleanRemove => match response {
            ResponseView::Done => conclude(ReportView::Cleaned),
            ResponseView::IoFailed => give_up(Error::IOError { during: Operation::RemoveRoot }),
            _ => give_up(Error::UnexpectedResponse),
        },
        WorkflowView::UpdateLoad => match response {
            ResponseView::Loaded { manifest } => update_stage(
                listing_of(manifest.dependencies),
                Seq::empty(),
            ),
            _ => give_up(load_failure(response)),
        },
        WorkflowView::UpdateFetch { current, rest, outcomes } => match response {
            ResponseView::Done => match current.dependency {
                DependencyView::Tracking { .. } => update_stage(
                    rest,
                    outcomes.push(UpdateOutcomeView::Updated { name: current.name, branch: None }),
                ),
                DependencyView::Pinned { .. } => (
                    WorkflowView::UpdateCheckout { current, rest, outcomes },
                    StepView::Perform(RequestView::CheckoutHead { name: current.name }),
                ),
            },
            ResponseView::ProviderFailed { error } => update_stage(
                rest,
                outcomes.push(UpdateOutcomeView::Failed { name: current.name, reason: error }),
            ),
            _ => give_up(Error::UnexpectedResponse),
        },
        WorkflowView::UpdateCheckout { current, rest, outcomes } => match response {
            ResponseView::Done => update_stage(
                rest,
                outcomes.push(
                    UpdateOutcomeView::Updated {
                        name: current.name,
                        branch: current.dependency.branch(),
                    },
                ),
            ),
            ResponseView::ProviderFailed { error } => update_stage(
                rest,
                outcomes.push(UpdateOutcomeView::Failed { name: current.name, reason: error }),
            ),
            _ => give_up(Error::UnexpectedResponse),
        },
        WorkflowView::ListLoad => match response {
            ResponseView::Loaded { manifest } => list_stage(
                listing_of(manifest.dependencies),
                Seq::empty(),
            ),
            _ => give_up(load_failure(response)),
        },
        WorkflowView::ListHead { current, rest, rows } => match response {
            ResponseView::Head { shorthand, commit } => list_stage(
                rest,
                rows.push(
                    RowView::Head { name: current.name, branch: listed_branch(shorthand), commit },
                ),
            ),
            ResponseView::ProviderFailed { error } => list_stage(
                rest,
                rows.push(RowView::Failed { name: current.name, reason: error }),
            ),
            _ => give_up(Error::UnexpectedResponse),
        },
        WorkflowView::Finished => give_up(Error::UnexpectedResponse),
    }
}

/// Where a workflow stands. The batch workflows keep the listing of the
/// manifest and the position of the entry whose request is under way.
#[derive(Debug)]
enum Stage {
    InitProbe,
    InitCreate,
    InitSave,
    VendLoad { locator: String, branch: Option<String> },
    VendClone { manifest: Config, name: String, branch: Option<String> },
    VendSave { name: String },
    CleanLoad,
    CleanRemove,
    UpdateLoad,
    UpdateFetch { entries: Vec<Entry>, position: usize, outcomes: Vec<UpdateOutcome> },
    UpdateCheckout { entries: Vec<Entry>, position: usize, outcomes: Vec<UpdateOutcome> },
    ListLoad,
    ListHead { entries: Vec<Entry>, position: usize, rows: Vec<Row> },
    Finished,
}

/// A workflow under way.
#[derive(Debug)]
pub struct Workflow {
    stage: Stage,
}

impl View for Workflow {
    type V = WorkflowView;

    closed spec fn view(&self) -> WorkflowView {
        match self.stage {
            Stage::InitProbe => WorkflowView::InitProbe,
            Stage::InitCreate => WorkflowView::InitCreate,
            Stage::InitSave => WorkflowView::InitSave,
            Stage::VendLoad { locator, branch } => WorkflowView::VendLoad {
                locator: locator@,
                branch: text_of(branch),
            },
            Stage::VendClone { manifest, name, branch } => WorkflowView::VendClone {
                manifest: manifest@,
                name: name@,
                branch: text_of(branch),
            },
            Stage::VendSave { name } => WorkflowView::VendSave { name: name@ },
            Stage::CleanLoad => WorkflowView::CleanLoad,
            Stage::CleanRemove => WorkflowView::CleanRemove,
            Stage::UpdateLoad => WorkflowView::UpdateLoad,
            Stage::UpdateFetch { entries, position, outcomes } => if position < entries.len() {
                WorkflowView::UpdateFetch {
                    current: entries[position as int]@,
                    rest: views(entries@).skip(position + 1),
                    outcomes: outcome_views(outcomes@),
                }
            } else {
                WorkflowView::Finished
            },
            Stage::UpdateCheckout { entries, position, outcomes } => if position < entries.len()
                && entries[position as int]@.dependency is Pinned {
                WorkflowView::UpdateCheckout {
                    current: entries[position as int]@,
                    rest: views(entries@).skip(position + 1),
                    outcomes: outcome_views(outcomes@),
                }
            } else {
                WorkflowView::Finished
            },
            Stage::ListLoad => WorkflowView::ListLoad,
            Stage::ListHead { entries, position, rows } => if position < entries.len() {
                WorkflowView::ListHead {
                    current: entries[position as int]@,
                    rest: views(entries@).skip(position + 1),
                    rows: row_views(rows@),
                }
            } else {
                WorkflowView::Finished
            },
            Stage::Finished => WorkflowView::Finished,
        }
    }
}

/// A copy of an optional string.
fn copy_text(text: &Option<String>) -> (copy: Option<String>)
    ensures
        text_of(copy) == text_of(*text),
{
    match text {
        Some(text) => Some(text.clone()),
        None => None,
    }
}

/// The end of a workflow that gives up.
fn ended(error: Error) -> (next: (Workflow, Step))
    ensures
        (next.0@, next.1@) == give_up(error),
{
    (Workflow { stage: Stage::Finished }, Step::Finish(Err(error)))
}

/// The end of a workflow that did what it was started for.
fn concluded(report: Report) -> (next: (Workflow, Step))
    ensures
        (next.0@, next.1@) == conclude(report@),
{
    (Workflow { stage: Stage::Finished }, Step::Finish(Ok(report)))
}

/// The error that a response to `LoadManifest` other than the manifest
/// stands for.
fn load_error(response: &Response) -> (error: Error)
    ensures
        error == load_failure(response@),
{
    match response {
        Response::Missing => Error::NotInitialized,
        Response::Unreadable => Error::IOError { during: Operation::ReadManifest },
        Response::Corrupt => Error::Corrupt,
        _ => Error::UnexpectedResponse,
    }
}

/// `update` from the entry at `position` on.
fn update_from(entries: Vec<Entry>, position: usize, outcomes: Vec<UpdateOutcome>) -> (next: (
    Workflow,
    Step,
))
    requires
        position <= entries.len(),
    ensures
        (next.0@, next.1@) == update_stage(
            views(entries@).skip(position as int),
            outcome_views(outcomes@),
        ),
{
    if position < entries.len() {
        let entry = &entries[position];
        let request = Request::Fetch {
            name: entry.name.clone(),
            remote: ORIGIN.to_owned(),
            branch: match entry.dependency.branch() {
                Some(branch) => Some(branch.clone()),
                None => None,
            },
        };
        proof {
            let remaining = views(entries@).skip(position as int);
            assert(remaining.first() == entries[position as int]@);
            assert(remaining.drop_first() =~= views(entries@).skip(position + 1));
        }
        (Workflow { stage: Stage::UpdateFetch { entries, position, outcomes } }, Step::Perform(request))
    } else {
        concluded(Report::Updated { outcomes })
    }
}

/// `list` from the entry at `position` on.
fn list_from(entries: Vec<Entry>, position: usize, rows: Vec<Row>) -> (next: (Workflow, Step))
    requires
        position <= entries.len(),
    ensures
        (next.0@, next.1@) == list_stage(views(entries@).skip(position as int), row_views(rows@)),
{
    if position < entries.len() {
        let request = Request::CurrentHead { name: entries[position].name.clone() };
        proof {
            let remaining = views(entries@).skip(position as int);
            assert(remaining.first() == entries[position as int]@);
            assert(remaining.drop_first() =~= views(entries@).skip(position + 1));
        }
        (Workflow { stage: Stage::ListHead { entries, position, rows } }, Step::Perform(request))
    } else {
        concluded(Report::Listed { rows })
    }
}

/// `update` after the entry at `position` came to `outcome`.
fn update_after(
    entries: Vec<Entry>,
    position: usize,
    outcomes: Vec<UpdateOutcome>,
    outcome: UpdateOutcome,
) -> (next: (Workflow, Step))
    requires
        position < entries.len(),
    ensures
        (next.0@, next.1@) == update_stage(
            views(entries@).skip(position + 1),
            outcome_views(outcomes@).push(outcome@),
        ),
{
    let mut outcomes = outcomes;
    let ghost before = outcome_views(outcomes@);
    outcomes.push(outcome);
    assert(outcome_views(outcomes@) =~= before.push(outcome@));
    update_from(entries, position + 1, outcomes)
}

/// `list` after the entry at `position` gave `row`.
fn list_after(entries: Vec<Entry>, position: usize, rows: Vec<Row>, row: Row) -> (next: (
    Workflow,
    Step,
))
    requires
        position < entries.len(),
    ensures
        (next.0@, next.1@) == list_stage(
            views(entries@).skip(position + 1),
            row_views(rows@).push(row@),
        ),
{
    let mut rows = rows;
    let ghost before = row_views(rows@);
    rows.push(row);
    assert(row_views(rows@) =~= before.push(row@));
    list_from(entries, position + 1, rows)
}

impl Workflow {
    /// Starts the workflow that `command` asks for.
    pub fn start(command: Command) -> (first: (Workflow, Request))
        ensures
            (first.0@, first.1@) == begin(command@),
    {
        match command {
            Command::Init => (Workflow { stage: Stage::InitProbe }, Request::ProbeRoot),
            Command::Vend { repo, branch } => (
                Workflow { stage: Stage::VendLoad { locator: repo, branch } },
                Request::LoadManifest,
            ),
            Command::Clean => (Workflow { stage: Stage::CleanLoad }, Request::LoadManifest),
            Command::Update => (Workflow { stage: Stage::UpdateLoad }, Request::LoadManifest),
            Command::List => (Workflow { stage: Stage::ListLoad }, Request::LoadManifest),
        }
    }

    /// Whether the workflow is over.
    pub fn is_finished(&self) -> (over: bool)
        ensures
            over == (self@ is Finished),
    {
        match &self.stage {
            Stage::Finished => true,
            Stage::UpdateFetch { entries, position, .. } => *position >= entries.len(),
            Stage::UpdateCheckout { entries, position, .. } => *position >= entries.len() || match
                &entries[*position].dependency {
                Dependency::Tracking { .. } => true,
                Dependency::Pinned { .. } => false,
            },
            Stage::ListHead { entries, position, .. } => *position >= entries.len(),
            _ => false,
        }
    }

    /// Takes the response to the request that is under way, and says what
    /// comes next.
    pub fn step(self, response: Response) -> (next: (Workflow, Step))
        ensures
            (next.0@, next.1@) == react(self@, response@),
    {
        match self.stage {
            Stage::InitProbe => match response {
                Response::Exists { found } => if found {
                    concluded(Report::Initialized)
                } else {
                    (Workflow { stage: Stage::InitCreate }, Step::Perform(Request::CreateRoot))
                },
                _ => ended(Error::UnexpectedResponse),
            },
            Stage::InitCreate => match response {
                Response::Done => (
                    Workflow { stage: Stage::InitSave },
                    Step::Perform(Request::SaveManifest { manifest: Config::new() }),
                ),
                Response::IoFailed => ended(Error::IOError { during: Operation::CreateRoot }),
                _ => ended(Error::UnexpectedResponse),
            },
            Stage::InitSave => match response {
                Response::Done => concluded(Report::Initialized),
                Response::IoFailed => ended(Error::IOError { during: Operation::WriteManifest }),
                _ => ended(Error::UnexpectedResponse),
            },
            Stage::VendLoad { locator, branch } => match response {
                Response::Loaded { manifest } => {
                    let name = derive_name(locator.as_str());
                    let request = Request::Clone {
                        locator,
                        name: name.clone(),
                        branch: copy_text(&branch),
                    };
                    (
                        Workflow { stage: Stage::VendClone { manifest, name, branch } },
                        Step::Perform(request),
                    )
                },
                other => ended(load_error(&other)),
            },
            Stage::VendClone { manifest, name, branch } => match response {
                Response::Cloned { location } => {
                    let mut manifest = manifest;
                    manifest.dependencies.insert(name.clone(), Dependency::declare(location, branch));
                    (
                        Workflow { stage: Stage::VendSave { name } },
                        Step::Perform(Request::SaveManifest { manifest }),
                    )
                },
                Response::ProviderFailed { error } => ended(Error::CloneFailed { reason: error }),
                _ => ended(Error::UnexpectedResponse),
            },
            Stage::VendSave { name } => match response {
                Response::Done => concluded(Report::Vended { name }),
                Response::IoFailed => ended(Error::IOError { during: Operation::WriteManifest }),
                _ => ended(Error::UnexpectedResponse),
            },
            Stage::CleanLoad => match response {
                Response::Loaded { .. } => (
                    Workflow { stage: Stage::CleanRemove },
                    Step::Perform(Request::RemoveRoot),
                ),
                other => ended(load_error(&other)),
            },
            Stage::CleanRemove => match response {
                Response::Done => concluded(Report::Cleaned),
                Response::IoFailed => ended(Error::IOError { during: Operation::RemoveRoot }),
                _ => ended(Error::UnexpectedResponse),
            },
            Stage::UpdateLoad => match response {
                Response::Loaded { manifest } => {
                    let entries = manifest.dependencies.into_entries();
                    assert(views(entries@).skip(0) =~= views(entries@));
                    let next = update_from(entries, 0, Vec::new());
                    assert(outcome_views(Seq::<UpdateOutcome>::empty()) =~= Seq::empty());
                    next
                },
                other => ended(load_error(&other)),
            },
            Stage::UpdateFetch { entries, position, outcomes } => {
                if position >= entries.len() {
                    return ended(Error::UnexpectedResponse);
                }
                match response {
                    Response::Done => match &entries[position].dependency {
                        Dependency::Tracking { .. } => {
                            let outcome = UpdateOutcome::Updated {
                                name: entries[position].name.clone(),
                                branch: None,
                            };
                            update_after(entries, position, outcomes, outcome)
                        },
                        Dependency::Pinned { .. } => {
                            let request = Request::CheckoutHead {
                                name: entries[position].name.clone(),
                            };
                            (
                                Workflow {
                                    stage: Stage::UpdateCheckout { entries, position, outcomes },
                                },
                                Step::Perform(request),
                            )
                        },
                    },
                    Response::ProviderFailed { error } => {
                        let outcome = UpdateOutcome::Failed {
                            name: entries[position].name.clone(),
                            reason: error,
                        };
                        update_after(entries, position, outcomes, outcome)
                    },
                    _ => ended(Error::UnexpectedResponse),
                }
            },
            Stage::UpdateCheckout { entries, position, outcomes } => {
                if position >= entries.len() {
                    return ended(Error::UnexpectedResponse);
                }
                let branch = match entries[position].dependency.branch() {
                    Some(branch) => Some(branch.clone()),
                    None => {
                        return ended(Error::UnexpectedResponse);
                    },
                };
                match response {
                    Response::Done => {
                        let outcome = UpdateOutcome::Updated {
                            name: entries[position].name.clone(),
                            branch,
                        };
                        update_after(entries, position, outcomes, outcome)
                    },
                    Response::ProviderFailed { error } => {
                        let outcome = UpdateOutcome::Failed {
                            name: entries[position].name.clone(),
                            reason: error,
                        };
                        update_after(entries, position, outcomes, outcome)
                    },
                    _ => ended(Error::UnexpectedResponse),
                }
            },
            Stage::ListLoad => match response {
                Response::Loaded { manifest } => {
                    let entries = manifest.dependencies.into_entries();
                    assert(views(entries@).skip(0) =~= views(entries@));
                    let next = list_from(entries, 0, Vec::new());
                    assert(row_views(Seq::<Row>::empty()) =~= Seq::empty());
                    next
                },
                other => ended(load_error(&other)),
            },
            Stage::ListHead { entries, position, rows } => {
                if position >= entries.len() {
                    return ended(Error::UnexpectedResponse);
                }
                match response {
                    Response::Head { shorthand, commit } => {
                        let branch = match shorthand {
                            Some(name) => name,
                            None => DETACHED.to_owned(),
                        };
                        let row = Row::Head { name: entries[position].name.clone(), branch, commit };
                        list_after(entries, position, rows, row)
                    },
                    Response::ProviderFailed { error } => {
                        let row = Row::Failed { name: entries[position].name.clone(), reason: error };
                        list_after(entries, position, rows, row)
                    },
                    _ => ended(Error::UnexpectedResponse),
                }
            },
            Stage::Finished => ended(Error::UnexpectedResponse),
        }
    }
}

} // verus!
