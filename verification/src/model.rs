//! What a whole run of a workflow comes to.
//!
//! [`crate::engine::react`] says what a workflow does with one response.
//! Here the world outside is a function from requests to responses, [`run`]
//! drives a workflow against it to the end, and [`outcome`] says directly
//! what each command comes to. [`theorem_run`] shows that the two agree.
//!
//! A function is enough to stand for the world within one run, since no run
//! asks the same thing twice
//! ([`crate::laws::law_requests_distinct`]). Between two runs the world
//! changes: what one run wrote is what the next one loads.

use crate::engine::{begin, fetch_of, list_stage, listed_branch, load_failure,
    react, update_stage, vended, CommandView, StepView, WorkflowView};
use crate::provider::{answers, ProviderError, RequestView, ResponseView};
use crate::report::{Error, Operation, ReportView, RowView, UpdateOutcomeView};
use crate::text::final_segment;
use crate::types::{initial_manifest, listing_of, DependencyView, EntryView};
use vstd::prelude::*;

verus! {

/// The world outside, as far as a workflow meets it: an answer to each
/// request.
pub type World = spec_fn(RequestView) -> ResponseView;

/// The world answers each request with a response of a kind that answers
/// it.
pub open spec fn honest(world: World) -> bool {
    forall|request: RequestView| answers(request, #[trigger] world(request))
}

/// A run of a workflow: how it ended, and the requests that it issued, in
/// their order.
pub struct Run {
    pub result: Result<ReportView, Error>,
    pub trace: Seq<RequestView>,
}

/// An upper bound on the requests that a workflow in `state` still issues,
/// the one under way included.
pub open spec fn rank(state: WorkflowView, request: RequestView, world: World) -> nat {
    match state {
        WorkflowView::InitProbe => 3,
        WorkflowView::InitCreate => 2,
        WorkflowView::InitSave => 1,
        WorkflowView::VendLoad { .. } => 3,
        WorkflowView::VendClone { .. } => 2,
        WorkflowView::VendSave { .. } => 1,
        WorkflowView::CleanLoad => 2,
        WorkflowView::CleanRemove => 1,
        WorkflowView::UpdateLoad | WorkflowView::ListLoad => match world(request) {
            ResponseView::Loaded { manifest } => 2 * listing_of(manifest.dependencies).len() + 1,
            _ => 1,
        },
        WorkflowView::UpdateFetch { rest, .. } => 2 * rest.len() + 2,
        WorkflowView::UpdateCheckout { rest, .. } => 2 * rest.len() + 1,
        WorkflowView::ListHead { rest, .. } => 2 * rest.len() + 2,
        WorkflowView::Finished => 0,
    }
}

/// Drives the workflow in `state`, whose `request` is under way, against
/// `world` until it ends.
pub open spec fn run(state: WorkflowView, request: RequestView, world: World) -> Run
    decreases rank(state, request, world),
{
    let (after, step) = react(state, world(request));
    match step {
        StepView::Finish(result) => Run { result, trace: seq![request] },
        StepView::Perform(following) => {
            let rest = run(after, following, world);
            Run { result: rest.result, trace: seq![request] + rest.trace }
        },
    }
}

/// How a request to the file system ended that, done, completes the
/// workflow with `report`.
pub open spec fn completed(response: ResponseView, during: Operation, report: ReportView) -> Result<
    ReportView,
    Error,
> {
    match response {
        ResponseView::Done => Ok(report),
        ResponseView::IoFailed => Err(Error::IOError { during }),
        _ => Err(Error::UnexpectedResponse),
    }
}

/// What `init` comes to: nothing is touched where the managed root exists;
/// otherwise the root is created and the empty manifest written.
pub open spec fn init_run(world: World) -> Run {
    let save = RequestView::SaveManifest { manifest: initial_manifest() };
    match world(RequestView::ProbeRoot) {
        ResponseView::Exists { found } => if found {
            Run { result: Ok(ReportView::Initialized), trace: seq![RequestView::ProbeRoot] }
        } else {
            match world(RequestView::CreateRoot) {
                ResponseView::Done => Run {
                    result: completed(
                        world(save),
                        Operation::WriteManifest,
                        ReportView::Initialized,
                    ),
                    trace: seq![RequestView::ProbeRoot, RequestView::CreateRoot, save],
                },
                ResponseView::IoFailed => Run {
                    result: Err(Error::IOError { during: Operation::CreateRoot }),
                    trace: seq![RequestView::ProbeRoot, RequestView::CreateRoot],
                },
                _ => Run {
                    result: Err(Error::UnexpectedResponse),
                    trace: seq![RequestView::ProbeRoot, RequestView::CreateRoot],
                },
            }
        },
        _ => Run { result: Err(Error::UnexpectedResponse), trace: seq![RequestView::ProbeRoot] },
    }
}

/// What `vend` comes to: the manifest is loaded, the locator cloned into the
/// directory named by its final segment, and only after the clone succeeded
/// the manifest is written with the new entry.
pub open spec fn vend_run(repo: Seq<char>, branch: Option<Seq<char>>, world: World) -> Run {
    let name = final_segment(repo);
    let clone = RequestView::Clone { locator: repo, name, branch };
    match world(RequestView::LoadManifest) {
        ResponseView::Loaded { manifest } => match world(clone) {
            ResponseView::Cloned { location } => {
                let save = RequestView::SaveManifest {
                    manifest: vended(manifest, name, location, branch),
                };
                Run {
                    result: completed(
                        world(save),
                        Operation::WriteManifest,
                        ReportView::Vended { name },
                    ),
                    trace: seq![RequestView::LoadManifest, clone, save],
                }
            },
            ResponseView::ProviderFailed { error } => Run {
                result: Err(Error::CloneFailed { reason: error }),
                trace: seq![RequestView::LoadManifest, clone],
            },
            _ => Run {
                result: Err(Error::UnexpectedResponse),
                trace: seq![RequestView::LoadManifest, clone],
            },
        },
        other => Run { result: Err(load_failure(other)), trace: seq![RequestView::LoadManifest] },
    }
}

/// What `clean` comes to: the managed root is removed if the manifest
/// loads, and nothing is touched otherwise.
pub open spec fn clean_run(world: World) -> Run {
    match world(RequestView::LoadManifest) {
        ResponseView::Loaded { .. } => Run {
            result: completed(
                world(RequestView::RemoveRoot),
                Operation::RemoveRoot,
                ReportView::Cleaned,
            ),
            trace: seq![RequestView::LoadManifest, RequestView::RemoveRoot],
        },
        other => Run { result: Err(load_failure(other)), trace: seq![RequestView::LoadManifest] },
    }
}

/// What `update` does for one dependency in an honest world: a fetch, for a
/// pinned dependency followed by a checkout, and a failure of either is the
/// outcome. Only requests that name the dependency are looked at.
pub open spec fn update_outcome(entry: EntryView, world: World) -> UpdateOutcomeView {
    match world(fetch_of(entry)) {
        ResponseView::ProviderFailed { error } => UpdateOutcomeView::Failed {
            name: entry.name,
            reason: error,
        },
        _ => match entry.dependency {
            DependencyView::Tracking { .. } => UpdateOutcomeView::Updated {
                name: entry.name,
                branch: None,
            },
            DependencyView::Pinned { branch, .. } => match world(
                RequestView::CheckoutHead { name: entry.name },
            ) {
                ResponseView::ProviderFailed { error } => UpdateOutcomeView::Failed {
                    name: entry.name,
                    reason: error,
                },
                _ => UpdateOutcomeView::Updated { name: entry.name, branch: Some(branch) },
            },
        },
    }
}

/// The requests that `update` issues for one dependency in an honest world.
pub open spec fn update_requests(entry: EntryView, world: World) -> Seq<RequestView> {
    if entry.dependency is Pinned && world(fetch_of(entry)) is Done {
        seq![fetch_of(entry), RequestView::CheckoutHead { name: entry.name }]
    } else {
        seq![fetch_of(entry)]
    }
}

/// The outcomes of `update` over `entries`: one for each, in their order.
pub open spec fn update_outcomes(entries: Seq<EntryView>, world: World) -> Seq<UpdateOutcomeView> {
    Seq::new(entries.len(), |i: int| update_outcome(entries[i], world))
}

/// The requests that `update` issues over `entries`, in their order.
pub open spec fn update_trace(entries: Seq<EntryView>, world: World) -> Seq<RequestView>
    decreases entries.len(),
{
    if entries.len() == 0 {
        Seq::empty()
    } else {
        update_requests(entries.first(), world) + update_trace(entries.drop_first(), world)
    }
}

/// What `update` comes to in an honest world.
pub open spec fn update_run(world: World) -> Run {
    match world(RequestView::LoadManifest) {
        ResponseView::Loaded { manifest } => {
            let entries = listing_of(manifest.dependencies);
            Run {
                result: Ok(ReportView::Updated { outcomes: update_outcomes(entries, world) }),
                trace: seq![RequestView::LoadManifest] + update_trace(entries, world),
            }
        },
        other => Run { result: Err(load_failure(other)), trace: seq![RequestView::LoadManifest] },
    }
}

/// The row that `list` shows for one dependency in an honest world.
pub open spec fn list_row(entry: EntryView, world: World) -> RowView {
    match world(RequestView::CurrentHead { name: entry.name }) {
        ResponseView::Head { shorthand, commit } => RowView::Head {
            name: entry.name,
            branch: listed_branch(shorthand),
            commit,
        },
        ResponseView::ProviderFailed { error } => RowView::Failed { name: entry.name, reason: error },
        _ => RowView::Failed { name: entry.name, reason: ProviderError::WorkspaceMissing },
    }
}

/// The rows of `list` over `entries`: one for each, in their order.
pub open spec fn list_rows(entries: Seq<EntryView>, world: World) -> Seq<RowView> {
    Seq::new(entries.len(), |i: int| list_row(entries[i], world))
}

/// The requests that `list` issues over `entries`: one for each, in their
/// order.
pub open spec fn list_trace(entries: Seq<EntryView>) -> Seq<RequestView> {
    Seq::new(entries.len(), |i: int| RequestView::CurrentHead { name: entries[i].name })
}

/// What `list` comes to in an honest world.
pub open spec fn list_run(world: World) -> Run {
    match world(RequestView::LoadManifest) {
        ResponseView::Loaded { manifest } => {
            let entries = listing_of(manifest.dependencies);
            Run {
                result: Ok(ReportView::Listed { rows: list_rows(entries, world) }),
                trace: seq![RequestView::LoadManifest] + list_trace(entries),
            }
        },
        other => Run { result: Err(load_failure(other)), trace: seq![RequestView::LoadManifest] },
    }
}

/// What a command comes to.
pub open spec fn outcome(command: CommandView, world: World) -> Run {
    match command {
        CommandView::Init => init_run(world),
        CommandView::Vend { repo, branch } => vend_run(repo, branch, world),
        CommandView::Clean => clean_run(world),
        CommandView::Update => update_run(world),
        CommandView::List => list_run(world),
    }
}

/// `update` from a fetch under way comes to the outcomes gathered so far
/// and those of the dependencies still to go through.
pub proof fn lemma_update_from_fetch(
    current: EntryView,
    rest: Seq<EntryView>,
    outcomes: Seq<UpdateOutcomeView>,
    world: World,
)
    requires
        honest(world),
    ensures
        run(WorkflowView::UpdateFetch { current, rest, outcomes }, fetch_of(current), world) == (Run {
            result: Ok(
                ReportView::Updated {
                    outcomes: outcomes + update_outcomes(seq![current] + rest, world),
                },
            ),
            trace: update_trace(seq![current] + rest, world),
        }),
    decreases rest.len(),
{
    let all = seq![current] + rest;
    let state = WorkflowView::UpdateFetch { current, rest, outcomes };
    let fetch = fetch_of(current);
    let checkout = RequestView::CheckoutHead { name: current.name };
    assert(all.first() == current);
    assert(all.drop_first() =~= rest);
    assert(answers(fetch, world(fetch)));
    assert(answers(checkout, world(checkout)));
    let gathered = outcomes.push(update_outcome(current, world));
    // What is left once `current` has its outcome.
    let (after, step) = update_stage(rest, gathered);
    let tail = match step {
        StepView::Finish(result) => Run { result, trace: Seq::empty() },
        StepView::Perform(following) => run(after, following, world),
    };
    assert(tail == (Run {
        result: Ok(ReportView::Updated { outcomes: gathered + update_outcomes(rest, world) }),
        trace: update_trace(rest, world),
    })) by {
        if rest.len() == 0 {
            assert(gathered + update_outcomes(rest, world) =~= gathered);
        } else {
            lemma_update_from_fetch(rest.first(), rest.drop_first(), gathered, world);
            assert(seq![rest.first()] + rest.drop_first() =~= rest);
        }
    }
    assert(gathered + update_outcomes(rest, world) =~= outcomes + update_outcomes(all, world));
    let direct = current.dependency is Tracking || world(fetch) is ProviderFailed;
    if direct {
        assert(react(state, world(fetch)) == update_stage(rest, gathered));
        assert(update_requests(current, world) =~= seq![fetch]);
        assert(run(state, fetch, world).trace =~= update_trace(all, world));
    } else {
        let middle = WorkflowView::UpdateCheckout { current, rest, outcomes };
        assert(react(state, world(fetch)) == (middle, StepView::Perform(checkout)));
        assert(react(middle, world(checkout)) == update_stage(rest, gathered));
        assert(update_requests(current, world) =~= seq![fetch, checkout]);
        assert(run(middle, checkout, world).trace =~= seq![checkout] + tail.trace);
        assert(run(state, fetch, world).trace =~= update_trace(all, world));
    }
}

/// `list` from a request under way comes to the rows gathered so far and
/// those of the dependencies still to go through.
pub proof fn lemma_list_from_head(
    current: EntryView,
    rest: Seq<EntryView>,
    rows: Seq<RowView>,
    world: World,
)
    requires
        honest(world),
    ensures
        run(
            WorkflowView::ListHead { current, rest, rows },
            RequestView::CurrentHead { name: current.name },
            world,
        ) == (Run {
            result: Ok(ReportView::Listed { rows: rows + list_rows(seq![current] + rest, world) }),
            trace: list_trace(seq![current] + rest),
        }),
    decreases rest.len(),
{
    let all = seq![current] + rest;
    let state = WorkflowView::ListHead { current, rest, rows };
    let ask = RequestView::CurrentHead { name: current.name };
    assert(answers(ask, world(ask)));
    let gathered = rows.push(list_row(current, world));
    let (after, step) = list_stage(rest, gathered);
    let tail = match step {
        StepView::Finish(result) => Run { result, trace: Seq::empty() },
        StepView::Perform(following) => run(after, following, world),
    };
    assert(tail == (Run {
        result: Ok(ReportView::Listed { rows: gathered + list_rows(rest, world) }),
        trace: list_trace(rest),
    })) by {
        if rest.len() == 0 {
            assert(gathered + list_rows(rest, world) =~= gathered);
            assert(list_trace(rest) =~= Seq::empty());
        } else {
            lemma_list_from_head(rest.first(), rest.drop_first(), gathered, world);
            assert(seq![rest.first()] + rest.drop_first() =~= rest);
        }
    }
    assert(gathered + list_rows(rest, world) =~= rows + list_rows(all, world));
    assert(react(state, world(ask)) == list_stage(rest, gathered));
    assert(seq![ask] + list_trace(rest) =~= list_trace(all));
    assert(run(state, ask, world).trace =~= list_trace(all));
}

/// The run of the workflow that `command` starts.
pub open spec fn execution(command: CommandView, world: World) -> Run {
    run(begin(command).0, begin(command).1, world)
}

/// Driving the workflow of a command against the world comes to what
/// [`outcome`] says of the command. For `update` and `list` this is shown of
/// an honest world.
pub proof fn theorem_run(command: CommandView, world: World)
    requires
        honest(world) || !(command is Update || command is List),
    ensures
        execution(command, world) == outcome(command, world),
{
    let load = RequestView::LoadManifest;
    match command {
        CommandView::Init => {
            let probe = RequestView::ProbeRoot;
            reveal_with_fuel(run, 4);
            assert(run(WorkflowView::InitProbe, probe, world).trace =~= init_run(world).trace);
        },
        CommandView::Vend { repo, branch } => {
            reveal_with_fuel(run, 4);
            let state = WorkflowView::VendLoad { locator: repo, branch };
            assert(run(state, load, world).trace =~= vend_run(repo, branch, world).trace);
        },
        CommandView::Clean => {
            reveal_with_fuel(run, 3);
            assert(run(WorkflowView::CleanLoad, load, world).trace =~= clean_run(world).trace);
        },
        CommandView::Update => {
            assert(answers(load, world(load)));
            if let ResponseView::Loaded { manifest } = world(load) {
                let entries = listing_of(manifest.dependencies);
                if entries.len() == 0 {
                    assert(update_outcomes(entries, world) =~= Seq::empty());
                    assert(seq![load] + update_trace(entries, world) =~= seq![load]);
                } else {
                    lemma_update_from_fetch(
                        entries.first(),
                        entries.drop_first(),
                        Seq::empty(),
                        world,
                    );
                    assert(seq![entries.first()] + entries.drop_first() =~= entries);
                    assert(Seq::<UpdateOutcomeView>::empty() + update_outcomes(entries, world)
                        =~= update_outcomes(entries, world));
                }
            }
        },
        CommandView::List => {
            assert(answers(load, world(load)));
            if let ResponseView::Loaded { manifest } = world(load) {
                let entries = listing_of(manifest.dependencies);
                if entries.len() == 0 {
                    assert(list_rows(entries, world) =~= Seq::empty());
                    assert(seq![load] + list_trace(entries) =~= seq![load]);
                } else {
                    lemma_list_from_head(entries.first(), entries.drop_first(), Seq::empty(), world);
                    assert(seq![entries.first()] + entries.drop_first() =~= entries);
                    assert(Seq::<RowView>::empty() + list_rows(entries, world) =~= list_rows(
                        entries,
                        world,
                    ));
                }
            }
        },
    }
}

} // verus!
