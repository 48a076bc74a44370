//! What holds of the workflows, whatever the manifest and the world.
//!
//! Each law speaks of [`crate::model::execution`]: of what the state machine
//! of [`crate::engine`] does when it is driven to its end.

use crate::engine::{fetch_of, vended, CommandView};
use crate::model::{execution, honest, list_row, list_rows, theorem_run, update_outcome,
    update_outcomes, update_requests, update_trace, World};
use crate::provider::{answers, ProviderError, RequestView, ResponseView};
use crate::report::{Error, ReportView, RowView, UpdateOutcomeView};
use crate::text::{final_segment, precedes};
use crate::types::{declared, lemma_listing, listing_of, ConfigView, DependencyView, EntryView};
use vstd::prelude::*;

verus! {

/// The provider does all that `update` asks of it for `entry`.
pub open spec fn serves(world: World, entry: EntryView) -> bool {
    world(fetch_of(entry)) is Done && world(RequestView::CheckoutHead { name: entry.name }) is Done
}

/// The provider fails with `reason` on `entry`: at the fetch, or, for a
/// pinned dependency, at the checkout that follows a fetch.
pub open spec fn fails(world: World, entry: EntryView, reason: ProviderError) -> bool {
    ||| world(fetch_of(entry)) == (ResponseView::ProviderFailed { error: reason })
    ||| {
        &&& entry.dependency is Pinned
        &&& world(fetch_of(entry)) is Done
        &&& world(RequestView::CheckoutHead { name: entry.name }) == (
        ResponseView::ProviderFailed { error: reason })
    }
}

/// Whether a request leaves the manifest and the workspace root as they
/// are.
pub open spec fn reads_only(request: RequestView) -> bool {
    request is LoadManifest || request is Fetch || request is CheckoutHead || request is CurrentHead
}

/// `vend` without a branch declares a tracking dependency, and with a
/// branch a dependency pinned to exactly that branch. It is declared under
/// the final segment of the locator, with the location that the clone
/// recorded, and every entry of another name stays as it was.
pub proof fn law_vend_declares(
    manifest: ConfigView,
    repo: Seq<char>,
    branch: Option<Seq<char>>,
    location: Seq<char>,
    world: World,
)
    requires
        world(RequestView::LoadManifest) == (ResponseView::Loaded { manifest }),
        world(RequestView::Clone { locator: repo, name: final_segment(repo), branch }) == (
        ResponseView::Cloned { location }),
    ensures
        ({
            let run = execution(CommandView::Vend { repo, branch }, world);
            let name = final_segment(repo);
            &&& run.trace.len() == 3
            &&& run.trace[2] matches RequestView::SaveManifest { manifest: written }
            &&& written == vended(manifest, name, location, branch)
            &&& written.version == manifest.version
            &&& written.dependencies.contains_key(name)
            &&& branch is None ==> written.dependencies[name] == (DependencyView::Tracking {
                source: location,
            })
            &&& branch matches Some(pin) ==> written.dependencies[name] == (DependencyView::Pinned {
                source: location,
                branch: pin,
            })
            &&& forall|other: Seq<char>|
                other != name ==> (written.dependencies.contains_key(other)
                    <==> manifest.dependencies.contains_key(other))
                    && written.dependencies[other] == manifest.dependencies[other]
            &&& run.result is Ok <==> world(run.trace[2]) is Done
            &&& run.result is Ok ==> run.result == Ok::<ReportView, Error>(
                ReportView::Vended { name },
            )
        }),
{
    theorem_run(CommandView::Vend { repo, branch }, world);
}

/// Declaring a dependency under a name that is taken replaces the entry:
/// the manifest is the one that the second declaration alone would give,
/// it holds as many entries as after the first, and its listing holds the
/// name once.
pub proof fn law_vend_overwrites(
    manifest: ConfigView,
    name: Seq<char>,
    first: Seq<char>,
    first_branch: Option<Seq<char>>,
    second: Seq<char>,
    second_branch: Option<Seq<char>>,
)
    requires
        manifest.dependencies.dom().finite(),
    ensures
        ({
            let once = vended(manifest, name, first, first_branch);
            let twice = vended(once, name, second, second_branch);
            let listed = listing_of(twice.dependencies);
            &&& twice == vended(manifest, name, second, second_branch)
            &&& twice.dependencies.len() == once.dependencies.len()
            &&& twice.dependencies[name] == declared(second, second_branch)
            &&& exists|i: int|
                0 <= i < listed.len() && (#[trigger] listed[i]).name == name && listed[i].dependency
                    == declared(second, second_branch)
            &&& forall|i: int, j: int|
                0 <= i < listed.len() && 0 <= j < listed.len() && (#[trigger] listed[i]).name == name
                    && (#[trigger] listed[j]).name == name ==> i == j
        }),
{
    let once = vended(manifest, name, first, first_branch);
    let twice = vended(once, name, second, second_branch);
    assert(twice.dependencies =~= manifest.dependencies.insert(
        name,
        declared(second, second_branch),
    ));
    assert(twice.dependencies.dom() =~= once.dependencies.dom());
    lemma_listing(twice.dependencies);
    let listed = listing_of(twice.dependencies);
    assert(twice.dependencies.contains_key(name));
    let at = choose|i: int| 0 <= i < listed.len() && #[trigger] listed[i].name == name;
    assert(listed[at].name == name);
    assert forall|i: int, j: int|
        0 <= i < listed.len() && 0 <= j < listed.len() && (#[trigger] listed[i]).name == name && (
        #[trigger] listed[j]).name == name implies i == j by {
        if i < j {
            assert(listed[i].name != listed[j].name);
        } else if j < i {
            assert(listed[j].name != listed[i].name);
        }
    }
}

/// `list` shows one row for each declared dependency, in ascending order of
/// the names, and each row says what the provider reports of that
/// dependency: its head, or why it could not tell. A failure in one row
/// leaves the others as they are.
pub proof fn law_list_rows(manifest: ConfigView, world: World)
    requires
        honest(world),
        manifest.dependencies.dom().finite(),
        world(RequestView::LoadManifest) == (ResponseView::Loaded { manifest }),
    ensures
        ({
            let listed = listing_of(manifest.dependencies);
            &&& execution(CommandView::List, world).result matches Ok(ReportView::Listed { rows })
            &&& rows.len() == manifest.dependencies.len()
            &&& rows.len() == listed.len()
            &&& forall|i: int|
                0 <= i < rows.len() ==> (#[trigger] rows[i]).name() == listed[i].name
                    && manifest.dependencies.contains_key(rows[i].name()) && rows[i] == list_row(
                    listed[i],
                    world,
                )
            &&& forall|i: int, j: int|
                0 <= i < j < rows.len() ==> precedes(
                    (#[trigger] rows[i]).name(),
                    (#[trigger] rows[j]).name(),
                )
            &&& forall|name: Seq<char>| #[trigger]
                manifest.dependencies.contains_key(name) ==> exists|i: int|
                    0 <= i < rows.len() && (#[trigger] rows[i]).name() == name
        }),
{
    theorem_run(CommandView::List, world);
    let listed = listing_of(manifest.dependencies);
    lemma_listing(manifest.dependencies);
    let rows = list_rows(listed, world);
    assert forall|i: int| 0 <= i < rows.len() implies (#[trigger] rows[i]).name() == listed[i].name
        && manifest.dependencies.contains_key(rows[i].name()) && rows[i] == list_row(
        listed[i],
        world,
    ) by {
        assert(manifest.dependencies.contains_key(listed[i].name));
    }
    assert forall|i: int, j: int| 0 <= i < j < rows.len() implies precedes(
        (#[trigger] rows[i]).name(),
        (#[trigger] rows[j]).name(),
    ) by {
        assert(precedes(listed[i].name, listed[j].name));
    }
    assert forall|name: Seq<char>| #[trigger]
        manifest.dependencies.contains_key(name) implies exists|i: int|
        0 <= i < rows.len() && (#[trigger] rows[i]).name() == name by {
        let i = choose|i: int| 0 <= i < listed.len() && #[trigger] listed[i].name == name;
        assert(rows[i].name() == name);
    }
}

/// Where the provider reports for the dependency `name`, declared on
/// `branch`, a head on that branch, `row` shows the branch and the commit of
/// that head.
pub open spec fn shows_declared(
    row: RowView,
    name: Seq<char>,
    branch: Option<Seq<char>>,
    world: World,
) -> bool {
    match (branch, world(RequestView::CurrentHead { name })) {
        (Some(pin), ResponseView::Head { shorthand: Some(reported), commit }) => reported == pin
            ==> row == (RowView::Head { name, branch: pin, commit }),
        _ => true,
    }
}

/// After two locators with different final segments were vended, `list`
/// shows a row of its own for each of them. Where the provider reports for a
/// pinned dependency the branch that it was cloned on, the row shows the
/// branch that was declared.
pub proof fn law_vend_then_list(
    manifest: ConfigView,
    first: Seq<char>,
    first_branch: Option<Seq<char>>,
    first_location: Seq<char>,
    second: Seq<char>,
    second_branch: Option<Seq<char>>,
    second_location: Seq<char>,
    world: World,
)
    requires
        honest(world),
        manifest.dependencies.dom().finite(),
        final_segment(first) != final_segment(second),
        world(RequestView::LoadManifest) == (ResponseView::Loaded {
            manifest: vended(
                vended(manifest, final_segment(first), first_location, first_branch),
                final_segment(second),
                second_location,
                second_branch,
            ),
        }),
    ensures
        ({
            let a = final_segment(first);
            let b = final_segment(second);
            &&& execution(CommandView::List, world).result matches Ok(ReportView::Listed { rows })
            &&& exists|i: int, j: int|
                0 <= i < rows.len() && 0 <= j < rows.len() && i != j && (#[trigger] rows[i]).name()
                    == a && (#[trigger] rows[j]).name() == b
            &&& forall|i: int, j: int|
                0 <= i < rows.len() && 0 <= j < rows.len() && (#[trigger] rows[i]).name() == (
                #[trigger] rows[j]).name() ==> i == j
            &&& forall|i: int|
                0 <= i < rows.len() && (#[trigger] rows[i]).name() == a ==> shows_declared(
                    rows[i],
                    a,
                    first_branch,
                    world,
                )
            &&& forall|i: int|
                0 <= i < rows.len() && (#[trigger] rows[i]).name() == b ==> shows_declared(
                    rows[i],
                    b,
                    second_branch,
                    world,
                )
        }),
{
    theorem_run(CommandView::List, world);
    let a = final_segment(first);
    let b = final_segment(second);
    let once = vended(manifest, a, first_location, first_branch);
    let twice = vended(once, b, second_location, second_branch);
    assert(twice.dependencies.dom() =~= manifest.dependencies.dom().insert(a).insert(b));
    law_list_rows(twice, world);
    lemma_listing(twice.dependencies);
    let listed = listing_of(twice.dependencies);
    let rows = list_rows(listed, world);
    assert(twice.dependencies.contains_key(a));
    assert(twice.dependencies.contains_key(b));
    let i = choose|i: int| 0 <= i < rows.len() && (#[trigger] rows[i]).name() == a;
    let j = choose|j: int| 0 <= j < rows.len() && (#[trigger] rows[j]).name() == b;
    assert(rows[i].name() == a && rows[j].name() == b);
    assert forall|i: int, j: int|
        0 <= i < rows.len() && 0 <= j < rows.len() && (#[trigger] rows[i]).name() == (
        #[trigger] rows[j]).name() implies i == j by {
        if i < j {
            assert(listed[i].name != listed[j].name);
        } else if j < i {
            assert(listed[j].name != listed[i].name);
        }
    }
}

/// `update` gives one outcome for each declared dependency, in ascending
/// order of the names, and the outcome of a dependency rests on nothing but
/// what the provider answered to the requests that name it.
pub proof fn law_update_outcomes(manifest: ConfigView, world: World)
    requires
        honest(world),
        manifest.dependencies.dom().finite(),
        world(RequestView::LoadManifest) == (ResponseView::Loaded { manifest }),
    ensures
        ({
            let listed = listing_of(manifest.dependencies);
            &&& execution(CommandView::Update, world).result matches Ok(
                ReportView::Updated { outcomes },
            )
            &&& outcomes.len() == manifest.dependencies.len()
            &&& outcomes.len() == listed.len()
            &&& forall|i: int|
                0 <= i < outcomes.len() ==> (#[trigger] outcomes[i]).name() == listed[i].name
                    && outcomes[i] == update_outcome(listed[i], world)
        }),
{
    theorem_run(CommandView::Update, world);
    lemma_listing(manifest.dependencies);
}

/// What `update` does for a dependency is the same in two worlds that
/// answer alike the requests that name it.
pub proof fn law_update_independent(entry: EntryView, one: World, other: World)
    requires
        one(fetch_of(entry)) == other(fetch_of(entry)),
        one(RequestView::CheckoutHead { name: entry.name }) == other(
            RequestView::CheckoutHead { name: entry.name },
        ),
    ensures
        update_outcome(entry, one) == update_outcome(entry, other),
        update_requests(entry, one) == update_requests(entry, other),
{
}

/// Where the provider fails on one dependency and serves all others,
/// `update` still goes through all of them: it reports the failure for the
/// one, with its reason, and every other as updated, a pinned one on its
/// branch.
pub proof fn law_update_isolates_failure(
    manifest: ConfigView,
    world: World,
    failing: int,
    reason: ProviderError,
)
    requires
        honest(world),
        manifest.dependencies.dom().finite(),
        world(RequestView::LoadManifest) == (ResponseView::Loaded { manifest }),
        0 <= failing < listing_of(manifest.dependencies).len(),
        fails(world, listing_of(manifest.dependencies)[failing], reason),
        forall|j: int|
            0 <= j < listing_of(manifest.dependencies).len() && j != failing ==> serves(
                world,
                #[trigger] listing_of(manifest.dependencies)[j],
            ),
    ensures
        ({
            let listed = listing_of(manifest.dependencies);
            &&& execution(CommandView::Update, world).result matches Ok(
                ReportView::Updated { outcomes },
            )
            &&& outcomes.len() == manifest.dependencies.len()
            &&& outcomes[failing] == (UpdateOutcomeView::Failed {
                name: listed[failing].name,
                reason,
            })
            &&& forall|j: int|
                0 <= j < outcomes.len() && j != failing ==> #[trigger] outcomes[j] == (
                UpdateOutcomeView::Updated {
                    name: listed[j].name,
                    branch: listed[j].dependency.branch(),
                })
        }),
{
    theorem_run(CommandView::Update, world);
    let listed = listing_of(manifest.dependencies);
    lemma_listing(manifest.dependencies);
    let outcomes = update_outcomes(listed, world);
    assert forall|j: int| 0 <= j < outcomes.len() && j != failing implies #[trigger] outcomes[j] == (
    UpdateOutcomeView::Updated { name: listed[j].name, branch: listed[j].dependency.branch() }) by {
        assert(serves(world, listed[j]));
    }
}

/// The requests that `update` issues over `entries` only fetch and check
/// out.
pub proof fn lemma_update_trace_reads_only(entries: Seq<EntryView>, world: World)
    ensures
        forall|i: int|
            0 <= i < update_trace(entries, world).len() ==> reads_only(
                #[trigger] update_trace(entries, world)[i],
            ),
    decreases entries.len(),
{
    if entries.len() > 0 {
        lemma_update_trace_reads_only(entries.drop_first(), world);
        let head = update_requests(entries.first(), world);
        let tail = update_trace(entries.drop_first(), world);
        assert forall|i: int| 0 <= i < (head + tail).len() implies reads_only(
            #[trigger] (head + tail)[i],
        ) by {
            if i >= head.len() {
                assert((head + tail)[i] == tail[i - head.len()]);
            }
        }
    }
}

/// Neither `update` nor `list` changes the manifest or the workspace root:
/// besides loading the manifest they only ask the provider to fetch, to
/// check out and to report heads.
pub proof fn law_update_and_list_read_only(world: World)
    requires
        honest(world),
    ensures
        forall|i: int|
            0 <= i < execution(CommandView::Update, world).trace.len() ==> reads_only(
                #[trigger] execution(CommandView::Update, world).trace[i],
            ),
        forall|i: int|
            0 <= i < execution(CommandView::List, world).trace.len() ==> reads_only(
                #[trigger] execution(CommandView::List, world).trace[i],
            ),
{
    theorem_run(CommandView::Update, world);
    theorem_run(CommandView::List, world);
    if let ResponseView::Loaded { manifest } = world(RequestView::LoadManifest) {
        lemma_update_trace_reads_only(listing_of(manifest.dependencies), world);
    }
}

/// A clone that fails ends `vend` with `CloneFailed` and its reason, and
/// the manifest is never written.
pub proof fn law_vend_clone_failure(
    manifest: ConfigView,
    repo: Seq<char>,
    branch: Option<Seq<char>>,
    reason: ProviderError,
    world: World,
)
    requires
        world(RequestView::LoadManifest) == (ResponseView::Loaded { manifest }),
        world(RequestView::Clone { locator: repo, name: final_segment(repo), branch }) == (
        ResponseView::ProviderFailed { error: reason }),
    ensures
        ({
            let run = execution(CommandView::Vend { repo, branch }, world);
            &&& run.result == Err::<ReportView, Error>(Error::CloneFailed { reason })
            &&& forall|i: int| 0 <= i < run.trace.len() ==> !(#[trigger] run.trace[i] is SaveManifest)
        }),
{
    theorem_run(CommandView::Vend { repo, branch }, world);
}

/// Without a manifest every workflow but `init` ends with `NotInitialized`
/// after the one request to load it: nothing is cloned, written or removed.
pub proof fn law_not_initialized(command: CommandView, world: World)
    requires
        !(command is Init),
        world(RequestView::LoadManifest) is Missing,
    ensures
        execution(command, world).result == Err::<ReportView, Error>(Error::NotInitialized),
        execution(command, world).trace == seq![RequestView::LoadManifest],
{
}

/// `clean` on an initialized workspace asks for the whole managed root to
/// be removed, and for nothing else, and succeeds exactly if that is done.
pub proof fn law_clean_removes_root(manifest: ConfigView, world: World)
    requires
        honest(world),
        world(RequestView::LoadManifest) == (ResponseView::Loaded { manifest }),
    ensures
        execution(CommandView::Clean, world).trace == seq![
            RequestView::LoadManifest,
            RequestView::RemoveRoot,
        ],
        execution(CommandView::Clean, world).result == if world(RequestView::RemoveRoot) is Done {
            Ok::<ReportView, Error>(ReportView::Cleaned)
        } else {
            Err::<ReportView, Error>(Error::IOError { during: crate::report::Operation::RemoveRoot })
        },
{
    theorem_run(CommandView::Clean, world);
    assert(answers(RequestView::RemoveRoot, world(RequestView::RemoveRoot)));
}

/// `init` on a workspace that is there is a no-op: it asks whether the root
/// exists, and reports success.
pub proof fn law_init_idempotent(world: World)
    requires
        world(RequestView::ProbeRoot) == (ResponseView::Exists { found: true }),
    ensures
        execution(CommandView::Init, world).result == Ok::<ReportView, Error>(ReportView::Initialized),
        execution(CommandView::Init, world).trace == seq![RequestView::ProbeRoot],
{
    theorem_run(CommandView::Init, world);
}

/// Whether a request to the provider names the dependency `name`.
pub open spec fn names(request: RequestView, name: Seq<char>) -> bool {
    match request {
        RequestView::Fetch { name: named, .. } => named == name,
        RequestView::CheckoutHead { name: named } => named == name,
        RequestView::CurrentHead { name: named } => named == name,
        _ => false,
    }
}

/// Each request that `update` issues over `entries` names one of them.
pub proof fn lemma_update_trace_names(entries: Seq<EntryView>, world: World)
    ensures
        forall|i: int|
            0 <= i < update_trace(entries, world).len() ==> exists|k: int|
                0 <= k < entries.len() && names(
                    #[trigger] update_trace(entries, world)[i],
                    #[trigger] entries[k].name,
                ),
    decreases entries.len(),
{
    if entries.len() > 0 {
        let rest = entries.drop_first();
        lemma_update_trace_names(rest, world);
        let head = update_requests(entries.first(), world);
        let tail = update_trace(rest, world);
        assert forall|i: int| 0 <= i < (head + tail).len() implies exists|k: int|
            0 <= k < entries.len() && names(#[trigger] (head + tail)[i], #[trigger] entries[k].name) by {
            if i < head.len() {
                assert(names((head + tail)[i], entries[0].name));
            } else {
                assert((head + tail)[i] == tail[i - head.len()]);
                let k = choose|k: int|
                    0 <= k < rest.len() && names(tail[i - head.len()], #[trigger] rest[k].name);
                assert(names((head + tail)[i], entries[k + 1].name));
            }
        }
    }
}

/// Over entries of different names `update` issues no request twice.
pub proof fn lemma_update_trace_distinct(entries: Seq<EntryView>, world: World)
    requires
        forall|i: int, j: int|
            0 <= i < j < entries.len() ==> #[trigger] entries[i].name != #[trigger] entries[j].name,
    ensures
        update_trace(entries, world).no_duplicates(),
    decreases entries.len(),
{
    if entries.len() > 0 {
        let rest = entries.drop_first();
        assert forall|i: int, j: int| 0 <= i < j < rest.len() implies #[trigger] rest[i].name
            != #[trigger] rest[j].name by {
            assert(entries[i + 1].name != entries[j + 1].name);
        }
        lemma_update_trace_distinct(rest, world);
        lemma_update_trace_names(rest, world);
        let head = update_requests(entries.first(), world);
        let tail = update_trace(rest, world);
        let all = head + tail;
        assert forall|i: int, j: int| 0 <= i < j < all.len() implies all[i] != all[j] by {
            if j >= head.len() {
                assert(all[j] == tail[j - head.len()]);
                if i < head.len() {
                    let k = choose|k: int|
                        0 <= k < rest.len() && names(tail[j - head.len()], #[trigger] rest[k].name);
                    assert(entries[0].name != entries[k + 1].name);
                    assert(names(all[i], entries[0].name));
                } else {
                    assert(all[i] == tail[i - head.len()]);
                }
            }
        }
    }
}

/// No workflow issues a request twice in one run, so that a world that
/// answers each request in one way is all that a run can meet.
pub proof fn law_requests_distinct(command: CommandView, world: World)
    requires
        honest(world),
        world(RequestView::LoadManifest) matches ResponseView::Loaded { manifest }
            ==> manifest.dependencies.dom().finite(),
    ensures
        execution(command, world).trace.no_duplicates(),
{
    theorem_run(command, world);
    let load = RequestView::LoadManifest;
    if let ResponseView::Loaded { manifest } = world(load) {
        let listed = listing_of(manifest.dependencies);
        lemma_listing(manifest.dependencies);
        if command is Update {
            lemma_update_trace_distinct(listed, world);
            lemma_update_trace_names(listed, world);
            let tail = update_trace(listed, world);
            let all = seq![load] + tail;
            assert forall|i: int, j: int| 0 <= i < j < all.len() implies all[i] != all[j] by {
                assert(all[j] == tail[j - 1]);
                if i > 0 {
                    assert(all[i] == tail[i - 1]);
                } else {
                    let k = choose|k: int|
                        0 <= k < listed.len() && names(tail[j - 1], #[trigger] listed[k].name);
                }
            }
        } else if command is List {
            let all = execution(command, world).trace;
            assert forall|i: int, j: int| 0 <= i < j < all.len() implies all[i] != all[j] by {
                if i > 0 {
                    assert(listed[i - 1].name != listed[j - 1].name);
                }
            }
        }
    }
}

} // verus!
