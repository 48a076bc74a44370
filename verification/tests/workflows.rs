use std::collections::{BTreeMap, BTreeSet};

use vendman::engine::{Command, Step, Workflow, DETACHED};
use vendman::provider::{is_answer, ProviderError, Request, Response, ORIGIN};
use vendman::report::{Error, Operation, Report, Row, UpdateOutcome};
use vendman::text::derive_name;
use vendman::types::{Config, Dependency};

/// A repository that can be cloned: its branches with their tips.
struct Upstream {
    default_branch: String,
    tips: BTreeMap<String, String>,
}

/// A clone in the workspace.
struct Local {
    origin: String,
    branch: Option<String>,
    commit: String,
    fetched: BTreeMap<String, String>,
}

/// A file system and a provider in memory.
#[derive(Default)]
struct World {
    root: bool,
    manifest: Option<Config>,
    corrupt: bool,
    unreadable: bool,
    refuse: BTreeSet<&'static str>,
    upstreams: BTreeMap<String, Upstream>,
    locals: BTreeMap<String, Local>,
    failures: BTreeMap<String, ProviderError>,
    saves: usize,
}

impl World {
    fn initialized() -> World {
        World { root: true, manifest: Some(Config::new()), ..World::default() }
    }

    fn publish(&mut self, locator: &str, default_branch: &str, tips: &[(&str, &str)]) {
        let tips = tips.iter().map(|(b, c)| (b.to_string(), c.to_string())).collect();
        self.upstreams
            .insert(locator.to_string(), Upstream { default_branch: default_branch.to_string(), tips });
    }

    fn advance(&mut self, locator: &str, branch: &str, commit: &str) {
        self.upstreams.get_mut(locator).unwrap().tips.insert(branch.to_string(), commit.to_string());
    }

    fn fail(&mut self, what: &str, name: &str, error: ProviderError) {
        self.failures.insert(format!("{what}:{name}"), error);
    }

    fn failure(&self, what: &str, name: &str) -> Option<Response> {
        self.failures.get(&format!("{what}:{name}")).map(|error| Response::ProviderFailed { error: *error })
    }

    fn io(&self, what: &'static str) -> Option<Response> {
        if self.refuse.contains(what) {
            Some(Response::IoFailed)
        } else {
            None
        }
    }

    fn perform(&mut self, request: &Request) -> Response {
        match request {
            Request::ProbeRoot => Response::Exists { found: self.root },
            Request::CreateRoot => self.io("create").unwrap_or_else(|| {
                self.root = true;
                Response::Done
            }),
            Request::LoadManifest => {
                if self.unreadable {
                    Response::Unreadable
                } else if self.corrupt {
                    Response::Corrupt
                } else {
                    match &self.manifest {
                        Some(manifest) => Response::Loaded { manifest: manifest.clone() },
                        None => Response::Missing,
                    }
                }
            }
            Request::SaveManifest { manifest } => self.io("save").unwrap_or_else(|| {
                self.manifest = Some(manifest.clone());
                self.saves += 1;
                Response::Done
            }),
            Request::RemoveRoot => self.io("remove").unwrap_or_else(|| {
                self.root = false;
                self.manifest = None;
                self.locals.clear();
                Response::Done
            }),
            Request::Clone { locator, name, branch } => {
                if let Some(failed) = self.failure("clone", name) {
                    return failed;
                }
                let Some(upstream) = self.upstreams.get(locator) else {
                    return Response::ProviderFailed { error: ProviderError::SourceUnavailable };
                };
                let branch = branch.clone().unwrap_or(upstream.default_branch.clone());
                let Some(commit) = upstream.tips.get(&branch) else {
                    return Response::ProviderFailed { error: ProviderError::InvalidReference };
                };
                self.locals.insert(
                    name.clone(),
                    Local {
                        origin: locator.clone(),
                        branch: Some(branch),
                        commit: commit.clone(),
                        fetched: upstream.tips.clone(),
                    },
                );
                Response::Cloned { location: format!("/home/u/.vendman/{name}/.git/") }
            }
            Request::Fetch { name, remote, branch } => {
                if let Some(failed) = self.failure("fetch", name) {
                    return failed;
                }
                let Some(local) = self.locals.get_mut(name) else {
                    return Response::ProviderFailed { error: ProviderError::WorkspaceMissing };
                };
                if remote != "origin" {
                    return Response::ProviderFailed { error: ProviderError::RemoteNotFound };
                }
                let upstream = &self.upstreams[&local.origin];
                for (name, tip) in &upstream.tips {
                    if branch.as_ref().map_or(true, |only| only == name) {
                        local.fetched.insert(name.clone(), tip.clone());
                    }
                }
                Response::Done
            }
            Request::CheckoutHead { name } => {
                if let Some(failed) = self.failure("checkout", name) {
                    return failed;
                }
                let Some(local) = self.locals.get_mut(name) else {
                    return Response::ProviderFailed { error: ProviderError::WorkspaceMissing };
                };
                if let Some(branch) = &local.branch {
                    local.commit = local.fetched[branch].clone();
                }
                Response::Done
            }
            Request::CurrentHead { name } => {
                if let Some(failed) = self.failure("head", name) {
                    return failed;
                }
                match self.locals.get(name) {
                    Some(local) => {
                        Response::Head { shorthand: local.branch.clone(), commit: local.commit.clone() }
                    }
                    None => Response::ProviderFailed { error: ProviderError::WorkspaceMissing },
                }
            }
        }
    }

    /// Runs a workflow to its end, as the shell around the library does.
    fn run(&mut self, command: Command) -> (Result<Report, Error>, Vec<Request>) {
        let (mut workflow, mut request) = Workflow::start(command);
        let mut trace = Vec::new();
        loop {
            assert!(!workflow.is_finished());
            let response = self.perform(&request);
            assert!(is_answer(&request, &response));
            trace.push(request);
            let (next, step) = workflow.step(response);
            workflow = next;
            match step {
                Step::Perform(following) => request = following,
                Step::Finish(outcome) => {
                    assert!(workflow.is_finished());
                    return (outcome, trace);
                }
            }
        }
    }

    fn vend(&mut self, repo: &str, branch: Option<&str>) -> Result<Report, Error> {
        self.run(Command::Vend { repo: repo.to_string(), branch: branch.map(str::to_string) }).0
    }

    fn list(&mut self) -> Vec<Row> {
        match self.run(Command::List).0 {
            Ok(Report::Listed { rows }) => rows,
            other => panic!("list gave {other:?}"),
        }
    }

    fn update(&mut self) -> Vec<UpdateOutcome> {
        match self.run(Command::Update).0 {
            Ok(Report::Updated { outcomes }) => outcomes,
            other => panic!("update gave {other:?}"),
        }
    }

    fn declared(&self, name: &str) -> Option<Dependency> {
        self.manifest.as_ref().unwrap().dependencies.get(name).cloned()
    }
}

fn head(name: &str, branch: &str, commit: &str) -> Row {
    Row::Head { name: name.to_string(), branch: branch.to_string(), commit: commit.to_string() }
}

fn updated(name: &str, branch: Option<&str>) -> UpdateOutcome {
    UpdateOutcome::Updated { name: name.to_string(), branch: branch.map(str::to_string) }
}

fn failed(name: &str, reason: ProviderError) -> UpdateOutcome {
    UpdateOutcome::Failed { name: name.to_string(), reason }
}

fn fetch(name: &str, branch: Option<&str>) -> Request {
    Request::Fetch {
        name: name.to_string(),
        remote: "origin".to_string(),
        branch: branch.map(str::to_string),
    }
}

fn checkout(name: &str) -> Request {
    Request::CheckoutHead { name: name.to_string() }
}

fn ask_head(name: &str) -> Request {
    Request::CurrentHead { name: name.to_string() }
}

const REPO_A: &str = "https://example.org/team/alpha";
const REPO_B: &str = "https://example.org/team/beta";
const REPO_C: &str = "https://example.org/team/gamma";

fn world_with_three_repositories() -> World {
    let mut world = World::initialized();
    world.publish(REPO_A, "main", &[("main", "a1"), ("dev", "a2")]);
    world.publish(REPO_B, "trunk", &[("trunk", "b1"), ("dev", "b2")]);
    world.publish(REPO_C, "main", &[("main", "c1")]);
    world
}

#[test]
fn constants_are_what_the_provider_expects() {
    assert_eq!(ORIGIN, "origin");
    assert_eq!(DETACHED, "HEAD");
}

#[test]
fn init_creates_the_root_and_an_empty_manifest() {
    let mut world = World::default();
    let (outcome, trace) = world.run(Command::Init);
    assert_eq!(outcome, Ok(Report::Initialized));
    assert_eq!(
        trace,
        vec![Request::ProbeRoot, Request::CreateRoot, Request::SaveManifest { manifest: Config::new() }]
    );
    assert!(world.root);
    assert_eq!(world.manifest, Some(Config::new()));
}

#[test]
fn init_on_an_initialized_workspace_touches_nothing() {
    let mut world = world_with_three_repositories();
    world.vend(REPO_A, None).unwrap();
    let before = world.manifest.clone();
    let (outcome, trace) = world.run(Command::Init);
    assert_eq!(outcome, Ok(Report::Initialized));
    assert_eq!(trace, vec![Request::ProbeRoot]);
    assert_eq!(world.manifest, before);
}

#[test]
fn init_reports_a_root_that_cannot_be_created() {
    let mut world = World::default();
    world.refuse.insert("create");
    let (outcome, trace) = world.run(Command::Init);
    assert_eq!(outcome, Err(Error::IOError { during: Operation::CreateRoot }));
    assert_eq!(trace, vec![Request::ProbeRoot, Request::CreateRoot]);
    assert_eq!(world.manifest, None);
}

#[test]
fn init_reports_a_manifest_that_cannot_be_written() {
    let mut world = World::default();
    world.refuse.insert("save");
    let (outcome, _) = world.run(Command::Init);
    assert_eq!(outcome, Err(Error::IOError { during: Operation::WriteManifest }));
}

#[test]
fn vend_without_branch_records_a_tracking_entry() {
    let mut world = world_with_three_repositories();
    let (outcome, trace) = world.run(Command::Vend { repo: REPO_A.to_string(), branch: None });
    assert_eq!(outcome, Ok(Report::Vended { name: "alpha".to_string() }));
    assert_eq!(
        world.declared("alpha"),
        Some(Dependency::Tracking { source: "/home/u/.vendman/alpha/.git/".to_string() })
    );
    assert_eq!(trace.len(), 3);
    assert_eq!(trace[0], Request::LoadManifest);
    assert_eq!(
        trace[1],
        Request::Clone { locator: REPO_A.to_string(), name: "alpha".to_string(), branch: None }
    );
    assert_eq!(trace[2], Request::SaveManifest { manifest: world.manifest.clone().unwrap() });
    assert_eq!(world.manifest.as_ref().unwrap().version, "0.1.0");
}

#[test]
fn vend_with_branch_records_a_pinned_entry_with_that_branch() {
    let mut world = world_with_three_repositories();
    let (outcome, trace) =
        world.run(Command::Vend { repo: REPO_B.to_string(), branch: Some("dev".to_string()) });
    assert_eq!(outcome, Ok(Report::Vended { name: "beta".to_string() }));
    assert_eq!(
        world.declared("beta"),
        Some(Dependency::Pinned {
            source: "/home/u/.vendman/beta/.git/".to_string(),
            branch: "dev".to_string()
        })
    );
    assert_eq!(
        trace[1],
        Request::Clone {
            locator: REPO_B.to_string(),
            name: "beta".to_string(),
            branch: Some("dev".to_string())
        }
    );
}

#[test]
fn vend_names_the_dependency_by_the_final_segment() {
    let mut world = World::initialized();
    world.publish("git@host:group/sub/tool.git", "main", &[("main", "t1")]);
    assert_eq!(
        world.vend("git@host:group/sub/tool.git", None),
        Ok(Report::Vended { name: "tool.git".to_string() })
    );
    assert_eq!(derive_name("git@host:group/sub/tool.git"), "tool.git");
    assert!(world.locals.contains_key("tool.git"));
}

#[test]
fn vend_needs_an_initialized_workspace() {
    let mut world = World::default();
    world.publish(REPO_A, "main", &[("main", "a1")]);
    let (outcome, trace) = world.run(Command::Vend { repo: REPO_A.to_string(), branch: None });
    assert_eq!(outcome, Err(Error::NotInitialized));
    assert_eq!(trace, vec![Request::LoadManifest]);
    assert!(world.locals.is_empty());
}

#[test]
fn a_corrupt_manifest_stops_every_workflow_that_loads_it() {
    for command in [
        Command::Vend { repo: REPO_A.to_string(), branch: None },
        Command::Clean,
        Command::Update,
        Command::List,
    ] {
        let mut world = world_with_three_repositories();
        world.corrupt = true;
        let (outcome, trace) = world.run(command);
        assert_eq!(outcome, Err(Error::Corrupt));
        assert_eq!(trace, vec![Request::LoadManifest]);
        assert!(world.root);
    }
}

#[test]
fn an_unreadable_manifest_stops_every_workflow_that_loads_it() {
    for command in [
        Command::Vend { repo: REPO_A.to_string(), branch: None },
        Command::Clean,
        Command::Update,
        Command::List,
    ] {
        let mut world = world_with_three_repositories();
        world.unreadable = true;
        let (outcome, trace) = world.run(command);
        assert_eq!(outcome, Err(Error::IOError { during: Operation::ReadManifest }));
        assert_eq!(trace, vec![Request::LoadManifest]);
    }
}

#[test]
fn a_failed_clone_leaves_the_manifest_as_it_was() {
    let mut world = world_with_three_repositories();
    world.vend(REPO_A, None).unwrap();
    let before = world.manifest.clone();
    let saves = world.saves;
    let (outcome, trace) =
        world.run(Command::Vend { repo: "https://example.org/none".to_string(), branch: None });
    assert_eq!(outcome, Err(Error::CloneFailed { reason: ProviderError::SourceUnavailable }));
    assert_eq!(trace.len(), 2);
    assert_eq!(world.manifest, before);
    assert_eq!(world.saves, saves);

    world.fail("clone", "beta", ProviderError::AuthFailed);
    assert_eq!(
        world.vend(REPO_B, None),
        Err(Error::CloneFailed { reason: ProviderError::AuthFailed })
    );
    assert_eq!(world.manifest, before);
}

#[test]
fn vend_reports_a_manifest_that_cannot_be_written() {
    let mut world = world_with_three_repositories();
    world.refuse.insert("save");
    assert_eq!(
        world.vend(REPO_A, None),
        Err(Error::IOError { during: Operation::WriteManifest })
    );
    assert_eq!(world.manifest, Some(Config::new()));
}

#[test]
fn vend_of_the_same_name_overwrites_the_entry() {
    let mut world = world_with_three_repositories();
    world.publish("https://elsewhere.org/fork/alpha", "main", &[("main", "f1"), ("dev", "f2")]);
    world.vend(REPO_A, None).unwrap();
    world.vend(REPO_B, None).unwrap();
    world.locals.remove("alpha");
    assert_eq!(
        world.vend("https://elsewhere.org/fork/alpha", Some("dev")),
        Ok(Report::Vended { name: "alpha".to_string() })
    );
    let manifest = world.manifest.as_ref().unwrap();
    assert_eq!(manifest.dependencies.len(), 2);
    let names: Vec<String> = manifest.dependencies.entries().into_iter().map(|e| e.name).collect();
    assert_eq!(names, vec!["alpha".to_string(), "beta".to_string()]);
    assert_eq!(
        world.declared("alpha"),
        Some(Dependency::Pinned {
            source: "/home/u/.vendman/alpha/.git/".to_string(),
            branch: "dev".to_string()
        })
    );
}

#[test]
fn vend_then_list_shows_one_row_for_each_vended_dependency() {
    let mut world = world_with_three_repositories();
    world.vend(REPO_C, None).unwrap();
    world.vend(REPO_A, Some("dev")).unwrap();
    world.vend(REPO_B, Some("dev")).unwrap();
    assert_eq!(
        world.list(),
        vec![head("alpha", "dev", "a2"), head("beta", "dev", "b2"), head("gamma", "main", "c1")]
    );
}

#[test]
fn init_vend_list_end_to_end() {
    let mut world = World::default();
    world.publish(REPO_A, "main", &[("main", "a1")]);
    assert_eq!(world.run(Command::Init).0, Ok(Report::Initialized));
    assert_eq!(world.vend(REPO_A, None), Ok(Report::Vended { name: "alpha".to_string() }));
    let (outcome, trace) = world.run(Command::List);
    assert_eq!(outcome, Ok(Report::Listed { rows: vec![head("alpha", "main", "a1")] }));
    assert_eq!(trace, vec![Request::LoadManifest, ask_head("alpha")]);
}

#[test]
fn vend_pinned_update_list_end_to_end() {
    let mut world = world_with_three_repositories();
    world.vend(REPO_A, Some("dev")).unwrap();
    assert_eq!(world.list(), vec![head("alpha", "dev", "a2")]);
    world.advance(REPO_A, "dev", "a3");
    world.advance(REPO_A, "main", "a9");
    let before = world.manifest.clone();
    let (outcome, trace) = world.run(Command::Update);
    assert_eq!(outcome, Ok(Report::Updated { outcomes: vec![updated("alpha", Some("dev"))] }));
    assert_eq!(trace, vec![Request::LoadManifest, fetch("alpha", Some("dev")), checkout("alpha")]);
    assert_eq!(world.list(), vec![head("alpha", "dev", "a3")]);
    assert_eq!(world.manifest, before);
}

#[test]
fn update_fetches_tracking_and_checks_out_pinned() {
    let mut world = world_with_three_repositories();
    world.vend(REPO_B, None).unwrap();
    world.vend(REPO_A, Some("dev")).unwrap();
    world.vend(REPO_C, None).unwrap();
    let saves = world.saves;
    let (outcome, trace) = world.run(Command::Update);
    assert_eq!(
        outcome,
        Ok(Report::Updated {
            outcomes: vec![updated("alpha", Some("dev")), updated("beta", None), updated("gamma", None)]
        })
    );
    assert_eq!(
        trace,
        vec![
            Request::LoadManifest,
            fetch("alpha", Some("dev")),
            checkout("alpha"),
            fetch("beta", None),
            fetch("gamma", None),
        ]
    );
    assert_eq!(world.saves, saves);
}

#[test]
fn update_of_an_empty_manifest_has_no_outcomes() {
    let mut world = World::initialized();
    let (outcome, trace) = world.run(Command::Update);
    assert_eq!(outcome, Ok(Report::Updated { outcomes: vec![] }));
    assert_eq!(trace, vec![Request::LoadManifest]);
}

#[test]
fn update_goes_on_after_a_failed_fetch() {
    for failing in ["alpha", "beta", "gamma"] {
        let mut world = world_with_three_repositories();
        world.vend(REPO_A, Some("dev")).unwrap();
        world.vend(REPO_B, None).unwrap();
        world.vend(REPO_C, None).unwrap();
        world.fail("fetch", failing, ProviderError::NetworkError);
        let expected: Vec<UpdateOutcome> = [("alpha", Some("dev")), ("beta", None), ("gamma", None)]
            .into_iter()
            .map(|(name, branch)| {
                if name == failing {
                    failed(name, ProviderError::NetworkError)
                } else {
                    updated(name, branch)
                }
            })
            .collect();
        assert_eq!(world.update(), expected);
    }
}

#[test]
fn update_goes_on_after_a_failed_checkout() {
    let mut world = world_with_three_repositories();
    world.vend(REPO_A, Some("dev")).unwrap();
    world.vend(REPO_B, Some("dev")).unwrap();
    world.fail("checkout", "alpha", ProviderError::DirtyWorkingTree);
    let (outcome, trace) = world.run(Command::Update);
    assert_eq!(
        outcome,
        Ok(Report::Updated {
            outcomes: vec![
                failed("alpha", ProviderError::DirtyWorkingTree),
                updated("beta", Some("dev"))
            ]
        })
    );
    assert_eq!(
        trace,
        vec![
            Request::LoadManifest,
            fetch("alpha", Some("dev")),
            checkout("alpha"),
            fetch("beta", Some("dev")),
            checkout("beta"),
        ]
    );
}

#[test]
fn update_does_not_check_out_after_a_failed_fetch() {
    let mut world = world_with_three_repositories();
    world.vend(REPO_A, Some("dev")).unwrap();
    world.fail("fetch", "alpha", ProviderError::RemoteNotFound);
    let (outcome, trace) = world.run(Command::Update);
    assert_eq!(
        outcome,
        Ok(Report::Updated { outcomes: vec![failed("alpha", ProviderError::RemoteNotFound)] })
    );
    assert_eq!(trace, vec![Request::LoadManifest, fetch("alpha", Some("dev"))]);
}

#[test]
fn update_reports_a_dependency_whose_directory_is_gone() {
    let mut world = world_with_three_repositories();
    world.vend(REPO_A, None).unwrap();
    world.vend(REPO_B, None).unwrap();
    world.locals.remove("alpha");
    assert_eq!(
        world.update(),
        vec![failed("alpha", ProviderError::WorkspaceMissing), updated("beta", None)]
    );
}

#[test]
fn list_of_an_empty_manifest_has_no_rows() {
    let mut world = World::initialized();
    assert_eq!(world.list(), vec![]);
}

#[test]
fn list_shows_a_head_without_short_name_as_detached() {
    let mut world = world_with_three_repositories();
    world.vend(REPO_A, None).unwrap();
    world.locals.get_mut("alpha").unwrap().branch = None;
    assert_eq!(world.list(), vec![head("alpha", "HEAD", "a1")]);
}

#[test]
fn list_reports_a_failure_in_its_row_and_goes_on() {
    let mut world = world_with_three_repositories();
    world.vend(REPO_A, None).unwrap();
    world.vend(REPO_B, None).unwrap();
    world.vend(REPO_C, None).unwrap();
    world.fail("head", "beta", ProviderError::EmptyRepository);
    let (outcome, trace) = world.run(Command::List);
    assert_eq!(
        outcome,
        Ok(Report::Listed {
            rows: vec![
                head("alpha", "main", "a1"),
                Row::Failed { name: "beta".to_string(), reason: ProviderError::EmptyRepository },
                head("gamma", "main", "c1"),
            ]
        })
    );
    assert_eq!(
        trace,
        vec![Request::LoadManifest, ask_head("alpha"), ask_head("beta"), ask_head("gamma")]
    );
}

#[test]
fn list_rows_are_sorted_by_name() {
    let mut world = World::initialized();
    for name in ["zeta", "eta", "Beta", "alpha", "mu"] {
        let locator = format!("https://example.org/{name}");
        world.publish(&locator, "main", &[("main", name)]);
        world.vend(&locator, None).unwrap();
    }
    let names: Vec<String> = world
        .list()
        .into_iter()
        .map(|row| match row {
            Row::Head { name, .. } => name,
            Row::Failed { name, .. } => name,
        })
        .collect();
    assert_eq!(names, vec!["Beta", "alpha", "eta", "mu", "zeta"]);
}

#[test]
fn clean_removes_the_manifest_and_every_clone() {
    let mut world = world_with_three_repositories();
    world.vend(REPO_A, None).unwrap();
    world.vend(REPO_B, Some("dev")).unwrap();
    let (outcome, trace) = world.run(Command::Clean);
    assert_eq!(outcome, Ok(Report::Cleaned));
    assert_eq!(trace, vec![Request::LoadManifest, Request::RemoveRoot]);
    assert!(!world.root);
    assert_eq!(world.manifest, None);
    assert!(world.locals.is_empty());
}

#[test]
fn clean_needs_an_initialized_workspace() {
    let mut world = World::default();
    let (outcome, trace) = world.run(Command::Clean);
    assert_eq!(outcome, Err(Error::NotInitialized));
    assert_eq!(trace, vec![Request::LoadManifest]);
}

#[test]
fn clean_reports_a_root_that_cannot_be_removed() {
    let mut world = World::initialized();
    world.refuse.insert("remove");
    assert_eq!(world.run(Command::Clean).0, Err(Error::IOError { during: Operation::RemoveRoot }));
    assert!(world.root);
}

#[test]
fn update_and_list_need_an_initialized_workspace() {
    let mut world = World::default();
    assert_eq!(world.run(Command::Update).0, Err(Error::NotInitialized));
    assert_eq!(world.run(Command::List).0, Err(Error::NotInitialized));
}

#[test]
fn a_response_that_does_not_answer_ends_the_workflow() {
    let (workflow, request) = Workflow::start(Command::Init);
    assert_eq!(request, Request::ProbeRoot);
    let (workflow, step) = workflow.step(Response::Done);
    assert_eq!(step, Step::Finish(Err(Error::UnexpectedResponse)));
    assert!(workflow.is_finished());
    let (_, step) = workflow.step(Response::Exists { found: true });
    assert_eq!(step, Step::Finish(Err(Error::UnexpectedResponse)));

    let (workflow, _) = Workflow::start(Command::Update);
    let (_, step) = workflow.step(Response::Cloned { location: "x".to_string() });
    assert_eq!(step, Step::Finish(Err(Error::UnexpectedResponse)));

    let mut manifest = Config::new();
    manifest.dependencies.insert("a".to_string(), Dependency::Tracking { source: "s".to_string() });
    let (workflow, _) = Workflow::start(Command::Update);
    let (workflow, step) = workflow.step(Response::Loaded { manifest });
    assert_eq!(step, Step::Perform(fetch("a", None)));
    let (_, step) = workflow.step(Response::Head { shorthand: None, commit: "c".to_string() });
    assert_eq!(step, Step::Finish(Err(Error::UnexpectedResponse)));
}

#[test]
fn is_answer_tells_which_responses_fit_a_request() {
    let done = Response::Done;
    let failed = Response::ProviderFailed { error: ProviderError::NetworkError };
    assert!(is_answer(&Request::ProbeRoot, &Response::Exists { found: false }));
    assert!(!is_answer(&Request::ProbeRoot, &done));
    assert!(is_answer(&Request::CreateRoot, &done));
    assert!(is_answer(&Request::RemoveRoot, &Response::IoFailed));
    assert!(!is_answer(&Request::RemoveRoot, &failed));
    assert!(is_answer(&Request::SaveManifest { manifest: Config::new() }, &done));
    assert!(is_answer(&Request::LoadManifest, &Response::Missing));
    assert!(is_answer(&Request::LoadManifest, &Response::Corrupt));
    assert!(is_answer(&Request::LoadManifest, &Response::Unreadable));
    assert!(is_answer(&Request::LoadManifest, &Response::Loaded { manifest: Config::new() }));
    assert!(!is_answer(&Request::LoadManifest, &Response::IoFailed));
    assert!(is_answer(&fetch("a", None), &done));
    assert!(is_answer(&fetch("a", None), &failed));
    assert!(!is_answer(&fetch("a", None), &Response::IoFailed));
    assert!(is_answer(&checkout("a"), &done));
    assert!(is_answer(&ask_head("a"), &Response::Head { shorthand: None, commit: "c".to_string() }));
    assert!(!is_answer(&ask_head("a"), &done));
    let clone = Request::Clone { locator: "l".to_string(), name: "l".to_string(), branch: None };
    assert!(is_answer(&clone, &Response::Cloned { location: "p".to_string() }));
    assert!(is_answer(&clone, &failed));
    assert!(!is_answer(&clone, &done));
}
