//! What a workflow asks of the world outside, and what the world answers.
//!
//! The library touches neither the file system nor the network. It issues a
//! [`Request`], and whoever drives it carries the request out and reports a
//! [`Response`].

use crate::types::{text_of, Config, ConfigView};
use vstd::prelude::*;

verus! {

/// Why the source-control provider could not do what it was asked.
#[derive(Clone, Copy, Debug, PartialEq, Eq, Structural)]
pub enum ProviderError {
    /// The source of a clone cannot be reached or does not exist.
    SourceUnavailable,
    /// The source refused the credentials.
    AuthFailed,
    /// The destination of a clone is in the way.
    PathConflict,
    /// The remote could not be reached during a fetch.
    NetworkError,
    /// The repository knows no remote of the name asked for.
    RemoteNotFound,
    /// Local modifications in the working tree conflict with the checkout.
    DirtyWorkingTree,
    /// The reference to check out is not valid.
    InvalidReference,
    /// The repository has no commit yet.
    EmptyRepository,
    /// The directory of the dependency holds no repository.
    WorkspaceMissing,
}

/// The remote that every fetch goes to.
pub const ORIGIN: &'static str = "origin";

/// The name of the managed root directory, which stands in the home
/// directory of the user. Each dependency is cloned into the directory of
/// its own name under it.
pub const ROOT: &'static str = ".vendman";

/// The name of the manifest file under the managed root.
pub const MANIFEST: &'static str = "config.toml";

/// Something for the world outside to do.
#[derive(Debug, PartialEq, Eq)]
pub enum Request {
    /// Say whether the managed root directory exists.
    ProbeRoot,
    /// Create the managed root directory.
    CreateRoot,
    /// Read the manifest file and decode it.
    LoadManifest,
    /// Encode the manifest and write it in place of the manifest file.
    SaveManifest { manifest: Config },
    /// Remove the managed root directory with all that is in it.
    RemoveRoot,
    /// Clone `locator` into the directory `name` under the managed root,
    /// checking out `branch` where one is given.
    Clone { locator: String, name: String, branch: Option<String> },
    /// Fetch from `remote` in the repository `name`, only `branch` where one
    /// is given.
    Fetch { name: String, remote: String, branch: Option<String> },
    /// Check out the head in the repository `name`.
    CheckoutHead { name: String },
    /// Report the head of the repository `name`.
    CurrentHead { name: String },
}

/// What a [`Request`] holds.
pub enum RequestView {
    ProbeRoot,
    CreateRoot,
    LoadManifest,
    SaveManifest { manifest: ConfigView },
    RemoveRoot,
    Clone { locator: Seq<char>, name: Seq<char>, branch: Option<Seq<char>> },
    Fetch { name: Seq<char>, remote: Seq<char>, branch: Option<Seq<char>> },
    CheckoutHead { name: Seq<char> },
    CurrentHead { name: Seq<char> },
}

impl View for Request {
    type V = RequestView;

    open spec fn view(&self) -> RequestView {
        match self {
            Request::ProbeRoot => RequestView::ProbeRoot,
            Request::CreateRoot => RequestView::CreateRoot,
            Request::LoadManifest => RequestView::LoadManifest,
            Request::SaveManifest { manifest } => RequestView::SaveManifest { manifest: manifest@ },
            Request::RemoveRoot => RequestView::RemoveRoot,
            Request::Clone { locator, name, branch } => RequestView::Clone {
                locator: locator@,
                name: name@,
                branch: text_of(*branch),
            },
            Request::Fetch { name, remote, branch } => RequestView::Fetch {
                name: name@,
                remote: remote@,
                branch: text_of(*branch),
            },
            Request::CheckoutHead { name } => RequestView::CheckoutHead { name: name@ },
            Request::CurrentHead { name } => RequestView::CurrentHead { name: name@ },
        }
    }
}

/// What came of a [`Request`].
#[derive(Debug, PartialEq, Eq)]
pub enum Response {
    /// Whether the managed root directory exists.
    Exists { found: bool },
    /// The request was carried out and has nothing to report.
    Done,
    /// The file system refused.
    IoFailed,
    /// The manifest file was read and decoded.
    Loaded { manifest: Config },
    /// There is no manifest file.
    Missing,
    /// The manifest file is there but could not be read.
    Unreadable,
    /// The manifest file was read but does not decode.
    Corrupt,
    /// The clone succeeded; `location` is what it recorded as the source.
    Cloned { location: String },
    /// The head of the repository: the short name of its reference where it
    /// has one, and the commit that it resolves to.
    Head { shorthand: Option<String>, commit: String },
    /// The source-control provider failed.
    ProviderFailed { error: ProviderError },
}

/// What a [`Response`] holds.
pub enum ResponseView {
    Exists { found: bool },
    Done,
    IoFailed,
    Loaded { manifest: ConfigView },
    Missing,
    Unreadable,
    Corrupt,
    Cloned { location: Seq<char> },
    Head { shorthand: Option<Seq<char>>, commit: Seq<char> },
    ProviderFailed { error: ProviderError },
}

impl View for Response {
    type V = ResponseView;

    open spec fn view(&self) -> ResponseView {
        match self {
            Response::Exists { found } => ResponseView::Exists { found: *found },
            Response::Done => ResponseView::Done,
            Response::IoFailed => ResponseView::IoFailed,
            Response::Loaded { manifest } => ResponseView::Loaded { manifest: manifest@ },
            Response::Missing => ResponseView::Missing,
            Response::Unreadable => ResponseView::Unreadable,
            Response::Corrupt => ResponseView::Corrupt,
            Response::Cloned { location } => ResponseView::Cloned { location: location@ },
            Response::Head { shorthand, commit } => ResponseView::Head {
                shorthand: text_of(*shorthand),
                commit: commit@,
            },
            Response::ProviderFailed { error } => ResponseView::ProviderFailed { error: *error },
        }
    }
}

/// Whether `response` is of a kind that answers `request`.
pub open spec fn answers(request: RequestView, response: ResponseView) -> bool {
    match request {
        RequestView::ProbeRoot => response is Exists,
        RequestView::CreateRoot | RequestView::SaveManifest { .. } | RequestView::RemoveRoot => {
            response is Done || response is IoFailed
        },
        RequestView::LoadManifest => {
            response is Loaded || response is Missing || response is Unreadable
                || response is Corrupt
        },
        RequestView::Clone { .. } => response is Cloned || response is ProviderFailed,
        RequestView::Fetch { .. } | RequestView::CheckoutHead { .. } => {
            response is Done || response is ProviderFailed
        },
        RequestView::CurrentHead { .. } => response is Head || response is ProviderFailed,
    }
}

/// Whether `response` is of a kind that answers `request`.
pub fn is_answer(request: &Request, response: &Response) -> (fits: bool)
    ensures
        fits == answers(request@, response@),
{
    match request {
        Request::ProbeRoot => matches!(response, Response::Exists { .. }),
        Request::CreateRoot | Request::SaveManifest { .. } | Request::RemoveRoot => {
            matches!(response, Response::Done | Response::IoFailed)
        },
        Request::LoadManifest => {
            matches!(
                response,
                Response::Loaded { .. } | Response::Missing | Response::Unreadable
                    | Response::Corrupt
            )
        },
        Request::Clone { .. } => matches!(
            response,
            Response::Cloned { .. } | Response::ProviderFailed { .. }
        ),
        Request::Fetch { .. } | Request::CheckoutHead { .. } => {
            matches!(response, Response::Done | Response::ProviderFailed { .. })
        },
        Request::CurrentHead { .. } => matches!(
            response,
            Response::Head { .. } | Response::ProviderFailed { .. }
        ),
    }
}

} // verus!
