use vendman::provider::ProviderError;
use vendman::report::{Error, Operation, Report, Row, UpdateOutcome};

#[test]
fn every_provider_error_has_its_words() {
    assert_eq!(ProviderError::SourceUnavailable.describe(), "source unavailable");
    assert_eq!(ProviderError::AuthFailed.describe(), "authentication failed");
    assert_eq!(ProviderError::PathConflict.describe(), "destination is in the way");
    assert_eq!(ProviderError::NetworkError.describe(), "network error");
    assert_eq!(ProviderError::RemoteNotFound.describe(), "remote not found");
    assert_eq!(ProviderError::DirtyWorkingTree.describe(), "working tree has conflicting changes");
    assert_eq!(ProviderError::InvalidReference.describe(), "invalid reference");
    assert_eq!(ProviderError::EmptyRepository.describe(), "repository has no commits");
    assert_eq!(ProviderError::WorkspaceMissing.describe(), "no repository in the workspace");
}

#[test]
fn every_error_has_its_message() {
    assert_eq!(
        Error::NotInitialized.message(),
        "No .vendman directory found. Run `vendman init` to initialize it."
    );
    assert_eq!(Error::Corrupt.message(), "Can't parse config file");
    assert_eq!(
        Error::IOError { during: Operation::CreateRoot }.message(),
        "Can't create .vendman directory"
    );
    assert_eq!(Error::IOError { during: Operation::ReadManifest }.message(), "Can't read config file");
    assert_eq!(
        Error::IOError { during: Operation::WriteManifest }.message(),
        "Can't write to config file"
    );
    assert_eq!(
        Error::IOError { during: Operation::RemoveRoot }.message(),
        "Can't remove .vendman directory"
    );
    assert_eq!(
        Error::CloneFailed { reason: ProviderError::AuthFailed }.message(),
        "Can't clone repository: authentication failed"
    );
    assert_eq!(Error::UnexpectedResponse.message(), "Unexpected response to a request");
}

#[test]
fn alert_puts_the_word_error_in_front() {
    assert_eq!(Error::Corrupt.alert(), "**Error**: Can't parse config file");
    assert_eq!(
        Error::CloneFailed { reason: ProviderError::SourceUnavailable }.alert(),
        "**Error**: Can't clone repository: source unavailable"
    );
}

#[test]
fn outcome_lines() {
    let tracking = UpdateOutcome::Updated { name: "lib".to_string(), branch: None };
    let pinned = UpdateOutcome::Updated { name: "tool".to_string(), branch: Some("dev".to_string()) };
    let failed = UpdateOutcome::Failed { name: "app".to_string(), reason: ProviderError::NetworkError };
    assert_eq!(tracking.line(), "lib");
    assert_eq!(pinned.line(), "tool/*dev*");
    assert_eq!(failed.line(), "[app] network error");
}

#[test]
fn row_lines() {
    let head = Row::Head {
        name: "tool".to_string(),
        branch: "dev".to_string(),
        commit: "0123abc".to_string(),
    };
    let failed = Row::Failed { name: "app".to_string(), reason: ProviderError::EmptyRepository };
    assert_eq!(head.line(), "| **tool** | dev | *0123abc* |");
    assert_eq!(failed.line(), "| **app** | repository has no commits | |");
}

#[test]
fn headlines() {
    assert_eq!(Report::Initialized.headline(), "**.vendman directory initialized**");
    assert_eq!(Report::Vended { name: "repo".to_string() }.headline(), "**Cloned**: *repo*");
    assert_eq!(Report::Cleaned.headline(), "**.vendman directory removed**");
    assert_eq!(Report::Updated { outcomes: vec![] }.headline(), "**Dependencies updated**");
    assert_eq!(Report::Listed { rows: vec![] }.headline(), "");
}

#[test]
fn body_of_a_report_without_details_is_empty() {
    assert_eq!(Report::Initialized.body(), "");
    assert_eq!(Report::Vended { name: "repo".to_string() }.body(), "");
    assert_eq!(Report::Cleaned.body(), "");
    assert_eq!(Report::Updated { outcomes: vec![] }.body(), "");
}

#[test]
fn body_of_an_update_has_a_line_for_each_dependency() {
    let report = Report::Updated {
        outcomes: vec![
            UpdateOutcome::Failed { name: "app".to_string(), reason: ProviderError::RemoteNotFound },
            UpdateOutcome::Updated { name: "lib".to_string(), branch: None },
            UpdateOutcome::Updated { name: "tool".to_string(), branch: Some("dev".to_string()) },
        ],
    };
    assert_eq!(report.body(), "[app] remote not found\nlib\ntool/*dev*");
    let single = Report::Updated {
        outcomes: vec![UpdateOutcome::Updated { name: "lib".to_string(), branch: None }],
    };
    assert_eq!(single.body(), "lib");
}

#[test]
fn body_of_a_listing_is_the_table() {
    let report = Report::Listed {
        rows: vec![
            Row::Head { name: "lib".to_string(), branch: "main".to_string(), commit: "aa".to_string() },
            Row::Failed { name: "mid".to_string(), reason: ProviderError::WorkspaceMissing },
            Row::Head { name: "tool".to_string(), branch: "HEAD".to_string(), commit: "bb".to_string() },
        ],
    };
    assert_eq!(
        report.body(),
        "\n|**Name**|**Branch**|**Hash**|\n|:-:|:-:|:-:|\n| **lib** | main | *aa* |\n| **mid** | no repository in the workspace | |\n| **tool** | HEAD | *bb* |\n"
    );
}

#[test]
fn body_of_an_empty_listing_is_the_head_of_the_table() {
    assert_eq!(
        Report::Listed { rows: vec![] }.body(),
        "\n|**Name**|**Branch**|**Hash**|\n|:-:|:-:|:-:|\n\n"
    );
}

#[test]
fn announcement_is_the_rendered_headline() {
    let report = Report::Vended { name: "repo".to_string() };
    let shown = report.announcement();
    assert_ne!(shown, report.headline());
    assert!(!shown.contains("**"));
    assert!(shown.contains("Cloned"));
    assert!(shown.contains("repo"));
}

#[test]
fn announcement_of_a_listing_is_empty() {
    assert_eq!(Report::Listed { rows: vec![] }.announcement(), "");
}

#[test]
fn announce_gives_the_rendered_headline_and_nothing_for_a_listing() {
    let shown = "\u{1b}[1mCloned\u{1b}[0m: repo".to_string();
    assert_eq!(Report::Vended { name: "repo".to_string() }.announce(shown.clone()), shown);
    assert_eq!(Report::Initialized.announce("x".to_string()), "x");
    assert_eq!(Report::Cleaned.announce(String::new()), "");
    assert_eq!(Report::Updated { outcomes: vec![] }.announce("done".to_string()), "done");
    assert_eq!(Report::Listed { rows: vec![] }.announce("x".to_string()), "");
}
