//! The programs that the bar starts.
use xbar::external::{ExternalLaunchRequest, ExternalLauncher, ExternalPresentation};

fn request(argv: &[&str]) -> ExternalLaunchRequest {
    ExternalLaunchRequest {
        argv: argv.iter().map(|value| (*value).to_owned()).collect(),
        presentation: ExternalPresentation::FloatingTerminal,
    }
}

#[test]
fn floating_terminal_composition_preserves_argv_boundaries() {
    let launcher = ExternalLauncher::new(Some(
        ["terminal-test", "--identity", "external-test", "-e"]
            .into_iter()
            .map(str::to_owned)
            .collect(),
    ));
    let resolved = launcher
        .compose_argv(&request(&["manager-test", "--foo"]))
        .unwrap();
    assert_eq!(
        resolved,
        [
            "terminal-test",
            "--identity",
            "external-test",
            "-e",
            "manager-test",
            "--foo"
        ]
    );
}

#[test]
fn without_a_terminal_nothing_is_composed() {
    let request = request(&["manager-test"]);
    assert!(ExternalLauncher::default().compose_argv(&request).is_err());
    assert!(ExternalLauncher::new(Some(Vec::new()))
        .compose_argv(&request)
        .is_err());
    assert!(ExternalLauncher::new(Some(vec![String::new()]))
        .compose_argv(&request)
        .is_err());
    assert_eq!(
        ExternalLauncher::new(Some(vec!["missing-executable-test".into()])).compose_argv(&request),
        Ok(vec![
            "missing-executable-test".to_owned(),
            "manager-test".to_owned()
        ])
    );
}

#[test]
fn empty_manager_argv_is_rejected_without_spawn() {
    let launcher = ExternalLauncher::new(Some(vec!["terminal-test".into()]));
    assert!(launcher
        .compose_argv(&ExternalLaunchRequest {
            argv: Vec::new(),
            presentation: ExternalPresentation::FloatingTerminal,
        })
        .is_err());
}
