//! Starting other programs.
use vstd::prelude::*;

use crate::config;
use crate::lists;
use crate::value::Value;

verus! {

/// How a program that is started is to be shown.
#[derive(Clone, Copy, Debug, Eq, PartialEq, Structural)]
pub enum ExternalPresentation {
    FloatingTerminal,
}

impl DeepView for ExternalPresentation {
    type V = ExternalPresentation;

    open spec fn deep_view(&self) -> ExternalPresentation {
        *self
    }
}

impl Value for ExternalPresentation {
    fn same(&self, other: &Self) -> (r: bool) {
        *self == *other
    }

    fn dup(&self) -> (r: Self) {
        *self
    }
}

/// A program to be started.
#[derive(Clone, Debug, Eq, PartialEq)]
pub struct ExternalLaunchRequest {
    pub argv: Vec<String>,
    pub presentation: ExternalPresentation,
}

/// The model of a [`ExternalLaunchRequest`].
#[verifier::ext_equal]
pub struct ExternalLaunchRequestView {
    pub argv: Seq<Seq<char>>,
    pub presentation: ExternalPresentation,
}

impl DeepView for ExternalLaunchRequest {
    type V = ExternalLaunchRequestView;

    open spec fn deep_view(&self) -> ExternalLaunchRequestView {
        ExternalLaunchRequestView {
            argv: self.argv.deep_view(),
            presentation: self.presentation,
        }
    }
}

/// Starts other programs.
#[derive(Clone, Debug, Eq, PartialEq)]
pub struct ExternalLauncher {
    floating_terminal: Option<Vec<String>>,
}

/// The model of a [`ExternalLauncher`].
#[verifier::ext_equal]
pub struct ExternalLauncherView {
    pub floating_terminal: Option<Seq<Seq<char>>>,
}

impl DeepView for ExternalLauncher {
    type V = ExternalLauncherView;

    closed spec fn deep_view(&self) -> ExternalLauncherView {
        ExternalLauncherView {
            floating_terminal: self.floating_terminal.deep_view(),
        }
    }
}

impl Default for ExternalLauncher {
    fn default() -> (r: Self)
        ensures
            r.deep_view() == (ExternalLauncherView { floating_terminal: None }),
    {
        ExternalLauncher { floating_terminal: None }
    }
}

/// Why a program is not started.
pub open spec fn launch_error(
    launcher: ExternalLauncherView,
    request: ExternalLaunchRequestView,
) -> Option<Seq<char>> {
    if !config::is_runnable(request.argv) {
        Some("external launch requested with an empty executable"@)
    } else if config::usable_command(launcher.floating_terminal) is None {
        Some(
            "FloatingTerminal launch requested but external.floating_terminal is not configured"@,
        )
    } else {
        None
    }
}

impl ExternalLauncher {
    /// A launcher that opens terminals with the given command.
    pub fn new(floating_terminal: Option<Vec<String>>) -> (r: Self)
        ensures
            r.deep_view() == (ExternalLauncherView {
                floating_terminal: floating_terminal.deep_view(),
            }),
    {
        ExternalLauncher { floating_terminal }
    }

    /// The whole command for a program: the terminal command followed by its own, each argument
    /// kept as it is. There is no falling back to a start without a terminal.
    pub fn compose_argv(&self, request: &ExternalLaunchRequest) -> (r: Result<Vec<String>, String>)
        ensures
            match launch_error(self.deep_view(), request.deep_view()) {
                Some(error) => r matches Err(e) && e@ == error,
                None => r matches Ok(argv) && argv.deep_view()
                    == self.deep_view().floating_terminal->0 + request.deep_view().argv,
            },
    {
        if !config::runnable(&request.argv) {
            return Err("external launch requested with an empty executable".to_owned());
        }
        match request.presentation {
            ExternalPresentation::FloatingTerminal => match &self.floating_terminal {
                Some(prefix) => if config::runnable(prefix) {
                    Ok(lists::join(prefix, &request.argv))
                } else {
                    Err(
                        "FloatingTerminal launch requested but external.floating_terminal is not configured".to_owned(),
                    )
                },
                None => Err(
                    "FloatingTerminal launch requested but external.floating_terminal is not configured".to_owned(),
                ),
            },
        }
    }
}

/// A program is started exactly where it and the terminal have names.
pub proof fn lemma_named_programs_are_started(
    launcher: ExternalLauncherView,
    request: ExternalLaunchRequestView,
)
    ensures
        launch_error(launcher, request) is None <==> {
            &&& request.argv.len() > 0 && request.argv[0].len() > 0
            &&& launcher.floating_terminal matches Some(terminal) && terminal.len() > 0
                && terminal[0].len() > 0
        },
{
}

} // verus!
