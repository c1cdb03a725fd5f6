//! The settings of the bar.
use vstd::prelude::*;

use crate::value::Value;

verus! {

/// How other programs are started.
#[derive(Clone, Debug, Eq, PartialEq)]
pub struct ExternalConfig {
    /// The command that opens a terminal in a floating window.
    pub floating_terminal: Option<Vec<String>>,
}

/// The model of a [`ExternalConfig`].
#[verifier::ext_equal]
pub struct ExternalConfigView {
    pub floating_terminal: Option<Seq<Seq<char>>>,
}

impl DeepView for ExternalConfig {
    type V = ExternalConfigView;

    open spec fn deep_view(&self) -> ExternalConfigView {
        ExternalConfigView {
            floating_terminal: self.floating_terminal.deep_view(),
        }
    }
}

impl ExternalConfigView {
    /// The model of a default [`ExternalConfig`].
    pub open spec fn initial() -> ExternalConfigView {
        ExternalConfigView {
            floating_terminal: None,
        }
    }
}

impl Default for ExternalConfig {
    fn default() -> (r: Self)
        ensures
            r.deep_view() == ExternalConfigView::initial(),
    {
        let r = ExternalConfig {
            floating_terminal: None,
        };
        assert(r.deep_view() =~= ExternalConfigView::initial());
        r
    }
}

/// How Bluetooth is managed.
#[derive(Clone, Debug, Eq, PartialEq)]
pub struct BluetoothConfig {
    /// The command that manages Bluetooth devices.
    pub manager_command: Option<Vec<String>>,
}

/// The model of a [`BluetoothConfig`].
#[verifier::ext_equal]
pub struct BluetoothConfigView {
    pub manager_command: Option<Seq<Seq<char>>>,
}

impl DeepView for BluetoothConfig {
    type V = BluetoothConfigView;

    open spec fn deep_view(&self) -> BluetoothConfigView {
        BluetoothConfigView {
            manager_command: self.manager_command.deep_view(),
        }
    }
}

impl BluetoothConfigView {
    /// The model of a default [`BluetoothConfig`].
    pub open spec fn initial() -> BluetoothConfigView {
        BluetoothConfigView {
            manager_command: None,
        }
    }
}

impl Default for BluetoothConfig {
    fn default() -> (r: Self)
        ensures
            r.deep_view() == BluetoothConfigView::initial(),
    {
        let r = BluetoothConfig {
            manager_command: None,
        };
        assert(r.deep_view() =~= BluetoothConfigView::initial());
        r
    }
}

/// The settings of the bar.
#[derive(Clone, Debug, Eq, PartialEq)]
pub struct Config {
    pub external: ExternalConfig,
    pub bluetooth: BluetoothConfig,
}

/// The model of a [`Config`].
#[verifier::ext_equal]
pub struct ConfigView {
    pub external: ExternalConfigView,
    pub bluetooth: BluetoothConfigView,
}

impl DeepView for Config {
    type V = ConfigView;

    open spec fn deep_view(&self) -> ConfigView {
        ConfigView {
            external: self.external.deep_view(),
            bluetooth: self.bluetooth.deep_view(),
        }
    }
}

impl ConfigView {
    /// The model of a default [`Config`].
    pub open spec fn initial() -> ConfigView {
        ConfigView {
            external: ExternalConfigView::initial(),
            bluetooth: BluetoothConfigView::initial(),
        }
    }
}

impl Default for Config {
    fn default() -> (r: Self)
        ensures
            r.deep_view() == ConfigView::initial(),
    {
        let r = Config {
            external: ExternalConfig::default(),
            bluetooth: BluetoothConfig::default(),
        };
        assert(r.deep_view() =~= ConfigView::initial());
        r
    }
}

/// A command that can be run: it names an executable.
pub open spec fn is_runnable(argv: Seq<Seq<char>>) -> bool {
    argv.len() > 0 && argv[0].len() > 0
}

/// Whether a command names an executable.
pub(crate) fn runnable(argv: &Vec<String>) -> (r: bool)
    ensures
        r == is_runnable(argv.deep_view()),
{
    argv.len() > 0 && !argv[0].as_str().is_empty()
}

/// A command where it is set and can be run.
pub open spec fn usable_command(command: Option<Seq<Seq<char>>>) -> Option<Seq<Seq<char>>> {
    match command {
        Some(argv) => if is_runnable(argv) {
            Some(argv)
        } else {
            None
        },
        None => None,
    }
}

fn use_command(command: &Option<Vec<String>>) -> (r: Option<Vec<String>>)
    ensures
        r.deep_view() == usable_command(command.deep_view()),
{
    match command {
        Some(argv) => if runnable(argv) {
            Some(argv.dup())
        } else {
            None
        },
        None => None,
    }
}

impl ExternalConfig {
    /// The command that opens a terminal, where it is set and can be run.
    pub fn floating_terminal(&self) -> (r: Option<Vec<String>>)
        ensures
            r.deep_view() == usable_command(self.deep_view().floating_terminal),
    {
        use_command(&self.floating_terminal)
    }
}

impl BluetoothConfig {
    /// The command that manages Bluetooth devices, where it is set and can be run.
    pub fn manager_command(&self) -> (r: Option<Vec<String>>)
        ensures
            r.deep_view() == usable_command(self.deep_view().manager_command),
    {
        use_command(&self.manager_command)
    }
}

/// A command can be used as it is where it names a program, and not at all otherwise.
pub proof fn lemma_usable_commands_name_programs(command: Option<Seq<Seq<char>>>)
    ensures
        usable_command(command) is Some ==> usable_command(command) == command,
        usable_command(command) is Some <==> (command matches Some(argv) && argv.len() > 0
            && argv[0].len() > 0),
{
}

} // verus!
