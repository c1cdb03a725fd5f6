//! The settings of the bar.
use xbar::config::{BluetoothConfig, Config, ExternalConfig};

fn command(table: &toml::Table, section: &str, name: &str) -> Option<Vec<String>> {
    let words = table.get(section)?.get(name)?.as_array()?;
    Some(
        words
            .iter()
            .map(|word| word.as_str().expect("a word").to_owned())
            .collect(),
    )
}

fn read(text: &str) -> Config {
    let table: toml::Table = toml::from_str(text).expect("a table");
    Config {
        external: ExternalConfig {
            floating_terminal: command(&table, "external", "floating_terminal"),
        },
        bluetooth: BluetoothConfig {
            manager_command: command(&table, "bluetooth", "manager_command"),
        },
    }
}

#[test]
fn manager_command_is_optional_and_validates_argv() {
    assert_eq!(Config::default().bluetooth.manager_command(), None);
    assert_eq!(
        read("[bluetooth]\nmanager_command = []")
            .bluetooth
            .manager_command(),
        None
    );
    assert_eq!(
        read("[bluetooth]\nmanager_command = [\"\", \"arg\"]")
            .bluetooth
            .manager_command(),
        None
    );
    assert_eq!(
        read("[bluetooth]\nmanager_command = [\"fake-manager\", \"--test\"]")
            .bluetooth
            .manager_command(),
        Some(vec!["fake-manager".into(), "--test".into()])
    );
    assert_eq!(BluetoothConfig::default().manager_command(), None);
}

#[test]
fn floating_terminal_is_optional_and_validates_argv_independently() {
    assert_eq!(Config::default().external.floating_terminal(), None);
    assert_eq!(
        read("[external]\nfloating_terminal = [\"terminal-test\", \"-e\"]")
            .external
            .floating_terminal(),
        Some(vec!["terminal-test".into(), "-e".into()])
    );
    assert_eq!(
        read("[external]\nfloating_terminal = []")
            .external
            .floating_terminal(),
        None
    );
    assert_eq!(
        read("[external]\nfloating_terminal = [\"\", \"-e\"]")
            .external
            .floating_terminal(),
        None
    );
    assert_eq!(
        read("[bluetooth]\nmanager_command = [\"manager-test\", \"--foo\"]")
            .bluetooth
            .manager_command(),
        Some(vec!["manager-test".into(), "--foo".into()])
    );
}
