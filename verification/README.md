# xbar

The logic of a desktop bar: the global menu, the tray, sound, network, Bluetooth, notifications,
the agenda and what agents have used.

- `src/domain` holds the state of the bar and the reducer, which takes one event after the other in.
- `src/dbus` decides on what comes over the message bus: layouts of menus and their changes, who owns
  which name, the items of the tray, reports of the usage service, what follows a change of the
  notifications.
- `src/audio.rs`, `src/calendar.rs`, `src/calendar_sensor.rs`, `src/clock.rs`, `src/config.rs` and
  `src/external.rs` are about the sound server, the calendar, the clock, the configuration and the
  programs that the bar starts.
- `src/fixture` stands in for applications and services, to try the bar with.
- `src/table.rs`, `src/lists.rs`, `src/seqs.rs`, `src/text.rs` and `src/value.rs` are what the rest is
  built on.

The functions in `src` have contracts that Verus proves; the few wrappers around calls into the standard
library and into `zbus` say in their comments what is taken on trust. What holds of the bar as a
whole is stated by the public proof functions, most of them in `src/domain/reducer/laws.rs` and
`src/domain/reducer/reports.rs`.

`app` is the ordinary Rust around it: timers, processes, files, the sound server and the buses.
