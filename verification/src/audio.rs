//! The sound server: what is asked of it and what is made of its answers.
use vstd::prelude::*;
use vstd::string::*;

use crate::domain::event::Event;
use crate::domain::state::{AudioDevice, AudioDeviceView, AudioState, AudioStateView};
use crate::lists;
use crate::text;
use crate::value::Value;

verus! {

/// The part of the sound server that changed.
#[derive(Clone, Copy, Debug, Eq, PartialEq, Structural)]
pub enum AudioFacility {
    Server,
    Sink,
    Source,
    Other,
}

impl DeepView for AudioFacility {
    type V = AudioFacility;

    open spec fn deep_view(&self) -> AudioFacility {
        *self
    }
}

impl Value for AudioFacility {
    fn same(&self, other: &Self) -> (r: bool) {
        *self == *other
    }

    fn dup(&self) -> (r: Self) {
        *self
    }
}

/// What happened to an object of the sound server.
#[derive(Clone, Copy, Debug, Eq, PartialEq, Structural)]
pub enum AudioOperation {
    New,
    Changed,
    Removed,
}

impl DeepView for AudioOperation {
    type V = AudioOperation;

    open spec fn deep_view(&self) -> AudioOperation {
        *self
    }
}

impl Value for AudioOperation {
    fn same(&self, other: &Self) -> (r: bool) {
        *self == *other
    }

    fn dup(&self) -> (r: Self) {
        *self
    }
}

/// Whether to ask for the details of an object: not of one that is gone.
pub fn refresh_detail_for(operation: Option<AudioOperation>) -> (r: bool)
    ensures
        r == (operation != Some(AudioOperation::Removed)),
{
    match operation {
        Some(AudioOperation::Removed) => false,
        _ => true,
    }
}

/// What the bar asks of the sound server.
#[derive(Clone, Debug, Eq, PartialEq)]
pub enum AudioCommand {
    SetOutputVolume(u32),
    ToggleOutputMute,
    SetInputVolume(u32),
    ToggleInputMute,
    SetDefaultOutput(String),
    SetDefaultInput(String),
}

/// The model of a [`AudioCommand`].
#[verifier::ext_equal]
pub enum AudioCommandView {
    SetOutputVolume(u32),
    ToggleOutputMute,
    SetInputVolume(u32),
    ToggleInputMute,
    SetDefaultOutput(Seq<char>),
    SetDefaultInput(Seq<char>),
}

impl DeepView for AudioCommand {
    type V = AudioCommandView;

    open spec fn deep_view(&self) -> AudioCommandView {
        match self {
            AudioCommand::SetOutputVolume(a) => AudioCommandView::SetOutputVolume(*a),
            AudioCommand::ToggleOutputMute => AudioCommandView::ToggleOutputMute,
            AudioCommand::SetInputVolume(a) => AudioCommandView::SetInputVolume(*a),
            AudioCommand::ToggleInputMute => AudioCommandView::ToggleInputMute,
            AudioCommand::SetDefaultOutput(a) => AudioCommandView::SetDefaultOutput(a.deep_view()),
            AudioCommand::SetDefaultInput(a) => AudioCommandView::SetDefaultInput(a.deep_view()),
        }
    }
}

/// The percentage, or 100 where it is more.
pub open spec fn capped(percent: u32) -> u32 {
    if percent <= 100 {
        percent
    } else {
        100
    }
}

fn cap(percent: u32) -> (r: u32)
    ensures
        r == capped(percent),
{
    if percent <= 100 {
        percent
    } else {
        100
    }
}

/// A number of 32 bits, the low byte first.
pub open spec fn le_bytes(n: u32) -> Seq<u8> {
    seq![
        (n % 256) as u8,
        (n / 256 % 256) as u8,
        (n / 65_536 % 256) as u8,
        (n / 16_777_216) as u8,
    ]
}

/// The number of four bytes, the low byte first.
pub open spec fn le_number(b: Seq<u8>) -> int {
    b[0] + 256 * b[1] + 65_536 * b[2] + 16_777_216 * b[3]
}

/// A command with a name in it: its number, the length of the name in two bytes, and the name. A name
/// that is too long for that is not sent.
pub open spec fn name_bytes(opcode: u8, name: Seq<char>) -> Option<Seq<u8>> {
    let bytes = vstd::utf8::encode_utf8(name);
    if bytes.len() > 65_535 {
        None
    } else {
        Some(
            seq![opcode, (bytes.len() % 256) as u8, (bytes.len() / 256) as u8] + bytes,
        )
    }
}

/// A command as it is handed to the thread that talks to the sound server.
pub open spec fn command_bytes(command: AudioCommandView) -> Option<Seq<u8>> {
    match command {
        AudioCommandView::SetOutputVolume(percent) => Some(seq![1u8] + le_bytes(capped(percent))),
        AudioCommandView::ToggleOutputMute => Some(seq![2u8]),
        AudioCommandView::SetInputVolume(percent) => Some(seq![3u8] + le_bytes(capped(percent))),
        AudioCommandView::ToggleInputMute => Some(seq![4u8]),
        AudioCommandView::SetDefaultOutput(name) => name_bytes(5, name),
        AudioCommandView::SetDefaultInput(name) => name_bytes(6, name),
    }
}

fn encode_value(opcode: u8, percent: u32) -> (r: Vec<u8>)
    ensures
        r@ == seq![opcode] + le_bytes(capped(percent)),
{
    let n: u32 = cap(percent);
    let mut bytes: Vec<u8> = Vec::new();
    bytes.push(opcode);
    bytes.push((n % 256) as u8);
    bytes.push((n / 256 % 256) as u8);
    bytes.push((n / 65_536 % 256) as u8);
    bytes.push((n / 16_777_216) as u8);
    assert(bytes@ =~= seq![opcode] + le_bytes(n));
    bytes
}

fn encode_name(opcode: u8, name: &String) -> (r: Option<Vec<u8>>)
    ensures
        match name_bytes(opcode, name@) {
            Some(b) => r is Some && r->0@ == b,
            None => r is None,
        },
{
    let bytes = name.as_str().as_bytes();
    let n: usize = bytes.len();
    if n > 65_535 {
        return None;
    }
    let mut command: Vec<u8> = Vec::new();
    command.push(opcode);
    command.push((n % 256) as u8);
    command.push((n / 256) as u8);
    let ghost head = command@;
    command.extend_from_slice(bytes);
    assert(command@ =~= head + bytes@);
    assert(head =~= seq![opcode, (n % 256) as u8, (n / 256) as u8]);
    Some(command)
}

fn encode_toggle(opcode: u8) -> (r: Vec<u8>)
    ensures
        r@ == seq![opcode],
{
    let mut bytes: Vec<u8> = Vec::new();
    bytes.push(opcode);
    assert(bytes@ =~= seq![opcode]);
    bytes
}

/// A command as it is handed to the thread that talks to the sound server.
pub fn encode_command(command: &AudioCommand) -> (r: Option<Vec<u8>>)
    ensures
        match command_bytes(command.deep_view()) {
            Some(b) => r is Some && r->0@ == b,
            None => r is None,
        },
{
    match command {
        AudioCommand::SetOutputVolume(percent) => Some(encode_value(1, *percent)),
        AudioCommand::ToggleOutputMute => Some(encode_toggle(2)),
        AudioCommand::SetInputVolume(percent) => Some(encode_value(3, *percent)),
        AudioCommand::ToggleInputMute => Some(encode_toggle(4)),
        AudioCommand::SetDefaultOutput(name) => encode_name(5, name),
        AudioCommand::SetDefaultInput(name) => encode_name(6, name),
    }
}

/// Text from its bytes in UTF-8, by `String::from_utf8`: the text that is encoded so, or nothing
/// where the bytes are no UTF-8.
#[verifier::external_body]
fn text_from_utf8(bytes: Vec<u8>) -> (r: Option<String>)
    ensures
        match r {
            Some(s) => vstd::utf8::encode_utf8(s@) == bytes@,
            None => !vstd::utf8::valid_utf8(bytes@),
        },
{
    String::from_utf8(bytes).ok()
}

/// The text whose bytes in UTF-8 are given.
pub open spec fn text_of(bytes: Seq<u8>) -> Option<Seq<char>> {
    if vstd::utf8::valid_utf8(bytes) {
        Some(vstd::utf8::decode_utf8(bytes))
    } else {
        None
    }
}

/// One command at the start of the bytes, if there is one, and how many bytes it takes. A byte that
/// starts no command takes itself; a command that is cut short takes all that is left.
pub open spec fn first_command(b: Seq<u8>) -> (Option<AudioCommandView>, int)
    recommends
        b.len() > 0,
{
    if b[0] == 1 || b[0] == 3 {
        if b.len() < 5 {
            (None, b.len() as int)
        } else {
            let percent = le_number(b.subrange(1, 5)) as u32;
            (
                Some(
                    if b[0] == 1 {
                        AudioCommandView::SetOutputVolume(percent)
                    } else {
                        AudioCommandView::SetInputVolume(percent)
                    },
                ),
                5,
            )
        }
    } else if b[0] == 2 {
        (Some(AudioCommandView::ToggleOutputMute), 1)
    } else if b[0] == 4 {
        (Some(AudioCommandView::ToggleInputMute), 1)
    } else if b[0] == 5 || b[0] == 6 {
        if b.len() < 3 || b.len() < 3 + b[1] + 256 * b[2] {
            (None, b.len() as int)
        } else {
            let end = 3 + b[1] + 256 * b[2];
            (
                match text_of(b.subrange(3, end)) {
                    Some(name) => Some(
                        if b[0] == 5 {
                            AudioCommandView::SetDefaultOutput(name)
                        } else {
                            AudioCommandView::SetDefaultInput(name)
                        },
                    ),
                    None => None,
                },
                end,
            )
        }
    } else {
        (None, 1)
    }
}

/// The commands in the bytes, in order.
pub open spec fn commands_in(b: Seq<u8>) -> Seq<AudioCommandView>
    decreases b.len(),
{
    if b.len() == 0 {
        Seq::empty()
    } else {
        let (command, size) = first_command(b);
        if size < 1 || size > b.len() {
            Seq::empty()
        } else {
            let rest = commands_in(b.skip(size));
            match command {
                Some(c) => seq![c] + rest,
                None => rest,
            }
        }
    }
}

fn copy_part(bytes: &[u8], from: usize, to: usize) -> (r: Vec<u8>)
    requires
        from <= to <= bytes.len(),
    ensures
        r@ == bytes@.subrange(from as int, to as int),
{
    let mut part: Vec<u8> = Vec::new();
    let mut i: usize = from;
    while i < to
        invariant
            from <= i <= to <= bytes.len(),
            part@ =~= bytes@.subrange(from as int, i as int),
        decreases to - i,
    {
        part.push(bytes[i]);
        i += 1;
    }
    part
}

fn read_first(bytes: &[u8], from: usize) -> (r: (Option<AudioCommand>, usize))
    requires
        from < bytes.len(),
    ensures
        (r.0.deep_view(), r.1 as int) == first_command(bytes@.skip(from as int)),
        1 <= r.1 <= bytes.len() - from,
{
    let ghost b = bytes@.skip(from as int);
    let n: usize = bytes.len() - from;
    let opcode = bytes[from];
    assert(opcode == b[0]);
    if opcode == 1 || opcode == 3 {
        if n < 5 {
            return (None, n);
        }
        assert(b.subrange(1, 5) =~= bytes@.subrange(from + 1, from + 5));
        let percent: u32 = bytes[from + 1] as u32 + 256 * bytes[from + 2] as u32 + 65_536 * bytes[from
            + 3] as u32 + 16_777_216 * bytes[from + 4] as u32;
        if opcode == 1 {
            (Some(AudioCommand::SetOutputVolume(percent)), 5)
        } else {
            (Some(AudioCommand::SetInputVolume(percent)), 5)
        }
    } else if opcode == 2 {
        (Some(AudioCommand::ToggleOutputMute), 1)
    } else if opcode == 4 {
        (Some(AudioCommand::ToggleInputMute), 1)
    } else if opcode == 5 || opcode == 6 {
        if n < 3 {
            return (None, n);
        }
        let length: usize = bytes[from + 1] as usize + 256 * bytes[from + 2] as usize;
        if n < 3 + length {
            return (None, n);
        }
        let part = copy_part(bytes, from + 3, from + 3 + length);
        assert(part@ =~= b.subrange(3, 3 + length));
        let command = match read_text(part) {
            Some(name) => if opcode == 5 {
                Some(AudioCommand::SetDefaultOutput(name))
            } else {
                Some(AudioCommand::SetDefaultInput(name))
            },
            None => None,
        };
        (command, 3 + length)
    } else {
        (None, 1)
    }
}

fn read_text(bytes: Vec<u8>) -> (r: Option<String>)
    ensures
        r.deep_view() == text_of(bytes@),
{
    let ghost b = bytes@;
    let r = text_from_utf8(bytes);
    proof {
        if r is Some {
            vstd::utf8::encode_utf8_valid_utf8(r->0@);
            vstd::utf8::encode_utf8_decode_utf8(r->0@);
        }
    }
    r
}

/// The commands in the bytes, in order.
pub fn decode_commands(bytes: &[u8]) -> (r: Vec<AudioCommand>)
    ensures
        r.deep_view() == commands_in(bytes@),
{
    let mut commands: Vec<AudioCommand> = Vec::new();
    let mut from: usize = 0;
    assert(bytes@.skip(0) =~= bytes@);
    assert(commands.deep_view() + commands_in(bytes@) =~= commands_in(bytes@));
    while from < bytes.len()
        invariant
            from <= bytes.len(),
            commands.deep_view() + commands_in(bytes@.skip(from as int)) == commands_in(bytes@),
        decreases bytes.len() - from,
    {
        let ghost before = commands.deep_view();
        let ghost rest = bytes@.skip(from as int);
        let (command, size) = read_first(bytes, from);
        assert(rest.skip(size as int) =~= bytes@.skip(from + size));
        match command {
            Some(c) => {
                lists::push(&mut commands, c);
                assert(before + (seq![c.deep_view()] + commands_in(rest.skip(size as int)))
                    =~= before.push(c.deep_view()) + commands_in(rest.skip(size as int)));
            },
            None => {},
        }
        from += size;
    }
    assert(bytes@.skip(from as int) =~= Seq::<u8>::empty());
    assert(commands.deep_view() + Seq::<AudioCommandView>::empty() =~= commands.deep_view());
    commands
}

/// A command that is read back is the one that was handed over, with the percentage capped.
pub open spec fn received(command: AudioCommandView) -> AudioCommandView {
    match command {
        AudioCommandView::SetOutputVolume(percent) => AudioCommandView::SetOutputVolume(
            capped(percent),
        ),
        AudioCommandView::SetInputVolume(percent) => AudioCommandView::SetInputVolume(
            capped(percent),
        ),
        _ => command,
    }
}

/// A command that was handed over is read back first, and then whatever follows it.
pub proof fn lemma_command_round_trip(command: AudioCommandView, rest: Seq<u8>)
    requires
        command_bytes(command) is Some,
    ensures
        commands_in(command_bytes(command)->0 + rest) == seq![received(command)] + commands_in(rest),
{
    let bytes = command_bytes(command)->0;
    let b = bytes + rest;
    match command {
        AudioCommandView::SetOutputVolume(percent) => {
            assert(b.subrange(1, 5) =~= le_bytes(capped(percent)));
        },
        AudioCommandView::SetInputVolume(percent) => {
            assert(b.subrange(1, 5) =~= le_bytes(capped(percent)));
        },
        AudioCommandView::SetDefaultOutput(name) => {
            let text = vstd::utf8::encode_utf8(name);
            assert(b.subrange(3, 3 + text.len() as int) =~= text);
            vstd::utf8::encode_utf8_valid_utf8(name);
            vstd::utf8::encode_utf8_decode_utf8(name);
        },
        AudioCommandView::SetDefaultInput(name) => {
            let text = vstd::utf8::encode_utf8(name);
            assert(b.subrange(3, 3 + text.len() as int) =~= text);
            vstd::utf8::encode_utf8_valid_utf8(name);
            vstd::utf8::encode_utf8_decode_utf8(name);
        },
        _ => {},
    }
    assert(first_command(b) == (Some(received(command)), bytes.len() as int));
    assert(b.skip(bytes.len() as int) =~= rest);
}

/// The percentage that a volume of the sound server comes to, rounded.
pub open spec fn volume_percent(volume: int) -> int {
    (volume * 100 + 32_768) / 65_536
}

/// The percentage that a volume of the sound server comes to, rounded.
pub fn percent_of_volume(volume: u32) -> (r: u32)
    ensures
        r == volume_percent(volume as int),
{
    ((volume as u64 * 100 + 32_768) / 65_536) as u32
}

/// The volume of the sound server for a percentage, which is capped.
pub open spec fn percent_volume(percent: u32) -> int {
    capped(percent) as int * 65_536 / 100
}

/// The volume of the sound server for a percentage, which is capped.
pub fn volume_of_percent(percent: u32) -> (r: u32)
    ensures
        r == percent_volume(percent),
{
    ((cap(percent) as u64 * 65_536) / 100) as u32
}

/// A volume that is set is reported as the percentage that was asked for.
pub proof fn lemma_volume_round_trip(percent: u32)
    ensures
        volume_percent(percent_volume(percent)) == capped(percent),
{
}

/// What is to be asked of the sound server.
#[derive(Clone, Debug, Eq, PartialEq)]
pub enum AudioRequest {
    ListSinks,
    ListSources,
    ServerInfo,
    SinkDetail(String),
    SourceDetail(String),
}

/// The model of a [`AudioRequest`].
#[verifier::ext_equal]
pub enum AudioRequestView {
    ListSinks,
    ListSources,
    ServerInfo,
    SinkDetail(Seq<char>),
    SourceDetail(Seq<char>),
}

impl DeepView for AudioRequest {
    type V = AudioRequestView;

    open spec fn deep_view(&self) -> AudioRequestView {
        match self {
            AudioRequest::ListSinks => AudioRequestView::ListSinks,
            AudioRequest::ListSources => AudioRequestView::ListSources,
            AudioRequest::ServerInfo => AudioRequestView::ServerInfo,
            AudioRequest::SinkDetail(a) => AudioRequestView::SinkDetail(a.deep_view()),
            AudioRequest::SourceDetail(a) => AudioRequestView::SourceDetail(a.deep_view()),
        }
    }
}

/// What is to be done on the sound server.
#[derive(Clone, Debug, Eq, PartialEq)]
pub enum AudioCall {
    SetSinkVolume { name: String, channels: u8, volume: u32 },
    SetSinkMute { name: String, muted: bool },
    SetSourceVolume { name: String, channels: u8, volume: u32 },
    SetSourceMute { name: String, muted: bool },
    SetDefaultSink { name: String },
    SetDefaultSource { name: String },
}

/// The model of a [`AudioCall`].
#[verifier::ext_equal]
pub enum AudioCallView {
    SetSinkVolume { name: Seq<char>, channels: u8, volume: u32 },
    SetSinkMute { name: Seq<char>, muted: bool },
    SetSourceVolume { name: Seq<char>, channels: u8, volume: u32 },
    SetSourceMute { name: Seq<char>, muted: bool },
    SetDefaultSink { name: Seq<char> },
    SetDefaultSource { name: Seq<char> },
}

impl DeepView for AudioCall {
    type V = AudioCallView;

    open spec fn deep_view(&self) -> AudioCallView {
        match self {
            AudioCall::SetSinkVolume { name, channels, volume } => AudioCallView::SetSinkVolume { name: name.deep_view(), channels: *channels, volume: *volume },
            AudioCall::SetSinkMute { name, muted } => AudioCallView::SetSinkMute { name: name.deep_view(), muted: *muted },
            AudioCall::SetSourceVolume { name, channels, volume } => AudioCallView::SetSourceVolume { name: name.deep_view(), channels: *channels, volume: *volume },
            AudioCall::SetSourceMute { name, muted } => AudioCallView::SetSourceMute { name: name.deep_view(), muted: *muted },
            AudioCall::SetDefaultSink { name } => AudioCallView::SetDefaultSink { name: name.deep_view() },
            AudioCall::SetDefaultSource { name } => AudioCallView::SetDefaultSource { name: name.deep_view() },
        }
    }
}

/// What the sound server tells of a sink or a source.
#[derive(Clone, Debug, Eq, PartialEq)]
pub struct AudioDetail {
    pub name: Option<String>,
    pub description: Option<String>,
    pub channels: u8,
    pub muted: bool,
    /// The average volume of the channels.
    pub volume: u32,
}

/// The model of a [`AudioDetail`].
#[verifier::ext_equal]
pub struct AudioDetailView {
    pub name: Option<Seq<char>>,
    pub description: Option<Seq<char>>,
    pub channels: u8,
    pub muted: bool,
    pub volume: u32,
}

impl DeepView for AudioDetail {
    type V = AudioDetailView;

    open spec fn deep_view(&self) -> AudioDetailView {
        AudioDetailView {
            name: self.name.deep_view(),
            description: self.description.deep_view(),
            channels: self.channels,
            muted: self.muted,
            volume: self.volume,
        }
    }
}

/// What is known of the sound server, and what has to be asked of it.
#[derive(Clone, Debug, PartialEq)]
pub struct AudioMonitor {
    /// The server has to be asked about itself.
    pub server: bool,
    /// The default sink has to be asked about.
    pub sink: bool,
    /// The default source has to be asked about.
    pub source: bool,
    /// The sinks have to be listed.
    pub inventory_sinks: bool,
    /// The sources have to be listed.
    pub inventory_sources: bool,
    pub default_sink: Option<String>,
    pub default_source: Option<String>,
    pub channels: u8,
    pub source_channels: u8,
    pub muted: bool,
    pub source_muted: bool,
    pub volume: u32,
    pub source_volume: u32,
    pub output_description: Option<String>,
    pub input_description: Option<String>,
    pub outputs: Vec<AudioDevice>,
    pub inputs: Vec<AudioDevice>,
    /// No list of sinks is under way.
    pub inventory_sinks_done: bool,
    /// No list of sources is under way.
    pub inventory_sources_done: bool,
}

/// The model of a [`AudioMonitor`].
#[verifier::ext_equal]
pub struct AudioMonitorView {
    pub server: bool,
    pub sink: bool,
    pub source: bool,
    pub inventory_sinks: bool,
    pub inventory_sources: bool,
    pub default_sink: Option<Seq<char>>,
    pub default_source: Option<Seq<char>>,
    pub channels: u8,
    pub source_channels: u8,
    pub muted: bool,
    pub source_muted: bool,
    pub volume: u32,
    pub source_volume: u32,
    pub output_description: Option<Seq<char>>,
    pub input_description: Option<Seq<char>>,
    pub outputs: Seq<AudioDeviceView>,
    pub inputs: Seq<AudioDeviceView>,
    pub inventory_sinks_done: bool,
    pub inventory_sources_done: bool,
}

impl DeepView for AudioMonitor {
    type V = AudioMonitorView;

    open spec fn deep_view(&self) -> AudioMonitorView {
        AudioMonitorView {
            server: self.server,
            sink: self.sink,
            source: self.source,
            inventory_sinks: self.inventory_sinks,
            inventory_sources: self.inventory_sources,
            default_sink: self.default_sink.deep_view(),
            default_source: self.default_source.deep_view(),
            channels: self.channels,
            source_channels: self.source_channels,
            muted: self.muted,
            source_muted: self.source_muted,
            volume: self.volume,
            source_volume: self.source_volume,
            output_description: self.output_description.deep_view(),
            input_description: self.input_description.deep_view(),
            outputs: self.outputs.deep_view(),
            inputs: self.inputs.deep_view(),
            inventory_sinks_done: self.inventory_sinks_done,
            inventory_sources_done: self.inventory_sources_done,
        }
    }
}

impl AudioMonitorView {
    /// Nothing is known yet, and no list is under way.
    pub open spec fn initial() -> AudioMonitorView {
        AudioMonitorView {
            server: false,
            sink: false,
            source: false,
            inventory_sinks: false,
            inventory_sources: false,
            default_sink: None,
            default_source: None,
            channels: 0,
            source_channels: 0,
            muted: false,
            source_muted: false,
            volume: 0,
            source_volume: 0,
            output_description: None,
            input_description: None,
            outputs: Seq::empty(),
            inputs: Seq::empty(),
            inventory_sinks_done: true,
            inventory_sources_done: true,
        }
    }

    /// Something changed on the sound server.
    pub open spec fn changed(self, facility: AudioFacility, operation: Option<AudioOperation>) -> AudioMonitorView {
        let detail = operation != Some(AudioOperation::Removed);
        match facility {
            AudioFacility::Server => AudioMonitorView { server: true, ..self },
            AudioFacility::Sink => AudioMonitorView {
                inventory_sinks: true,
                sink: self.sink || detail,
                ..self
            },
            AudioFacility::Source => AudioMonitorView {
                inventory_sources: true,
                source: self.source || detail,
                ..self
            },
            AudioFacility::Other => self,
        }
    }

    /// The server has told about itself. A source that only listens to a sink is no default source.
    pub open spec fn server_told(self, sink: Option<Seq<char>>, source: Option<Seq<char>>) -> AudioMonitorView {
        AudioMonitorView {
            default_sink: sink,
            default_source: match source {
                Some(name) => if text::is_suffix(name, ".monitor"@) {
                    None
                } else {
                    Some(name)
                },
                None => None,
            },
            sink: true,
            source: true,
            inventory_sinks: true,
            inventory_sources: true,
            ..self
        }
    }

    /// The sound server is not usable: its default sink has to be asked about and there is none.
    pub open spec fn is_stuck(self) -> bool {
        self.sink && self.default_sink is None
    }

    /// What has to be asked, in order. Without a default sink its details and those of the source
    /// are not asked.
    pub open spec fn requests(self) -> Seq<AudioRequestView> {
        (if self.inventory_sinks {
            seq![AudioRequestView::ListSinks]
        } else {
            Seq::empty()
        }) + (if self.inventory_sources {
            seq![AudioRequestView::ListSources]
        } else {
            Seq::empty()
        }) + (if self.server {
            seq![AudioRequestView::ServerInfo]
        } else {
            Seq::empty()
        }) + (match self.default_sink {
            Some(name) => if self.sink {
                seq![AudioRequestView::SinkDetail(name)]
            } else {
                Seq::empty()
            },
            None => Seq::empty(),
        }) + (match self.default_source {
            Some(name) => if self.source && !self.is_stuck() {
                seq![AudioRequestView::SourceDetail(name)]
            } else {
                Seq::empty()
            },
            None => Seq::empty(),
        })
    }

    /// Everything has been asked that had to be asked; a list that is asked for starts empty.
    pub open spec fn asked(self) -> AudioMonitorView {
        AudioMonitorView {
            inventory_sinks: false,
            inventory_sinks_done: self.inventory_sinks_done && !self.inventory_sinks,
            outputs: if self.inventory_sinks {
                Seq::empty()
            } else {
                self.outputs
            },
            inventory_sources: false,
            inventory_sources_done: self.inventory_sources_done && !self.inventory_sources,
            inputs: if self.inventory_sources {
                Seq::empty()
            } else {
                self.inputs
            },
            server: false,
            sink: false,
            source: self.source && self.is_stuck(),
            ..self
        }
    }

    /// The sound server as the bar shows it.
    pub open spec fn snapshot(self) -> AudioStateView {
        AudioStateView {
            available: true,
            default_output: self.default_sink,
            volume_percent: self.volume,
            muted: self.muted,
            default_input: self.default_source,
            input_description: self.input_description,
            input_volume_percent: self.source_volume,
            input_muted: self.source_muted,
            output_description: self.output_description,
            outputs: self.outputs,
            inputs: self.inputs,
        }
    }

    /// The default sink has told about itself.
    pub open spec fn sink_told(self, detail: AudioDetailView) -> AudioMonitorView {
        AudioMonitorView {
            channels: detail.channels,
            muted: detail.muted,
            volume: volume_percent(detail.volume as int) as u32,
            output_description: detail.description,
            ..self
        }
    }

    /// The default source has told about itself.
    pub open spec fn source_told(self, detail: AudioDetailView) -> AudioMonitorView {
        AudioMonitorView {
            source_channels: detail.channels,
            source_muted: detail.muted,
            source_volume: volume_percent(detail.volume as int) as u32,
            input_description: detail.description,
            ..self
        }
    }

    /// What a command comes to. Without a default sink or source there is nothing to do to it.
    pub open spec fn call_for(self, command: AudioCommandView) -> Option<AudioCallView> {
        match command {
            AudioCommandView::SetOutputVolume(percent) => match self.default_sink {
                Some(name) => Some(
                    AudioCallView::SetSinkVolume {
                        name,
                        channels: at_least_one(self.channels),
                        volume: percent_volume(percent) as u32,
                    },
                ),
                None => None,
            },
            AudioCommandView::ToggleOutputMute => match self.default_sink {
                Some(name) => Some(AudioCallView::SetSinkMute { name, muted: !self.muted }),
                None => None,
            },
            AudioCommandView::SetInputVolume(percent) => match self.default_source {
                Some(name) => Some(
                    AudioCallView::SetSourceVolume {
                        name,
                        channels: at_least_one(self.source_channels),
                        volume: percent_volume(percent) as u32,
                    },
                ),
                None => None,
            },
            AudioCommandView::ToggleInputMute => match self.default_source {
                Some(name) => Some(
                    AudioCallView::SetSourceMute { name, muted: !self.source_muted },
                ),
                None => None,
            },
            AudioCommandView::SetDefaultOutput(name) => Some(AudioCallView::SetDefaultSink { name }),
            AudioCommandView::SetDefaultInput(name) => Some(
                AudioCallView::SetDefaultSource { name },
            ),
        }
    }
}

/// The number of channels, taken for one where none is known.
pub open spec fn at_least_one(channels: u8) -> u8 {
    if channels == 0 {
        1
    } else {
        channels
    }
}

fn some_channels(channels: u8) -> (r: u8)
    ensures
        r == at_least_one(channels),
{
    if channels == 0 {
        1
    } else {
        channels
    }
}

/// A device by its name, which also stands in for a missing description.
pub open spec fn device_of(name: Seq<char>, description: Option<Seq<char>>) -> AudioDeviceView {
    AudioDeviceView {
        name,
        display_name: match description {
            Some(text) => text,
            None => name,
        },
    }
}

fn make_device(name: &String, description: &Option<String>) -> (r: AudioDevice)
    ensures
        r.deep_view() == device_of(name@, description.deep_view()),
{
    let display_name = match description {
        Some(text) => text.dup(),
        None => name.dup(),
    };
    AudioDevice { name: name.dup(), display_name }
}

impl Default for AudioMonitor {
    fn default() -> (r: Self)
        ensures
            r.deep_view() == AudioMonitorView::initial(),
    {
        let r = AudioMonitor {
            server: false,
            sink: false,
            source: false,
            inventory_sinks: false,
            inventory_sources: false,
            default_sink: None,
            default_source: None,
            channels: 0,
            source_channels: 0,
            muted: false,
            source_muted: false,
            volume: 0,
            source_volume: 0,
            output_description: None,
            input_description: None,
            outputs: Vec::new(),
            inputs: Vec::new(),
            inventory_sinks_done: true,
            inventory_sources_done: true,
        };
        assert(r.deep_view() =~= AudioMonitorView::initial());
        r
    }
}

impl AudioMonitor {
    /// Takes note that something changed on the sound server.
    pub fn subscription(&mut self, facility: AudioFacility, operation: Option<AudioOperation>)
        ensures
            final(self).deep_view() == old(self).deep_view().changed(facility, operation),
    {
        match facility {
            AudioFacility::Server => {
                self.server = true;
            },
            AudioFacility::Sink => {
                self.inventory_sinks = true;
                if refresh_detail_for(operation) {
                    self.sink = true;
                }
            },
            AudioFacility::Source => {
                self.inventory_sources = true;
                if refresh_detail_for(operation) {
                    self.source = true;
                }
            },
            AudioFacility::Other => {},
        }
    }

    /// Takes in what the server tells about itself.
    pub fn server_info(&mut self, default_sink: Option<String>, default_source: Option<String>)
        ensures
            final(self).deep_view() == old(self).deep_view().server_told(
                default_sink.deep_view(),
                default_source.deep_view(),
            ),
    {
        self.default_sink = default_sink;
        self.default_source =
        match default_source {
            Some(name) => if text::ends_with(name.as_str(), ".monitor") {
                None
            } else {
                Some(name)
            },
            None => None,
        };
        self.sink = true;
        self.source = true;
        self.inventory_sinks = true;
        self.inventory_sources = true;
    }

    fn pending_requests(&self) -> (r: Vec<AudioRequest>)
        ensures
            r.deep_view() == self.deep_view().requests(),
    {
        let mut requests: Vec<AudioRequest> = Vec::new();
        if self.inventory_sinks {
            lists::push(&mut requests, AudioRequest::ListSinks);
        }
        if self.inventory_sources {
            lists::push(&mut requests, AudioRequest::ListSources);
        }
        if self.server {
            lists::push(&mut requests, AudioRequest::ServerInfo);
        }
        let stuck = self.sink && self.default_sink.is_none();
        match &self.default_sink {
            Some(name) => {
                if self.sink {
                    lists::push(&mut requests, AudioRequest::SinkDetail(name.dup()));
                }
            },
            None => {},
        }
        match &self.default_source {
            Some(name) => {
                if self.source && !stuck {
                    lists::push(&mut requests, AudioRequest::SourceDetail(name.dup()));
                }
            },
            None => {},
        }
        assert(requests.deep_view() =~= self.deep_view().requests());
        requests
    }

    fn mark_asked(&mut self)
        ensures
            final(self).deep_view() == old(self).deep_view().asked(),
    {
        let stuck = self.sink && self.default_sink.is_none();
        if self.inventory_sinks {
            self.inventory_sinks_done = false;
            self.outputs = Vec::new();
            assert(self.outputs.deep_view() =~= Seq::<AudioDeviceView>::empty());
        }
        if self.inventory_sources {
            self.inventory_sources_done = false;
            self.inputs = Vec::new();
            assert(self.inputs.deep_view() =~= Seq::<AudioDeviceView>::empty());
        }
        self.inventory_sinks = false;
        self.inventory_sources = false;
        self.server = false;
        self.sink = false;
        self.source = self.source && stuck;
    }

    /// Hands out what has to be asked of the sound server, and whether it is unusable. Where it is,
    /// no command is to be carried out either until it is asked again.
    pub fn take_requests(&mut self) -> (r: (Vec<AudioRequest>, bool))
        ensures
            final(self).deep_view() == old(self).deep_view().asked(),
            r.0.deep_view() == old(self).deep_view().requests(),
            r.1 == old(self).deep_view().is_stuck(),
    {
        let requests = self.pending_requests();
        let stuck = self.sink && self.default_sink.is_none();
        self.mark_asked();
        (requests, stuck)
    }

    /// Takes in a sink of the list that was asked for.
    pub fn sink_listed(&mut self, name: Option<String>, description: Option<String>)
        ensures
            final(self).deep_view() == (AudioMonitorView {
                outputs: match name.deep_view() {
                    Some(n) => old(self).deep_view().outputs.push(
                        device_of(n, description.deep_view()),
                    ),
                    None => old(self).deep_view().outputs,
                },
                ..old(self).deep_view()
            }),
    {
        match &name {
            Some(n) => {
                lists::push(&mut self.outputs, make_device(n, &description));
            },
            None => {},
        }
    }

    /// Takes in a source of the list that was asked for. A source that only listens to a sink is left
    /// out.
    pub fn source_listed(
        &mut self,
        monitor: bool,
        name: Option<String>,
        description: Option<String>,
    )
        ensures
            final(self).deep_view() == (AudioMonitorView {
                inputs: match name.deep_view() {
                    Some(n) => if monitor {
                        old(self).deep_view().inputs
                    } else {
                        old(self).deep_view().inputs.push(device_of(n, description.deep_view()))
                    },
                    None => old(self).deep_view().inputs,
                },
                ..old(self).deep_view()
            }),
    {
        if monitor {
            return ;
        }
        match &name {
            Some(n) => {
                lists::push(&mut self.inputs, make_device(n, &description));
            },
            None => {},
        }
    }

    fn inventory(&self) -> (r: (Vec<AudioDevice>, Vec<AudioDevice>))
        ensures
            r.0.deep_view() == self.deep_view().outputs,
            r.1.deep_view() == self.deep_view().inputs,
    {
        (self.outputs.dup(), self.inputs.dup())
    }

    /// Takes note that the list of sinks is at its end, and reports the devices unless the sources are
    /// still being listed.
    pub fn sinks_end(&mut self) -> (r: Option<Event>)
        ensures
            final(self).deep_view() == (AudioMonitorView {
                inventory_sinks_done: true,
                ..old(self).deep_view()
            }),
            old(self).deep_view().inventory_sources_done ==> (r matches Some(
                Event::AudioInventoryReceived { outputs, inputs },
            ) && outputs.deep_view() == old(self).deep_view().outputs && inputs.deep_view() == old(
                self,
            ).deep_view().inputs),
            !old(self).deep_view().inventory_sources_done ==> r is None,
    {
        self.inventory_sinks_done = true;
        if !self.inventory_sources_done {
            return None;
        }
        let (outputs, inputs) = self.inventory();
        Some(Event::AudioInventoryReceived { outputs, inputs })
    }

    /// Takes note that the list of sources is at its end, and reports the devices unless the sinks are
    /// still being listed.
    pub fn sources_end(&mut self) -> (r: Option<Event>)
        ensures
            final(self).deep_view() == (AudioMonitorView {
                inventory_sources_done: true,
                ..old(self).deep_view()
            }),
            old(self).deep_view().inventory_sinks_done ==> (r matches Some(
                Event::AudioInventoryReceived { outputs, inputs },
            ) && outputs.deep_view() == old(self).deep_view().outputs && inputs.deep_view() == old(
                self,
            ).deep_view().inputs),
            !old(self).deep_view().inventory_sinks_done ==> r is None,
    {
        self.inventory_sources_done = true;
        if !self.inventory_sinks_done {
            return None;
        }
        let (outputs, inputs) = self.inventory();
        Some(Event::AudioInventoryReceived { outputs, inputs })
    }

    fn snapshot(&self) -> (r: AudioState)
        ensures
            r.deep_view() == self.deep_view().snapshot(),
    {
        AudioState {
            available: true,
            default_output: self.default_sink.dup(),
            volume_percent: self.volume,
            muted: self.muted,
            default_input: self.default_source.dup(),
            input_description: self.input_description.dup(),
            input_volume_percent: self.source_volume,
            input_muted: self.source_muted,
            output_description: self.output_description.dup(),
            outputs: self.outputs.dup(),
            inputs: self.inputs.dup(),
        }
    }

    fn set_sink_detail(&mut self, detail: &AudioDetail)
        ensures
            final(self).deep_view() == old(self).deep_view().sink_told(detail.deep_view()),
    {
        self.channels = detail.channels;
        self.muted = detail.muted;
        self.volume = percent_of_volume(detail.volume);
        self.output_description = detail.description.dup();
    }

    fn set_source_detail(&mut self, detail: &AudioDetail)
        ensures
            final(self).deep_view() == old(self).deep_view().source_told(detail.deep_view()),
    {
        self.source_channels = detail.channels;
        self.source_muted = detail.muted;
        self.source_volume = percent_of_volume(detail.volume);
        self.input_description = detail.description.dup();
    }

    /// Takes in what the default sink tells about itself, and reports it under the name that it has.
    pub fn sink_detail(&mut self, detail: AudioDetail) -> (r: Event)
        ensures
            final(self).deep_view() == old(self).deep_view().sink_told(detail.deep_view()),
            r matches Event::AudioSnapshotReceived(audio) && audio.deep_view() == (AudioStateView {
                default_output: detail.deep_view().name,
                ..final(self).deep_view().snapshot()
            }),
    {
        self.set_sink_detail(&detail);
        let mut audio = self.snapshot();
        audio.default_output = detail.name;
        Event::AudioSnapshotReceived(audio)
    }

    /// Takes in what the default source tells about itself, and reports it under the name that it has.
    pub fn source_detail(&mut self, detail: AudioDetail) -> (r: Event)
        ensures
            final(self).deep_view() == old(self).deep_view().source_told(detail.deep_view()),
            r matches Event::AudioSnapshotReceived(audio) && audio.deep_view() == (AudioStateView {
                default_input: detail.deep_view().name,
                ..final(self).deep_view().snapshot()
            }),
    {
        self.set_source_detail(&detail);
        let mut audio = self.snapshot();
        audio.default_input = detail.name;
        Event::AudioSnapshotReceived(audio)
    }

    /// What a command comes to on the sound server.
    pub fn call_for(&self, command: AudioCommand) -> (r: Option<AudioCall>)
        ensures
            r.deep_view() == self.deep_view().call_for(command.deep_view()),
    {
        match command {
            AudioCommand::SetOutputVolume(percent) => match &self.default_sink {
                Some(name) => Some(
                    AudioCall::SetSinkVolume {
                        name: name.dup(),
                        channels: some_channels(self.channels),
                        volume: volume_of_percent(percent),
                    },
                ),
                None => None,
            },
            AudioCommand::ToggleOutputMute => match &self.default_sink {
                Some(name) => Some(
                    AudioCall::SetSinkMute { name: name.dup(), muted: !self.muted },
                ),
                None => None,
            },
            AudioCommand::SetInputVolume(percent) => match &self.default_source {
                Some(name) => Some(
                    AudioCall::SetSourceVolume {
                        name: name.dup(),
                        channels: some_channels(self.source_channels),
                        volume: volume_of_percent(percent),
                    },
                ),
                None => None,
            },
            AudioCommand::ToggleInputMute => match &self.default_source {
                Some(name) => Some(
                    AudioCall::SetSourceMute { name: name.dup(), muted: !self.source_muted },
                ),
                None => None,
            },
            AudioCommand::SetDefaultOutput(name) => Some(AudioCall::SetDefaultSink { name }),
            AudioCommand::SetDefaultInput(name) => Some(AudioCall::SetDefaultSource { name }),
        }
    }
}

/// A percentage that is set is the one that is reported, and 100 stands for every higher one.
pub proof fn lemma_percent_is_kept(percent: u32)
    ensures
        volume_percent(percent_volume(percent)) == (if percent <= 100 {
            percent as int
        } else {
            100
        }),
{
}

/// The percentage of a volume is the nearest one: 65536 is the full volume, and the difference is at
/// most half a percent of it.
pub proof fn lemma_percent_is_nearest(volume: int)
    requires
        volume >= 0,
    ensures
        -32_768 <= 65_536 * volume_percent(volume) - 100 * volume <= 32_768,
        volume_percent(volume) >= 0,
{
}

/// A command is read back as it was handed over, where its percentage is one.
pub proof fn lemma_command_is_kept(command: AudioCommandView)
    requires
        command_bytes(command) is Some,
        command matches AudioCommandView::SetOutputVolume(percent) ==> percent <= 100,
        command matches AudioCommandView::SetInputVolume(percent) ==> percent <= 100,
    ensures
        commands_in(command_bytes(command)->0) == seq![command],
{
    lemma_command_round_trip(command, Seq::empty());
    assert(command_bytes(command)->0 + Seq::<u8>::empty() =~= command_bytes(command)->0);
    assert(seq![command] + Seq::<AudioCommandView>::empty() =~= seq![command]);
}

/// A report of the default sink says what a call has made of it.
pub open spec fn sink_reports(detail: AudioDetailView, call: AudioCallView) -> bool {
    match call {
        AudioCallView::SetSinkMute { muted, .. } => detail.muted == muted,
        AudioCallView::SetSinkVolume { volume, .. } => detail.volume == volume,
        _ => false,
    }
}

/// A report of the default source says what a call has made of it.
pub open spec fn source_reports(detail: AudioDetailView, call: AudioCallView) -> bool {
    match call {
        AudioCallView::SetSourceMute { muted, .. } => detail.muted == muted,
        AudioCallView::SetSourceVolume { volume, .. } => detail.volume == volume,
        _ => false,
    }
}

/// The sink or the source that a call is about.
pub open spec fn called_name(call: AudioCallView) -> Seq<char> {
    match call {
        AudioCallView::SetSinkVolume { name, .. } => name,
        AudioCallView::SetSinkMute { name, .. } => name,
        AudioCallView::SetSourceVolume { name, .. } => name,
        AudioCallView::SetSourceMute { name, .. } => name,
        AudioCallView::SetDefaultSink { name } => name,
        AudioCallView::SetDefaultSource { name } => name,
    }
}

/// Once the default sink reports what the call did that a command came to, toggling once has muted it
/// where it was not and unmuted it where it was, and toggling twice has changed nothing.
pub proof fn lemma_output_mute_toggles(
    monitor: AudioMonitorView,
    first: AudioDetailView,
    second: AudioDetailView,
)
    requires
        monitor.default_sink is Some,
    ensures
        ({
            let call = monitor.call_for(AudioCommandView::ToggleOutputMute);
            let once = monitor.sink_told(first);
            let again = once.call_for(AudioCommandView::ToggleOutputMute);
            let twice = once.sink_told(second);
            &&& call is Some && call->0 is SetSinkMute
            &&& Some(called_name(call->0)) == monitor.default_sink
            &&& sink_reports(first, call->0) ==> {
                &&& once.muted != monitor.muted
                &&& once.snapshot().muted == once.muted
                &&& once.source_muted == monitor.source_muted
                &&& again is Some
                &&& sink_reports(second, again->0) ==> twice.muted == monitor.muted
            }
        }),
{
}

/// Once the default source reports what the call did that a command came to, toggling once has muted it
/// where it was not and unmuted it where it was, and toggling twice has changed nothing.
pub proof fn lemma_input_mute_toggles(
    monitor: AudioMonitorView,
    first: AudioDetailView,
    second: AudioDetailView,
)
    requires
        monitor.default_source is Some,
    ensures
        ({
            let call = monitor.call_for(AudioCommandView::ToggleInputMute);
            let once = monitor.source_told(first);
            let again = once.call_for(AudioCommandView::ToggleInputMute);
            let twice = once.source_told(second);
            &&& call is Some && call->0 is SetSourceMute
            &&& Some(called_name(call->0)) == monitor.default_source
            &&& source_reports(first, call->0) ==> {
                &&& once.source_muted != monitor.source_muted
                &&& once.snapshot().input_muted == once.source_muted
                &&& once.muted == monitor.muted
                &&& again is Some
                &&& source_reports(second, again->0) ==> twice.source_muted == monitor.source_muted
            }
        }),
{
}

/// Once the default sink or source reports what the call did that a command came to, its volume is the
/// percentage that was asked for, and the other one keeps its volume.
pub proof fn lemma_volume_is_set(
    monitor: AudioMonitorView,
    percent: u32,
    detail: AudioDetailView,
)
    ensures
        ({
            let call = monitor.call_for(AudioCommandView::SetOutputVolume(percent));
            let told = monitor.sink_told(detail);
            &&& call is Some <==> monitor.default_sink is Some
            &&& call is Some ==> {
                &&& Some(called_name(call->0)) == monitor.default_sink
                &&& call->0 matches AudioCallView::SetSinkVolume { channels, .. } && channels > 0 && (
                monitor.channels > 0 ==> channels == monitor.channels)
                &&& sink_reports(detail, call->0) ==> told.snapshot().volume_percent == (if percent
                    <= 100 {
                    percent as int
                } else {
                    100
                }) && told.source_volume == monitor.source_volume
            }
        }),
        ({
            let call = monitor.call_for(AudioCommandView::SetInputVolume(percent));
            let told = monitor.source_told(detail);
            &&& call is Some <==> monitor.default_source is Some
            &&& call is Some ==> {
                &&& Some(called_name(call->0)) == monitor.default_source
                &&& call->0 matches AudioCallView::SetSourceVolume { channels, .. } && channels > 0 && (
                monitor.source_channels > 0 ==> channels == monitor.source_channels)
                &&& source_reports(detail, call->0) ==> told.snapshot().input_volume_percent == (
                if percent <= 100 {
                    percent as int
                } else {
                    100
                }) && told.volume == monitor.volume
            }
        }),
{
    lemma_percent_is_kept(percent);
}

/// The device that is to become the default one is the one that was chosen, an output among the sinks
/// and an input among the sources.
pub proof fn lemma_default_is_chosen(monitor: AudioMonitorView, name: Seq<char>)
    ensures
        ({
            let output = monitor.call_for(AudioCommandView::SetDefaultOutput(name));
            let input = monitor.call_for(AudioCommandView::SetDefaultInput(name));
            &&& output is Some && output->0 is SetDefaultSink && called_name(output->0) == name
            &&& input is Some && input->0 is SetDefaultSource && called_name(input->0) == name
        }),
{
}

/// What a sink tells of itself is shown as the output, and what a source tells of itself as the input;
/// each leaves the other and the lists of devices as they were.
pub proof fn lemma_details_are_shown(monitor: AudioMonitorView, detail: AudioDetailView)
    ensures
        ({
            let before = monitor.snapshot();
            let output = monitor.sink_told(detail).snapshot();
            let input = monitor.source_told(detail).snapshot();
            &&& output.muted == detail.muted
            &&& output.output_description == detail.description
            &&& output.default_output == monitor.default_sink
            &&& output.default_input == monitor.default_source
            &&& output.input_muted == before.input_muted
            &&& output.input_volume_percent == before.input_volume_percent
            &&& output.input_description == before.input_description
            &&& input.input_muted == detail.muted
            &&& input.input_description == detail.description
            &&& input.default_output == monitor.default_sink
            &&& input.default_input == monitor.default_source
            &&& input.muted == before.muted
            &&& input.volume_percent == before.volume_percent
            &&& input.output_description == before.output_description
            &&& output.outputs == monitor.outputs && output.inputs == monitor.inputs
            &&& input.outputs == monitor.outputs && input.inputs == monitor.inputs
            &&& output.available && input.available
        }),
{
}

/// The source that the server names is the default one, unless it only listens to a sink, which its name
/// tells by its end; the sink is the one that the server names.
pub proof fn lemma_monitors_are_no_inputs(
    monitor: AudioMonitorView,
    sink: Option<Seq<char>>,
    prefix: Seq<char>,
    source: Seq<char>,
)
    ensures
        ({
            let told = monitor.server_told(sink, Some(prefix + ".monitor"@));
            told.default_source is None && told.default_sink == sink
        }),
        (forall|p: Seq<char>| source != #[trigger] (p + ".monitor"@)) ==> ({
            let told = monitor.server_told(sink, Some(source));
            told.default_source == Some(source) && told.default_sink == sink
        }),
        monitor.server_told(sink, None).default_source is None,
{
    let end = ".monitor"@;
    let name = prefix + end;
    assert(name.skip(name.len() - end.len()) =~= end);
    if forall|p: Seq<char>| source != #[trigger] (p + ".monitor"@) {
        if text::is_suffix(source, end) {
            assert(source =~= source.take(source.len() - end.len()) + end);
        }
    }
}

proof fn lemma_requests(m: AudioMonitorView)
    ensures
        m.inventory_sinks ==> m.requests().contains(AudioRequestView::ListSinks),
        m.inventory_sources ==> m.requests().contains(AudioRequestView::ListSources),
        m.server ==> m.requests().contains(AudioRequestView::ServerInfo),
        m.sink ==> (m.default_sink matches Some(name) ==> m.requests().contains(
            AudioRequestView::SinkDetail(name),
        )),
        m.source && m.default_sink is Some ==> (m.default_source matches Some(name)
            ==> m.requests().contains(AudioRequestView::SourceDetail(name))),
{
    let a: int = if m.inventory_sinks {
        1
    } else {
        0
    };
    let b: int = if m.inventory_sources {
        a + 1
    } else {
        a
    };
    let c: int = if m.server {
        b + 1
    } else {
        b
    };
    let r = m.requests();
    if m.inventory_sinks {
        assert(r[0] == AudioRequestView::ListSinks);
    }
    if m.inventory_sources {
        assert(r[a] == AudioRequestView::ListSources);
    }
    if m.server {
        assert(r[b] == AudioRequestView::ServerInfo);
    }
    if m.sink && m.default_sink is Some {
        assert(r[c] == AudioRequestView::SinkDetail(m.default_sink->0));
    }
    if m.source && m.default_sink is Some && m.default_source is Some {
        assert(r[r.len() - 1] == AudioRequestView::SourceDetail(m.default_source->0));
    }
}

/// What has been asked for is not asked for again, and a list that is asked for starts empty.
pub proof fn lemma_requests_are_asked_once(monitor: AudioMonitorView)
    requires
        monitor.default_sink is Some,
    ensures
        monitor.asked().requests().len() == 0,
        monitor.inventory_sinks ==> monitor.asked().outputs.len() == 0
            && !monitor.asked().inventory_sinks_done,
        monitor.inventory_sources ==> monitor.asked().inputs.len() == 0
            && !monitor.asked().inventory_sources_done,
        !monitor.inventory_sinks ==> monitor.asked().outputs == monitor.outputs,
        !monitor.inventory_sources ==> monitor.asked().inputs == monitor.inputs,
{
}

/// What has changed is asked for. A device that is gone is not asked about itself.
pub proof fn lemma_changes_are_asked_for(
    monitor: AudioMonitorView,
    operation: Option<AudioOperation>,
)
    ensures
        monitor.changed(AudioFacility::Server, operation).requests().contains(
            AudioRequestView::ServerInfo,
        ),
        monitor.changed(AudioFacility::Sink, operation).requests().contains(
            AudioRequestView::ListSinks,
        ),
        monitor.changed(AudioFacility::Source, operation).requests().contains(
            AudioRequestView::ListSources,
        ),
        monitor.default_sink matches Some(name) ==> (operation != Some(AudioOperation::Removed)
            ==> monitor.changed(AudioFacility::Sink, operation).requests().contains(
            AudioRequestView::SinkDetail(name),
        )),
        monitor.default_sink is Some ==> (monitor.default_source matches Some(name) ==> (operation
            != Some(AudioOperation::Removed) ==> monitor.changed(
            AudioFacility::Source,
            operation,
        ).requests().contains(AudioRequestView::SourceDetail(name)))),
        operation == Some(AudioOperation::Removed) ==> monitor.changed(
            AudioFacility::Sink,
            operation,
        ).sink == monitor.sink && monitor.changed(AudioFacility::Source, operation).source
            == monitor.source,
        monitor.changed(AudioFacility::Other, operation) == monitor,
        monitor.is_stuck() <==> monitor.sink && monitor.default_sink is None,
{
    lemma_requests(monitor.changed(AudioFacility::Server, operation));
    lemma_requests(monitor.changed(AudioFacility::Sink, operation));
    lemma_requests(monitor.changed(AudioFacility::Source, operation));
}

} // verus!
