//! What the panel asks of an audio server, and the server that stands in for one.

use vstd::prelude::*;

use crate::model::AudioSnapshot;

pub mod announcement_laws;
pub mod event_laws;
pub mod globals;
pub mod peers;
pub mod pods;
pub mod registry;
pub mod registry_laws;
pub mod report_laws;

verus! {

/// A change that the panel asks the audio server to make.
#[derive(Debug, Clone)]
pub enum BackendCommand {
    SetMute { node_id: u32, muted: bool },
    /// Sets a node's volume, in percent of its nominal volume.
    SetVolume { node_id: u32, percent: u32 },
    SetDefaultSink { node_name: String },
    SetDefaultSource { node_name: String },
    SetCardProfile { card_id: u32, profile_index: u32 },
    /// Pins a stream to the device with the given serial, or clears the pin.
    SetStreamTarget { stream_id: u32, target_serial: Option<u64> },
    Quit,
}

/// The value of a [`BackendCommand`].
#[verifier::ext_equal]
pub enum CommandView {
    SetMute { node_id: u32, muted: bool },
    SetVolume { node_id: u32, percent: u32 },
    SetDefaultSink { node_name: Seq<char> },
    SetDefaultSource { node_name: Seq<char> },
    SetCardProfile { card_id: u32, profile_index: u32 },
    SetStreamTarget { stream_id: u32, target_serial: Option<u64> },
    Quit,
}

impl View for BackendCommand {
    type V = CommandView;

    open spec fn view(&self) -> CommandView {
        match *self {
            BackendCommand::SetMute { node_id, muted } => CommandView::SetMute { node_id, muted },
            BackendCommand::SetVolume { node_id, percent } => CommandView::SetVolume {
                node_id,
                percent,
            },
            BackendCommand::SetDefaultSink { node_name } => CommandView::SetDefaultSink {
                node_name: node_name@,
            },
            BackendCommand::SetDefaultSource { node_name } => CommandView::SetDefaultSource {
                node_name: node_name@,
            },
            BackendCommand::SetCardProfile { card_id, profile_index } =>
                CommandView::SetCardProfile { card_id, profile_index },
            BackendCommand::SetStreamTarget { stream_id, target_serial } =>
                CommandView::SetStreamTarget { stream_id, target_serial },
            BackendCommand::Quit => CommandView::Quit,
        }
    }
}

/// The value of an optional command.
pub open spec fn opt_command(c: Option<BackendCommand>) -> Option<CommandView> {
    match c {
        Some(c) => Some(c@),
        None => None,
    }
}

/// An audio server: it shows its graph and takes requests. Whether and when it carries a request
/// out shows in its graph.
pub trait AudioBackend {
    /// The graph as it is now.
    fn refresh(&self) -> AudioSnapshot;

    /// Mutes a node, or stops muting it.
    fn set_mute(&self, node_id: u32, muted: bool);

    /// Sets a node's volume, in percent of its nominal volume.
    fn set_volume(&self, node_id: u32, percent: u32);

    /// Makes the named output device the default.
    fn set_default_sink(&self, node_name: &str);

    /// Makes the named input device the default.
    fn set_default_source(&self, node_name: &str);

    /// Switches a card to one of its profiles.
    fn set_card_profile(&self, card_id: u32, profile_index: u32);

    /// Pins a stream to the device with the given serial, or clears the pin.
    fn set_stream_target(&self, stream_id: u32, target_serial: Option<u64>);
}

/// Whether the server was asked for what a command says, by the method that is there for it.
pub open spec fn asked<B: AudioBackend>(backend: B, command: CommandView) -> bool {
    match command {
        CommandView::SetMute { node_id, muted } => call_ensures(
            B::set_mute,
            (&backend, node_id, muted),
            (),
        ),
        CommandView::SetVolume { node_id, percent } => call_ensures(
            B::set_volume,
            (&backend, node_id, percent),
            (),
        ),
        CommandView::SetDefaultSink { node_name } => exists|name: &str|
            name@ == node_name && call_ensures(B::set_default_sink, (&backend, name), ()),
        CommandView::SetDefaultSource { node_name } => exists|name: &str|
            name@ == node_name && call_ensures(B::set_default_source, (&backend, name), ()),
        CommandView::SetCardProfile { card_id, profile_index } => call_ensures(
            B::set_card_profile,
            (&backend, card_id, profile_index),
            (),
        ),
        CommandView::SetStreamTarget { stream_id, target_serial } => call_ensures(
            B::set_stream_target,
            (&backend, stream_id, target_serial),
            (),
        ),
        CommandView::Quit => true,
    }
}

/// Asks the server for what a command says. Nothing is asked for [`BackendCommand::Quit`], which
/// ends the connection itself.
pub fn ask<B: AudioBackend>(backend: &B, command: &BackendCommand)
    ensures
        asked(*backend, command@),
{
    match command {
        BackendCommand::SetMute { node_id, muted } => backend.set_mute(*node_id, *muted),
        BackendCommand::SetVolume { node_id, percent } => backend.set_volume(*node_id, *percent),
        BackendCommand::SetDefaultSink { node_name } => {
            let name = node_name.as_str();
            backend.set_default_sink(name)
        },
        BackendCommand::SetDefaultSource { node_name } => {
            let name = node_name.as_str();
            backend.set_default_source(name)
        },
        BackendCommand::SetCardProfile { card_id, profile_index } => backend.set_card_profile(
            *card_id,
            *profile_index,
        ),
        BackendCommand::SetStreamTarget { stream_id, target_serial } => backend.set_stream_target(
            *stream_id,
            *target_serial,
        ),
        BackendCommand::Quit => {},
    }
}

/// Each request reaches the method that is there for it, with what the command says.
pub proof fn lemma_requests_reach_their_method<B: AudioBackend>(
    backend: B,
    id: u32,
    muted: bool,
    number: u32,
    serial: Option<u64>,
    name: Seq<char>,
)
    ensures
        asked(backend, CommandView::SetMute { node_id: id, muted }) <==> call_ensures(
            B::set_mute,
            (&backend, id, muted),
            (),
        ),
        asked(backend, CommandView::SetVolume { node_id: id, percent: number }) <==> call_ensures(
            B::set_volume,
            (&backend, id, number),
            (),
        ),
        asked(backend, CommandView::SetCardProfile { card_id: id, profile_index: number })
            <==> call_ensures(B::set_card_profile, (&backend, id, number), ()),
        asked(backend, CommandView::SetStreamTarget { stream_id: id, target_serial: serial })
            <==> call_ensures(B::set_stream_target, (&backend, id, serial), ()),
        asked(backend, CommandView::SetDefaultSink { node_name: name }) ==> exists|text: &str|
            text@ == name && #[trigger] call_ensures(B::set_default_sink, (&backend, text), ()),
        asked(backend, CommandView::SetDefaultSource { node_name: name }) ==> exists|text: &str|
            text@ == name && #[trigger] call_ensures(B::set_default_source, (&backend, text), ()),
{
}

/// A server with a fixed graph, which ignores every request.
#[derive(Debug, Clone, Copy, Default)]
pub struct DemoBackend;

impl AudioBackend for DemoBackend {
    fn refresh(&self) -> (r: AudioSnapshot)
        ensures
            r@ == crate::demo::demo_graph(),
    {
        AudioSnapshot::demo()
    }

    fn set_mute(&self, node_id: u32, muted: bool) {
    }

    fn set_volume(&self, node_id: u32, percent: u32) {
    }

    fn set_default_sink(&self, node_name: &str) {
    }

    fn set_default_source(&self, node_name: &str) {
    }

    fn set_card_profile(&self, card_id: u32, profile_index: u32) {
    }

    fn set_stream_target(&self, stream_id: u32, target_serial: Option<u64>) {
    }
}

} // verus!
