//! The panel itself: what it shows, what it has changed that the server has not confirmed yet, and
//! what an event changes in it or asks of the server.

use std::collections::HashMap;

use vstd::prelude::*;

use crate::backend;
use crate::backend::{AudioBackend, BackendCommand, CommandView};
use crate::keys;
use crate::keys::Clicked;
use crate::levels::{LevelService, MeterPlan, ServiceView};
use crate::model;
use crate::model::{
    AudioCard, AudioClass, AudioNode, AudioSnapshot, CardView, ClassView, Direction, NodeView,
    SnapshotView, Tab, MAX_VOLUME_PERCENT,
};
use crate::routing;
use crate::routing::StreamTarget;
use crate::text;
use crate::widgets;
use crate::widgets::{ChoiceView, SelectChoice};

verus! {

broadcast use vstd::std_specs::hash::group_hash_axioms;

/// The value of the option of a stream's target select that stands for the default device. No
/// serial reads like it.
pub const TARGET_DEFAULT_VALUE: &'static str = "__aetna_default__";

/// The value of the option of the spectrum select that stands for the default output. It differs
/// from that of the target selects, so that a stray value of one cannot satisfy the other.
pub const SPECTRUM_DEFAULT_VALUE: &'static str = "__aetna_spectrum_default__";

/// The node that the spectrogram listens to.
#[derive(Debug, Clone, Copy, PartialEq, Eq, Structural)]
pub enum SpectrumSource {
    /// The default output device, whichever that is.
    DefaultOutput,
    /// The node with the given id, and the default output device when there is none.
    Node(u32),
}

/// What kind of event reached a control, as far as the panel tells it apart.
#[derive(Debug, Clone, Copy, PartialEq, Eq, Structural)]
pub enum EventKind {
    Click,
    Activate,
    PointerDown,
    Drag,
    KeyDown,
    Other,
}

/// The keys that move a slider.
#[derive(Debug, Clone, Copy, PartialEq, Eq, Structural)]
pub enum SliderKey {
    /// Up or right.
    Increase,
    /// Down or left.
    Decrease,
    PageUp,
    PageDown,
    Home,
    End,
}

/// An event that reached a control.
#[derive(Debug, Clone)]
pub struct UiEvent {
    pub kind: EventKind,
    /// The key of the control.
    pub key: Option<String>,
    /// The volume that the pointer is at, when the control is a slider and the pointer is known.
    pub pointer_percent: Option<u32>,
    /// The key that was pressed, when it is one that moves a slider.
    pub slider_key: Option<SliderKey>,
}

/// The value of a [`UiEvent`].
#[verifier::ext_equal]
pub struct EventView {
    pub kind: EventKind,
    pub key: Option<Seq<char>>,
    pub pointer_percent: Option<u32>,
    pub slider_key: Option<SliderKey>,
}

impl View for UiEvent {
    type V = EventView;

    open spec fn view(&self) -> EventView {
        EventView {
            kind: self.kind,
            key: text::opt_text(self.key),
            pointer_percent: self.pointer_percent,
            slider_key: self.slider_key,
        }
    }
}

impl EventView {
    /// Whether the event activates its control.
    pub open spec fn activates(self) -> bool {
        self.kind == EventKind::Click || self.kind == EventKind::Activate
    }

    /// What the event means to the select with the given key.
    pub open spec fn choice(self, key: Seq<char>) -> Option<ChoiceView> {
        match self.key {
            Some(route) => if self.activates() {
                widgets::choice_in(route, key)
            } else {
                None
            },
            None => None,
        }
    }
}

impl UiEvent {
    /// A click on the control with the given key.
    pub fn synthetic_click(key: &str) -> (r: UiEvent)
        ensures
            r@ == (EventView {
                kind: EventKind::Click,
                key: Some(key@),
                pointer_percent: None,
                slider_key: None,
            }),
    {
        UiEvent {
            kind: EventKind::Click,
            key: Some(key.to_owned()),
            pointer_percent: None,
            slider_key: None,
        }
    }

    fn activates(&self) -> (r: bool)
        ensures
            r == self@.activates(),
    {
        self.kind == EventKind::Click || self.kind == EventKind::Activate
    }

    fn choice(&self, key: &str) -> (r: Option<SelectChoice>)
        ensures
            widgets::opt_choice(r) == self@.choice(key@),
    {
        match &self.key {
            Some(route) => if self.activates() {
                widgets::classify_select(route.as_str(), key)
            } else {
                None
            },
            None => None,
        }
    }
}

/// The panel. `B` is the audio server that it shows.
///
/// The overrides are changes that the user made and the server has not confirmed yet. They go
/// before what the server reports, and are dropped once it reports the same, so that changes made
/// elsewhere show.
#[derive(Debug)]
pub struct VolumeApp<B: AudioBackend> {
    pub backend: B,
    pub active_tab: Tab,
    /// The graph that the server showed last.
    pub snapshot: AudioSnapshot,
    /// Volumes in percent, by node.
    pub volume_overrides: HashMap<u32, u32>,
    /// Whether nodes are muted, by node.
    pub mute_overrides: HashMap<u32, bool>,
    /// Profile indices, by card.
    pub profile_overrides: HashMap<u32, u32>,
    /// Serials of target devices, by stream; `None` stands for the default device.
    pub target_overrides: HashMap<u32, Option<u64>>,
    /// The card whose profile menu is open.
    pub profile_dropdown_open: Option<u32>,
    /// The stream whose target menu is open.
    pub target_dropdown_open: Option<u32>,
    pub spectrum_source: SpectrumSource,
    /// Whether the spectrum menu is open.
    pub spectrum_dropdown_open: bool,
    pub levels: LevelService,
    /// The meters to stop and start since the graph was taken over last.
    pub meter_plan: MeterPlan,
}

/// The value of a [`VolumeApp`].
#[verifier::ext_equal]
pub struct AppView {
    pub active_tab: Tab,
    pub graph: SnapshotView,
    pub volume_overrides: Map<u32, u32>,
    pub mute_overrides: Map<u32, bool>,
    pub profile_overrides: Map<u32, u32>,
    pub target_overrides: Map<u32, Option<u64>>,
    pub profile_dropdown_open: Option<u32>,
    pub target_dropdown_open: Option<u32>,
    pub spectrum_source: SpectrumSource,
    pub spectrum_dropdown_open: bool,
    pub levels: ServiceView,
}

impl<B: AudioBackend> View for VolumeApp<B> {
    type V = AppView;

    open spec fn view(&self) -> AppView {
        AppView {
            active_tab: self.active_tab,
            graph: self.snapshot@,
            volume_overrides: self.volume_overrides@,
            mute_overrides: self.mute_overrides@,
            profile_overrides: self.profile_overrides@,
            target_overrides: self.target_overrides@,
            profile_dropdown_open: self.profile_dropdown_open,
            target_dropdown_open: self.target_dropdown_open,
            spectrum_source: self.spectrum_source,
            spectrum_dropdown_open: self.spectrum_dropdown_open,
            levels: self.levels@,
        }
    }
}

/// The node that a spectrum source stands for in a graph. A node that is gone gives way to the
/// default output device.
pub open spec fn spectrum_node_in(source: SpectrumSource, graph: SnapshotView) -> Option<NodeView> {
    let default = graph.default_device(Direction::Output);
    match source {
        SpectrumSource::DefaultOutput => default,
        SpectrumSource::Node(id) => match graph.node_with_id(id) {
            Some(node) => Some(node),
            None => default,
        },
    }
}

/// Whether two volumes are the same but for rounding.
pub open spec fn close(a: u32, b: u32) -> bool {
    a - b <= 1 && b - a <= 1
}

/// The volume in percent that the server reports of a node.
pub open spec fn reported_percent(node: NodeView) -> Option<u32> {
    match node.volume {
        Some(volume) => Some(volume.shown_percent()),
        None => None,
    }
}

/// Whether the server reports that a node is muted.
pub open spec fn reported_mute(node: NodeView) -> Option<bool> {
    match node.volume {
        Some(volume) => Some(volume.muted),
        None => None,
    }
}

/// Whether the server has confirmed the volume that the user set.
pub open spec fn volume_is_confirmed(set: Map<u32, u32>, node: NodeView) -> bool {
    set.contains_key(node.id) && match reported_percent(node) {
        Some(percent) => close(set[node.id], percent),
        None => false,
    }
}

/// The volume of a node in percent: what the user set, or once that is confirmed what the server
/// reports. A node that nothing is known of counts as at its nominal volume.
pub open spec fn percent_in(set: Map<u32, u32>, node: NodeView) -> u32 {
    if set.contains_key(node.id) && !volume_is_confirmed(set, node) {
        set[node.id]
    } else {
        match reported_percent(node) {
            Some(percent) => percent,
            None => 100,
        }
    }
}

/// The volumes that are left once a confirmed one is dropped.
pub open spec fn settled_volumes(set: Map<u32, u32>, node: NodeView) -> Map<u32, u32> {
    if volume_is_confirmed(set, node) {
        set.remove(node.id)
    } else {
        set
    }
}

/// Whether a node is muted: what the user set, or else what the server reports. A node that nothing
/// is known of counts as not muted.
pub open spec fn mute_in(set: Map<u32, bool>, node: NodeView) -> bool {
    if set.contains_key(node.id) {
        set[node.id]
    } else {
        reported_mute(node) == Some(true)
    }
}

/// The mute states that are left once a confirmed one is dropped.
pub open spec fn settled_mutes(set: Map<u32, bool>, node: NodeView) -> Map<u32, bool> {
    if set.contains_key(node.id) && reported_mute(node) == Some(set[node.id]) {
        set.remove(node.id)
    } else {
        set
    }
}

/// The active profile of a card: what the user picked, or else what the server reports.
pub open spec fn profile_in(set: Map<u32, u32>, card: CardView) -> Option<u32> {
    if set.contains_key(card.id) {
        Some(set[card.id])
    } else {
        card.active_profile
    }
}

/// The profiles that are left once a confirmed one is dropped.
pub open spec fn settled_profiles(set: Map<u32, u32>, card: CardView) -> Map<u32, u32> {
    if set.contains_key(card.id) && card.active_profile == Some(set[card.id]) {
        set.remove(card.id)
    } else {
        set
    }
}

/// A volume once a slider key is pressed: one percent up or down, ten for a page, or one of the
/// ends.
pub open spec fn stepped(percent: u32, key: SliderKey) -> u32 {
    let next = match key {
        SliderKey::Increase => percent + 1,
        SliderKey::Decrease => percent - 1,
        SliderKey::PageUp => percent + 10,
        SliderKey::PageDown => percent - 10,
        SliderKey::Home => 0,
        SliderKey::End => MAX_VOLUME_PERCENT as int,
    };
    if next < 0 {
        0
    } else if next > MAX_VOLUME_PERCENT {
        MAX_VOLUME_PERCENT
    } else {
        next as u32
    }
}

impl AppView {
    /// The panel at the start, on the playback tab.
    pub open spec fn initial(graph: SnapshotView) -> AppView {
        AppView {
            active_tab: Tab::Playback,
            graph,
            volume_overrides: Map::empty(),
            mute_overrides: Map::empty(),
            profile_overrides: Map::empty(),
            target_overrides: Map::empty(),
            profile_dropdown_open: None,
            target_dropdown_open: None,
            spectrum_source: SpectrumSource::DefaultOutput,
            spectrum_dropdown_open: false,
            levels: ServiceView::initial().reconciled(
                graph.nodes_for_tab(Tab::Playback),
                graph.default_device(Direction::Output),
            ),
        }
    }

    /// The panel once it has taken over a graph. The nodes in the rows of the active tab are metered,
    /// and on every tab the node that the spectrogram listens to.
    pub open spec fn synced(self, graph: SnapshotView) -> AppView {
        AppView {
            graph,
            levels: self.levels.reconciled(
                graph.nodes_for_tab(self.active_tab),
                spectrum_node_in(self.spectrum_source, graph),
            ),
            ..self
        }
    }

    /// The volume of a node in percent.
    pub open spec fn percent_of(self, node: NodeView) -> u32 {
        percent_in(self.volume_overrides, node)
    }

    /// The panel without the volume of a node that the server has confirmed.
    pub open spec fn with_settled_volume(self, node: NodeView) -> AppView {
        AppView { volume_overrides: settled_volumes(self.volume_overrides, node), ..self }
    }

    /// Whether a node is muted.
    pub open spec fn mute_of(self, node: NodeView) -> bool {
        mute_in(self.mute_overrides, node)
    }

    /// The panel without the mute state of a node that the server has confirmed.
    pub open spec fn with_settled_mute(self, node: NodeView) -> AppView {
        AppView { mute_overrides: settled_mutes(self.mute_overrides, node), ..self }
    }

    /// The active profile of a card.
    pub open spec fn profile_of(self, card: CardView) -> Option<u32> {
        profile_in(self.profile_overrides, card)
    }

    /// The panel without the profile of a card that the server has confirmed.
    pub open spec fn with_settled_profile(self, card: CardView) -> AppView {
        AppView { profile_overrides: settled_profiles(self.profile_overrides, card), ..self }
    }

    /// The panel without the target of a stream that the server has confirmed.
    pub open spec fn with_settled_target(self, graph: SnapshotView, stream: NodeView) -> AppView {
        AppView {
            target_overrides: routing::settled_picks(graph, stream, self.target_overrides),
            ..self
        }
    }

    /// The panel once the user set the volume of a node.
    pub open spec fn with_volume(self, id: u32, percent: u32) -> AppView {
        AppView { volume_overrides: self.volume_overrides.insert(id, percent), ..self }
    }

    /// Whether the node with the given id is muted, when the user toggles it.
    pub open spec fn mute_before_toggle(self, id: u32) -> bool {
        if self.mute_overrides.contains_key(id) {
            self.mute_overrides[id]
        } else {
            match self.graph.node_with_id(id) {
                Some(node) => reported_mute(node) == Some(true),
                None => false,
            }
        }
    }

    /// The panel, and what it asks of the server, once something happened to a stream's target
    /// select.
    pub open spec fn after_target_choice(self, stream_id: u32, choice: Option<ChoiceView>) -> (
        AppView,
        Option<CommandView>,
    ) {
        match choice {
            Some(ChoiceView::Toggle) => (
                AppView {
                    target_dropdown_open: toggled(self.target_dropdown_open, stream_id),
                    ..self
                },
                None,
            ),
            Some(ChoiceView::Dismiss) => (AppView { target_dropdown_open: None, ..self }, None),
            Some(ChoiceView::Pick(value)) => match picked_target(value) {
                Some(target_serial) => (
                    AppView {
                        target_overrides: self.target_overrides.insert(stream_id, target_serial),
                        target_dropdown_open: None,
                        ..self
                    },
                    Some(CommandView::SetStreamTarget { stream_id, target_serial }),
                ),
                None => (self, None),
            },
            None => (self, None),
        }
    }

    /// The panel once something happened to the spectrum select.
    pub open spec fn after_spectrum_choice(self, choice: Option<ChoiceView>) -> AppView {
        match choice {
            Some(ChoiceView::Toggle) => AppView {
                spectrum_dropdown_open: !self.spectrum_dropdown_open,
                ..self
            },
            Some(ChoiceView::Dismiss) => AppView { spectrum_dropdown_open: false, ..self },
            Some(ChoiceView::Pick(value)) => match picked_source(value) {
                Some(spectrum_source) => AppView {
                    spectrum_source,
                    spectrum_dropdown_open: false,
                    ..self
                },
                None => self,
            },
            None => self,
        }
    }

    /// The panel, and what it asks of the server, once something happened to a card's profile
    /// select.
    pub open spec fn after_profile_choice(self, card_id: u32, choice: Option<ChoiceView>) -> (
        AppView,
        Option<CommandView>,
    ) {
        match choice {
            Some(ChoiceView::Toggle) => (
                AppView {
                    profile_dropdown_open: toggled(self.profile_dropdown_open, card_id),
                    ..self
                },
                None,
            ),
            Some(ChoiceView::Dismiss) => (AppView { profile_dropdown_open: None, ..self }, None),
            Some(ChoiceView::Pick(value)) => match text::parsed_u32(value) {
                Some(profile_index) => (
                    AppView {
                        profile_overrides: self.profile_overrides.insert(card_id, profile_index),
                        profile_dropdown_open: None,
                        ..self
                    },
                    Some(CommandView::SetCardProfile { card_id, profile_index }),
                ),
                None => (self, None),
            },
            None => (self, None),
        }
    }

    /// The panel, and what it asks of the server, once the user toggled whether a node is muted.
    pub open spec fn after_mute(self, node_id: u32) -> (AppView, Option<CommandView>) {
        let muted = !self.mute_before_toggle(node_id);
        (
            AppView { mute_overrides: self.mute_overrides.insert(node_id, muted), ..self },
            Some(CommandView::SetMute { node_id, muted }),
        )
    }

    /// What the panel asks of the server when the user makes a device the default.
    pub open spec fn default_command(self, id: u32) -> Option<CommandView> {
        match self.graph.node_with_id(id) {
            Some(node) => match node.class {
                ClassView::Device { direction: Direction::Output } => Some(
                    CommandView::SetDefaultSink { node_name: node.name },
                ),
                ClassView::Device { direction: Direction::Input } => Some(
                    CommandView::SetDefaultSource { node_name: node.name },
                ),
                _ => None,
            },
            None => None,
        }
    }

    /// The panel, and what it asks of the server, once the pointer moved a volume slider.
    pub open spec fn after_scrub(self, node_id: u32, pointer_percent: Option<u32>) -> (
        AppView,
        Option<CommandView>,
    ) {
        match pointer_percent {
            Some(percent) => (
                self.with_volume(node_id, percent),
                Some(CommandView::SetVolume { node_id, percent }),
            ),
            None => (self, None),
        }
    }

    /// The panel, and what it asks of the server, once a key was pressed on a volume slider. Nothing
    /// is asked when the volume stays the same.
    pub open spec fn after_slider_key(self, node_id: u32, key: Option<SliderKey>) -> (
        AppView,
        Option<CommandView>,
    ) {
        match self.graph.node_with_id(node_id) {
            Some(node) => {
                let current = self.percent_of(node);
                let settled = self.with_settled_volume(node);
                match key {
                    Some(key) if stepped(current, key) != current => (
                        settled.with_volume(node_id, stepped(current, key)),
                        Some(CommandView::SetVolume { node_id, percent: stepped(current, key) }),
                    ),
                    _ => (settled, None),
                }
            },
            None => (self, None),
        }
    }

    /// The panel, and what it asks of the server, once a control was clicked or activated.
    pub open spec fn after_click(self, event: EventView, key: Seq<char>) -> (
        AppView,
        Option<CommandView>,
    ) {
        match keys::clicked(key) {
            Clicked::Refresh => (
                AppView {
                    volume_overrides: Map::empty(),
                    mute_overrides: Map::empty(),
                    ..self
                },
                None,
            ),
            Clicked::Mute(id) => self.after_mute(id),
            Clicked::Default(id) => (self, self.default_command(id)),
            Clicked::Profile(id) => self.after_profile_choice(
                id,
                event.choice(keys::key_of("profile:"@, id)),
            ),
            Clicked::Target(id) => self.after_target_choice(
                id,
                event.choice(keys::key_of("target:"@, id)),
            ),
            Clicked::Spectrum => (self.after_spectrum_choice(event.choice("spectrum"@)), None),
            Clicked::Volume(id) => self.after_scrub(id, event.pointer_percent),
            Clicked::Nothing => (self, None),
        }
    }

    /// The panel, and what it asks of the server, once an event reached a control.
    pub open spec fn after_event(self, event: EventView) -> (AppView, Option<CommandView>) {
        match event.key {
            None => (self, None),
            Some(key) => if event.activates() {
                if widgets::tab_token_in(key, "tabs"@) is Some {
                    (
                        AppView {
                            active_tab: widgets::tab_after(self.active_tab, key, "tabs"@),
                            ..self
                        },
                        None,
                    )
                } else {
                    self.after_click(event, key)
                }
            } else {
                match (keys::id_in(key, "volume:"@), event.kind) {
                    (Some(id), EventKind::PointerDown) | (Some(id), EventKind::Drag) =>
                        self.after_scrub(id, event.pointer_percent),
                    (Some(id), EventKind::KeyDown) => self.after_slider_key(id, event.slider_key),
                    _ => (self, None),
                }
            },
        }
    }
}

/// Which menu is open once that of the given object is toggled. Only one of a kind is open at a
/// time.
pub open spec fn toggled(open: Option<u32>, id: u32) -> Option<u32> {
    if open == Some(id) {
        None
    } else {
        Some(id)
    }
}

/// The target that an option stands for: a serial, or `Some(None)` for the default device.
pub open spec fn picked_target(value: Seq<char>) -> Option<Option<u64>> {
    if value == TARGET_DEFAULT_VALUE@ {
        Some(None)
    } else {
        match text::parsed_u64(value) {
            Some(serial) => Some(Some(serial)),
            None => None,
        }
    }
}

/// The spectrum source that an option stands for.
pub open spec fn picked_source(value: Seq<char>) -> Option<SpectrumSource> {
    if value == SPECTRUM_DEFAULT_VALUE@ {
        Some(SpectrumSource::DefaultOutput)
    } else {
        match text::parsed_u32(value) {
            Some(id) => Some(SpectrumSource::Node(id)),
            None => None,
        }
    }
}

/// The default output device.
pub fn default_output_node(snapshot: &AudioSnapshot) -> (r: Option<&AudioNode>)
    ensures
        model::opt_node(r) == snapshot@.default_device(Direction::Output),
{
    snapshot.default_device(Direction::Output)
}

/// The node that a spectrum source stands for.
fn spectrum_node(source: SpectrumSource, snapshot: &AudioSnapshot) -> (r: Option<&AudioNode>)
    ensures
        model::opt_node(r) == spectrum_node_in(source, snapshot@),
{
    match source {
        SpectrumSource::DefaultOutput => default_output_node(snapshot),
        SpectrumSource::Node(id) => match snapshot.node_with_id(id) {
            Some(node) => Some(node),
            None => default_output_node(snapshot),
        },
    }
}

/// Which menu is open once that of the given object is toggled.
fn toggle(open: Option<u32>, id: u32) -> (r: Option<u32>)
    ensures
        r == toggled(open, id),
{
    if open == Some(id) {
        None
    } else {
        Some(id)
    }
}

/// A volume once a slider key is pressed.
fn step(percent: u32, key: SliderKey) -> (r: u32)
    ensures
        r == stepped(percent, key),
{
    let next: u32 = match key {
        SliderKey::Increase => if percent < MAX_VOLUME_PERCENT {
            percent + 1
        } else {
            MAX_VOLUME_PERCENT
        },
        SliderKey::Decrease => if percent > 0 {
            percent - 1
        } else {
            0
        },
        SliderKey::PageUp => if percent < MAX_VOLUME_PERCENT {
            percent + 10
        } else {
            MAX_VOLUME_PERCENT
        },
        SliderKey::PageDown => if percent > 10 {
            percent - 10
        } else {
            0
        },
        SliderKey::Home => 0,
        SliderKey::End => MAX_VOLUME_PERCENT,
    };
    if next > MAX_VOLUME_PERCENT {
        MAX_VOLUME_PERCENT
    } else {
        next
    }
}

/// Finds the volume of a node in percent, and drops what the user set once the server has confirmed
/// it.
pub(crate) fn settle_volume(set_by_user: &mut HashMap<u32, u32>, node: &AudioNode) -> (r: u32)
    ensures
        r == percent_in(old(set_by_user)@, node@),
        final(set_by_user)@ == settled_volumes(old(set_by_user)@, node@),
{
    let reported: Option<u32> = match &node.volume {
        Some(volume) => Some(volume.percent()),
        None => None,
    };
    let set: Option<u32> = match set_by_user.get(&node.id) {
        Some(percent) => Some(*percent),
        None => None,
    };
    match (set, reported) {
        (Some(o), Some(s)) => {
            let apart: u32 = if o >= s {
                o - s
            } else {
                s - o
            };
            if apart <= 1 {
                set_by_user.remove(&node.id);
                s
            } else {
                o
            }
        },
        (Some(o), None) => o,
        (None, Some(s)) => s,
        (None, None) => 100,
    }
}

/// Finds whether a node is muted, and drops what the user set once the server has confirmed it.
pub(crate) fn settle_mute(set_by_user: &mut HashMap<u32, bool>, node: &AudioNode) -> (r: bool)
    ensures
        r == mute_in(old(set_by_user)@, node@),
        final(set_by_user)@ == settled_mutes(old(set_by_user)@, node@),
{
    let reported: Option<bool> = match &node.volume {
        Some(volume) => Some(volume.muted),
        None => None,
    };
    let set: Option<bool> = match set_by_user.get(&node.id) {
        Some(muted) => Some(*muted),
        None => None,
    };
    match (set, reported) {
        (Some(o), Some(s)) => {
            if o == s {
                set_by_user.remove(&node.id);
            }
            o
        },
        (Some(o), None) => o,
        (None, Some(s)) => s,
        (None, None) => false,
    }
}

/// Finds the active profile of a card, and drops what the user picked once the server has confirmed
/// it.
pub(crate) fn settle_profile(set_by_user: &mut HashMap<u32, u32>, card: &AudioCard) -> (r: Option<
    u32,
>)
    ensures
        r == profile_in(old(set_by_user)@, card@),
        final(set_by_user)@ == settled_profiles(old(set_by_user)@, card@),
{
    let set: Option<u32> = match set_by_user.get(&card.id) {
        Some(index) => Some(*index),
        None => None,
    };
    match (set, card.active_profile) {
        (Some(o), Some(s)) => {
            if o == s {
                set_by_user.remove(&card.id);
            }
            Some(o)
        },
        (Some(o), None) => Some(o),
        (None, s) => s,
    }
}

impl<B: AudioBackend> VolumeApp<B> {
    /// The panel at the start, with the graph that the server shows.
    pub fn new(backend: B) -> (r: VolumeApp<B>)
        ensures
            r.backend == backend,
            exists|snapshot: AudioSnapshot| #[trigger]
                call_ensures(B::refresh, (&backend,), snapshot) && r@ == AppView::initial(
                    snapshot@,
                ),
            r.meter_plan.leads_from(
                ServiceView::initial(),
                r@.graph.nodes_for_tab(Tab::Playback),
                r@.graph.default_device(Direction::Output),
            ),
    {
        let snapshot = backend.refresh();
        VolumeApp::with_snapshot(backend, snapshot)
    }

    /// The panel at the start, with a given graph.
    pub fn with_snapshot(backend: B, snapshot: AudioSnapshot) -> (r: VolumeApp<B>)
        ensures
            r.backend == backend,
            r@ == AppView::initial(snapshot@),
            r.meter_plan.leads_from(
                ServiceView::initial(),
                snapshot@.nodes_for_tab(Tab::Playback),
                snapshot@.default_device(Direction::Output),
            ),
    {
        let mut levels = LevelService::new();
        let meter_plan = {
            let visible = snapshot.nodes_for_tab(Tab::Playback);
            levels.ensure_visible(visible.as_slice(), default_output_node(&snapshot))
        };
        VolumeApp {
            backend,
            active_tab: Tab::Playback,
            snapshot,
            volume_overrides: HashMap::new(),
            mute_overrides: HashMap::new(),
            profile_overrides: HashMap::new(),
            target_overrides: HashMap::new(),
            profile_dropdown_open: None,
            target_dropdown_open: None,
            spectrum_source: SpectrumSource::DefaultOutput,
            spectrum_dropdown_open: false,
            levels,
            meter_plan,
        }
    }

    /// The panel on another tab.
    pub fn with_active_tab(self, tab: Tab) -> (r: VolumeApp<B>)
        ensures
            r.backend == self.backend,
            r@ == (AppView { active_tab: tab, ..self@ }),
            r.meter_plan == self.meter_plan,
    {
        let mut app = self;
        app.active_tab = tab;
        app
    }

    /// The node in a graph that the spectrogram listens to.
    pub fn spectrum_source_node<'a>(&self, snapshot: &'a AudioSnapshot) -> (r: Option<
        &'a AudioNode,
    >)
        ensures
            model::opt_node(r) == spectrum_node_in(self@.spectrum_source, snapshot@),
    {
        spectrum_node(self.spectrum_source, snapshot)
    }

    /// Takes over the graph that the server shows now. The nodes in the rows of the active tab are
    /// metered, which are none on the tab of the cards; and on every tab, since each shows the
    /// spectrogram, so is the node that it listens to.
    pub fn sync_state(&mut self)
        ensures
            final(self).backend == old(self).backend,
            exists|snapshot: AudioSnapshot| #[trigger]
                call_ensures(B::refresh, (&old(self).backend,), snapshot) && final(self)@
                    == old(self)@.synced(snapshot@),
            final(self).meter_plan.leads_from(
                old(self)@.levels,
                final(self)@.graph.nodes_for_tab(old(self)@.active_tab),
                spectrum_node_in(old(self)@.spectrum_source, final(self)@.graph),
            ),
    {
        let snapshot = self.backend.refresh();
        self.sync_with(snapshot);
    }

    /// Takes over a graph. The nodes in the rows of the active tab are metered, and on every tab the
    /// node that the spectrogram listens to.
    pub fn sync_with(&mut self, snapshot: AudioSnapshot)
        ensures
            final(self).backend == old(self).backend,
            final(self)@ == old(self)@.synced(snapshot@),
            final(self).meter_plan.leads_from(
                old(self)@.levels,
                snapshot@.nodes_for_tab(old(self)@.active_tab),
                spectrum_node_in(old(self)@.spectrum_source, snapshot@),
            ),
    {
        let meter_plan = {
            let visible = snapshot.nodes_for_tab(self.active_tab);
            self.levels.ensure_visible(
                visible.as_slice(),
                spectrum_node(self.spectrum_source, &snapshot),
            )
        };
        self.meter_plan = meter_plan;
        self.snapshot = snapshot;
    }

    /// The volume of a node in percent.
    pub fn percent_for(&mut self, node: &AudioNode) -> (r: u32)
        ensures
            r == old(self)@.percent_of(node@),
            final(self)@ == old(self)@.with_settled_volume(node@),
            final(self).backend == old(self).backend,
            final(self).snapshot == old(self).snapshot,
            final(self).meter_plan == old(self).meter_plan,
    {
        settle_volume(&mut self.volume_overrides, node)
    }

    /// Whether a node is muted.
    pub fn muted_for(&mut self, node: &AudioNode) -> (r: bool)
        ensures
            r == old(self)@.mute_of(node@),
            final(self)@ == old(self)@.with_settled_mute(node@),
            final(self).backend == old(self).backend,
            final(self).snapshot == old(self).snapshot,
            final(self).meter_plan == old(self).meter_plan,
    {
        settle_mute(&mut self.mute_overrides, node)
    }

    /// The active profile of a card.
    pub fn active_profile_for(&mut self, card: &AudioCard) -> (r: Option<u32>)
        ensures
            r == old(self)@.profile_of(card@),
            final(self)@ == old(self)@.with_settled_profile(card@),
            final(self).backend == old(self).backend,
            final(self).snapshot == old(self).snapshot,
            final(self).meter_plan == old(self).meter_plan,
    {
        settle_profile(&mut self.profile_overrides, card)
    }

    /// Moves a volume slider to where the pointer is.
    fn scrub_from_event(&mut self, event: &UiEvent, id: u32) -> (r: Option<BackendCommand>)
        ensures
            (final(self)@, backend::opt_command(r)) == old(self)@.after_scrub(
                id,
                event@.pointer_percent,
            ),
            final(self).backend == old(self).backend,
            final(self).meter_plan == old(self).meter_plan,
    {
        match event.pointer_percent {
            Some(percent) => {
                self.volume_overrides.insert(id, percent);
                Some(BackendCommand::SetVolume { node_id: id, percent })
            },
            None => None,
        }
    }

    /// Moves a volume slider by a key.
    fn adjust_volume_from_key(&mut self, event: &UiEvent, id: u32) -> (r: Option<BackendCommand>)
        ensures
            (final(self)@, backend::opt_command(r)) == old(self)@.after_slider_key(
                id,
                event@.slider_key,
            ),
            final(self).backend == old(self).backend,
            final(self).meter_plan == old(self).meter_plan,
    {
        let current: u32 = match self.snapshot.node_with_id(id) {
            Some(node) => settle_volume(&mut self.volume_overrides, node),
            None => return None,
        };
        let next: u32 = match event.slider_key {
            Some(key) => step(current, key),
            None => return None,
        };
        if next == current {
            return None;
        }
        self.volume_overrides.insert(id, next);
        Some(BackendCommand::SetVolume { node_id: id, percent: next })
    }

    /// What asks the server to make a device the default.
    fn set_default(&self, id: u32) -> (r: Option<BackendCommand>)
        ensures
            backend::opt_command(r) == self@.default_command(id),
    {
        match self.snapshot.node_with_id(id) {
            Some(node) => match &node.class {
                AudioClass::Device { direction } => {
                    let node_name = node.name.as_str().to_owned();
                    match direction {
                        Direction::Output => Some(BackendCommand::SetDefaultSink { node_name }),
                        Direction::Input => Some(BackendCommand::SetDefaultSource { node_name }),
                    }
                },
                _ => None,
            },
            None => None,
        }
    }

    /// Takes in an event of a stream's target select.
    pub fn handle_target_event(&mut self, event: &UiEvent, stream_id: u32) -> (r: Option<
        BackendCommand,
    >)
        ensures
            (final(self)@, backend::opt_command(r)) == old(self)@.after_target_choice(
                stream_id,
                event@.choice(keys::key_of("target:"@, stream_id)),
            ),
            final(self).backend == old(self).backend,
            final(self).meter_plan == old(self).meter_plan,
    {
        let key = keys::indexed("target:", stream_id);
        match event.choice(key.as_str()) {
            Some(SelectChoice::Toggle) => {
                self.target_dropdown_open = toggle(self.target_dropdown_open, stream_id);
                None
            },
            Some(SelectChoice::Dismiss) => {
                self.target_dropdown_open = None;
                None
            },
            Some(SelectChoice::Pick(value)) => {
                let target_serial: Option<u64> = if text::text_eq(
                    value.as_str(),
                    TARGET_DEFAULT_VALUE,
                ) {
                    None
                } else {
                    match text::parse_u64(value.as_str()) {
                        Some(serial) => Some(serial),
                        None => return None,
                    }
                };
                self.target_overrides.insert(stream_id, target_serial);
                self.target_dropdown_open = None;
                Some(BackendCommand::SetStreamTarget { stream_id, target_serial })
            },
            None => None,
        }
    }

    /// Takes in an event of the spectrum select.
    pub fn handle_spectrum_event(&mut self, event: &UiEvent)
        ensures
            final(self)@ == old(self)@.after_spectrum_choice(event@.choice("spectrum"@)),
            final(self).backend == old(self).backend,
            final(self).meter_plan == old(self).meter_plan,
    {
        match event.choice("spectrum") {
            Some(SelectChoice::Toggle) => {
                self.spectrum_dropdown_open = !self.spectrum_dropdown_open;
            },
            Some(SelectChoice::Dismiss) => {
                self.spectrum_dropdown_open = false;
            },
            Some(SelectChoice::Pick(value)) => {
                let source = if text::text_eq(value.as_str(), SPECTRUM_DEFAULT_VALUE) {
                    SpectrumSource::DefaultOutput
                } else {
                    match text::parse_u32(value.as_str()) {
                        Some(id) => SpectrumSource::Node(id),
                        None => return ,
                    }
                };
                self.spectrum_source = source;
                self.spectrum_dropdown_open = false;
            },
            None => {},
        }
    }

    /// Takes in an event of a card's profile select.
    pub fn handle_profile_event(&mut self, event: &UiEvent, card_id: u32) -> (r: Option<
        BackendCommand,
    >)
        ensures
            (final(self)@, backend::opt_command(r)) == old(self)@.after_profile_choice(
                card_id,
                event@.choice(keys::key_of("profile:"@, card_id)),
            ),
            final(self).backend == old(self).backend,
            final(self).meter_plan == old(self).meter_plan,
    {
        let key = keys::indexed("profile:", card_id);
        match event.choice(key.as_str()) {
            Some(SelectChoice::Toggle) => {
                self.profile_dropdown_open = toggle(self.profile_dropdown_open, card_id);
                None
            },
            Some(SelectChoice::Dismiss) => {
                self.profile_dropdown_open = None;
                None
            },
            Some(SelectChoice::Pick(value)) => {
                let profile_index: u32 = match text::parse_u32(value.as_str()) {
                    Some(index) => index,
                    None => return None,
                };
                self.profile_overrides.insert(card_id, profile_index);
                self.profile_dropdown_open = None;
                Some(BackendCommand::SetCardProfile { card_id, profile_index })
            },
            None => None,
        }
    }

    /// Toggles whether a node is muted.
    fn toggle_mute(&mut self, id: u32) -> (r: Option<BackendCommand>)
        ensures
            (final(self)@, backend::opt_command(r)) == old(self)@.after_mute(id),
            final(self).backend == old(self).backend,
            final(self).meter_plan == old(self).meter_plan,
    {
        let current: bool = match self.mute_overrides.get(&id) {
            Some(muted) => *muted,
            None => match self.snapshot.node_with_id(id) {
                Some(node) => match &node.volume {
                    Some(volume) => volume.muted,
                    None => false,
                },
                None => false,
            },
        };
        let muted = !current;
        self.mute_overrides.insert(id, muted);
        Some(BackendCommand::SetMute { node_id: id, muted })
    }

    /// Takes in that a control was clicked or activated.
    fn handle_click(&mut self, event: &UiEvent, key: &str) -> (r: Option<BackendCommand>)
        ensures
            (final(self)@, backend::opt_command(r)) == old(self)@.after_click(event@, key@),
            final(self).backend == old(self).backend,
            final(self).meter_plan == old(self).meter_plan,
    {
        match keys::route_click(key) {
            Clicked::Refresh => {
                self.volume_overrides.clear();
                self.mute_overrides.clear();
                None
            },
            Clicked::Mute(id) => self.toggle_mute(id),
            Clicked::Default(id) => self.set_default(id),
            Clicked::Profile(id) => self.handle_profile_event(event, id),
            Clicked::Target(id) => self.handle_target_event(event, id),
            Clicked::Spectrum => {
                self.handle_spectrum_event(event);
                None
            },
            Clicked::Volume(id) => self.scrub_from_event(event, id),
            Clicked::Nothing => None,
        }
    }

    /// Takes in an event, and gives what it asks of the server.
    pub fn handle_event(&mut self, event: &UiEvent) -> (r: Option<BackendCommand>)
        ensures
            (final(self)@, backend::opt_command(r)) == old(self)@.after_event(event@),
            final(self).backend == old(self).backend,
            final(self).meter_plan == old(self).meter_plan,
    {
        let key = match &event.key {
            Some(key) => key.as_str(),
            None => return None,
        };
        if event.activates() {
            if widgets::apply_tabs(&mut self.active_tab, key, "tabs") {
                return None;
            }
            return self.handle_click(event, key);
        }
        let id: u32 = match keys::node_id_from_key(key, "volume:") {
            Some(id) => id,
            None => return None,
        };
        match event.kind {
            EventKind::PointerDown | EventKind::Drag => self.scrub_from_event(event, id),
            EventKind::KeyDown => self.adjust_volume_from_key(event, id),
            _ => None,
        }
    }

    /// Takes in an event, and asks the server for what it calls for.
    pub fn on_event(&mut self, event: &UiEvent)
        ensures
            final(self)@ == old(self)@.after_event(event@).0,
            final(self).backend == old(self).backend,
            final(self).meter_plan == old(self).meter_plan,
            old(self)@.after_event(event@).1 matches Some(command) ==> backend::asked(
                old(self).backend,
                command,
            ),
    {
        if let Some(command) = self.handle_event(event) {
            backend::ask(&self.backend, &command);
        }
    }
}

/// Finds where a stream is routed, as its row shows it, and drops the user's pick for it once the
/// server has confirmed it.
pub fn resolve_stream_target<'a, B: AudioBackend>(
    snapshot: &'a AudioSnapshot,
    node: &AudioNode,
    app: &mut VolumeApp<B>,
) -> (r: StreamTarget<'a>)
    ensures
        r@ == routing::target_of(snapshot@, node@, old(app)@.target_overrides),
        final(app)@ == old(app)@.with_settled_target(snapshot@, node@),
        final(app).backend == old(app).backend,
        final(app).snapshot == old(app).snapshot,
        final(app).meter_plan == old(app).meter_plan,
{
    routing::resolve_target(snapshot, node, &mut app.target_overrides)
}

} // verus!
