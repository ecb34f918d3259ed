//! The server side of the panel: the state that follows PipeWire's registry, the events that
//! change it, and what each command asks of the server.

use std::collections::{HashMap, HashSet};

use vstd::prelude::*;

use crate::backend::globals;
use crate::backend::globals::{Global, GlobalKind, GlobalView};
use crate::backend::peers;
use crate::backend::pods;
use crate::backend::pods::{PodProperty, PropertyView};
use crate::backend::{BackendCommand, CommandView};
use crate::model;
use crate::model::{
    AudioCard, AudioNode, AudioProfile, AudioSnapshot, CardView, NodeView, ProfileView,
    SnapshotView, Volume,
};
use crate::text;
use crate::util;

verus! {

broadcast use vstd::std_specs::hash::group_hash_axioms;

/// An object that is to be bound, so that its parameters can be read and written.
#[derive(Debug, Clone, Copy, PartialEq, Eq, Structural)]
pub enum BindRequest {
    Node,
    Device,
    Metadata,
}

/// What a command asks of the bound objects.
#[derive(Debug, Clone)]
pub enum Effect {
    /// Stop serving.
    Quit,
    /// Set properties of a bound node.
    SetNodeProps { node_id: u32, properties: Vec<PodProperty> },
    /// Set the profile of a bound card.
    SetCardProfile { card_id: u32, properties: Vec<PodProperty> },
    /// Set, or without a value delete, a property of the bound metadata.
    SetMetadata { subject: u32, key: String, kind: Option<String>, value: Option<String> },
}

/// The value of an [`Effect`].
#[verifier::ext_equal]
pub enum EffectView {
    Quit,
    SetNodeProps { node_id: u32, properties: Seq<PropertyView> },
    SetCardProfile { card_id: u32, properties: Seq<PropertyView> },
    SetMetadata {
        subject: u32,
        key: Seq<char>,
        kind: Option<Seq<char>>,
        value: Option<Seq<char>>,
    },
}

impl View for Effect {
    type V = EffectView;

    open spec fn view(&self) -> EffectView {
        match *self {
            Effect::Quit => EffectView::Quit,
            Effect::SetNodeProps { node_id, properties } => EffectView::SetNodeProps {
                node_id,
                properties: pods::property_views(properties@),
            },
            Effect::SetCardProfile { card_id, properties } => EffectView::SetCardProfile {
                card_id,
                properties: pods::property_views(properties@),
            },
            Effect::SetMetadata { subject, key, kind, value } => EffectView::SetMetadata {
                subject,
                key: key@,
                kind: text::opt_text(kind),
                value: text::opt_text(value),
            },
        }
    }
}

/// The value of an optional effect.
pub open spec fn opt_effect(e: Option<Effect>) -> Option<EffectView> {
    match e {
        Some(e) => Some(e@),
        None => None,
    }
}

/// What is known of the server.
#[derive(Debug)]
pub struct BackendState {
    pub snapshot: AudioSnapshot,
    /// The nodes that are bound, for mute and volume.
    pub bound_nodes: HashSet<u32>,
    /// The cards that are bound, for their profiles.
    pub bound_devices: HashSet<u32>,
    /// How many channels each node has, learned from its channel volumes.
    pub channels: HashMap<u32, usize>,
    /// The id of the bound `default` metadata.
    pub default_metadata: Option<u32>,
    /// Routing overrides of streams that have not been announced yet.
    pub pending_targets: HashMap<u32, String>,
    /// The links, by their own id: output node, input node.
    pub links: HashMap<u32, (u32, u32)>,
}

/// The value of a [`BackendState`].
#[verifier::ext_equal]
pub struct BackendView {
    pub graph: SnapshotView,
    pub bound_nodes: Set<u32>,
    pub bound_devices: Set<u32>,
    pub channels: Map<u32, usize>,
    pub default_metadata: Option<u32>,
    pub pending_targets: Map<u32, Seq<char>>,
    pub links: Map<u32, (u32, u32)>,
}

/// The values of pieces of text.
pub open spec fn text_views(m: Map<u32, String>) -> Map<u32, Seq<char>> {
    m.map_values(|s: String| s@)
}

impl View for BackendState {
    type V = BackendView;

    open spec fn view(&self) -> BackendView {
        BackendView {
            graph: self.snapshot@,
            bound_nodes: self.bound_nodes@,
            bound_devices: self.bound_devices@,
            channels: self.channels@,
            default_metadata: self.default_metadata,
            pending_targets: text_views(self.pending_targets@),
            links: self.links@,
        }
    }
}

/// Whether no two nodes have the same id.
pub open spec fn distinct_nodes(nodes: Seq<NodeView>) -> bool {
    forall|i: int, j: int| 0 <= i < j < nodes.len() ==> #[trigger] nodes[i].id != #[trigger] nodes[j].id
}

/// Whether no two cards have the same id.
pub open spec fn distinct_cards(cards: Seq<CardView>) -> bool {
    forall|i: int, j: int| 0 <= i < j < cards.len() ==> #[trigger] cards[i].id != #[trigger] cards[j].id
}

/// Whether no two profiles have the same index.
pub open spec fn distinct_profiles(profiles: Seq<ProfileView>) -> bool {
    forall|i: int, j: int|
        0 <= i < j < profiles.len() ==> #[trigger] profiles[i].index != #[trigger] profiles[j].index
}

/// `profiles` with `profile` in the place of the one with the same index, or at the end.
pub open spec fn with_profile(profiles: Seq<ProfileView>, profile: ProfileView) -> Seq<ProfileView> {
    match model::first_where(profiles, |p: ProfileView| p.index == profile.index) {
        Some(i) => profiles.update(i, profile),
        None => profiles.push(profile),
    }
}

/// A node's volume after properties were reported: what they leave out stays, and a node without
/// a volume counts as at its nominal volume and not muted.
pub open spec fn updated_volume(volume: Option<Volume>, props: Seq<PropertyView>) -> Option<Volume> {
    let decoded = pods::node_volume(props);
    if decoded.mute is None && decoded.volume is None {
        volume
    } else {
        let current = match volume {
            Some(v) => v,
            None => Volume { hundredths: 100, muted: false },
        };
        Some(
            Volume {
                hundredths: match decoded.volume {
                    Some(v) => v,
                    None => current.hundredths,
                },
                muted: match decoded.mute {
                    Some(m) => m,
                    None => current.muted,
                },
            },
        )
    }
}

/// Whether an announcement is that of the `default` metadata.
pub open spec fn is_default_metadata(global: GlobalView) -> bool {
    &&& global.kind == GlobalKind::Metadata
    &&& global.props matches Some(props)
    &&& globals::prop_value(props, "metadata.name"@) == Some("default"@)
}

impl BackendView {
    /// Nothing is known of the server but its name.
    pub open spec fn initial() -> BackendView {
        BackendView {
            graph: SnapshotView { server_name: Some("PipeWire"@), ..SnapshotView::empty() },
            bound_nodes: Set::empty(),
            bound_devices: Set::empty(),
            channels: Map::empty(),
            default_metadata: None,
            pending_targets: Map::empty(),
            links: Map::empty(),
        }
    }

    /// What holds of every state that events lead to: nodes, cards and the profiles of a card are
    /// listed once, and the adjacency table shows the links.
    pub open spec fn valid(self) -> bool {
        &&& distinct_nodes(self.graph.nodes)
        &&& distinct_cards(self.graph.cards)
        &&& forall|i: int|
            0 <= i < self.graph.cards.len() ==> distinct_profiles(
                (#[trigger] self.graph.cards[i]).profiles,
            )
        &&& peers::shows(self.graph.peers, self.links)
    }

    /// The state once a node is known. A node that is known already stays as it is; the override
    /// that was reported before the node replaces the target that the node itself names.
    pub open spec fn with_node(self, node: NodeView) -> BackendView {
        if model::node_position(self.graph.nodes, node.id) is Some {
            self
        } else {
            let node = if self.pending_targets.contains_key(node.id) {
                NodeView { target: Some(self.pending_targets[node.id]), ..node }
            } else {
                node
            };
            BackendView {
                graph: SnapshotView { nodes: self.graph.nodes.push(node), ..self.graph },
                pending_targets: self.pending_targets.remove(node.id),
                ..self
            }
        }
    }

    /// The state once a card is known. A card that is known already stays as it is.
    pub open spec fn with_card(self, card: CardView) -> BackendView {
        if model::card_position(self.graph.cards, card.id) is Some {
            self
        } else {
            BackendView {
                graph: SnapshotView { cards: self.graph.cards.push(card), ..self.graph },
                ..self
            }
        }
    }

    /// The state after an announcement. `peers` is the adjacency table that shows the links when
    /// the announcement is that of a link; their order is open.
    pub open spec fn after_global(
        self,
        global: GlobalView,
        peers: Map<u32, Seq<u32>>,
    ) -> BackendView {
        if let Some(node) = globals::announced_node(global) {
            self.with_node(node)
        } else if let Some(card) = globals::announced_card(global) {
            self.with_card(card)
        } else if let Some(ends) = globals::announced_link(global) {
            BackendView {
                graph: SnapshotView { peers, ..self.graph },
                links: self.links.insert(global.id, ends),
                ..self
            }
        } else {
            self
        }
    }

    /// What an announcement asks to be bound: every card, the first `default` metadata, and every
    /// node but the internal ones.
    pub open spec fn bind_request(self, global: GlobalView) -> Option<BindRequest> {
        match global.kind {
            GlobalKind::Node => if global.props matches Some(props) && globals::is_internal(props) {
                None
            } else {
                Some(BindRequest::Node)
            },
            GlobalKind::Device => if globals::announced_card(global) is Some {
                Some(BindRequest::Device)
            } else {
                None
            },
            GlobalKind::Metadata => if self.default_metadata is None && is_default_metadata(global) {
                Some(BindRequest::Metadata)
            } else {
                None
            },
            _ => None,
        }
    }

    /// The state once an object is bound.
    pub open spec fn after_bind(self, id: u32, request: BindRequest) -> BackendView {
        match request {
            BindRequest::Node => BackendView { bound_nodes: self.bound_nodes.insert(id), ..self },
            BindRequest::Device => BackendView {
                bound_devices: self.bound_devices.insert(id),
                ..self
            },
            BindRequest::Metadata => BackendView { default_metadata: Some(id), ..self },
        }
    }

    /// The state after an object went away. Its type is not told, so it leaves every table.
    /// `peers` is the adjacency table that shows the remaining links when the object was a link.
    pub open spec fn after_remove(self, id: u32, peers: Map<u32, Seq<u32>>) -> BackendView {
        BackendView {
            graph: SnapshotView {
                nodes: self.graph.nodes.filter(|n: NodeView| n.id != id),
                cards: self.graph.cards.filter(|c: CardView| c.id != id),
                peers: if self.links.contains_key(id) {
                    peers
                } else {
                    self.graph.peers
                },
                ..self.graph
            },
            bound_nodes: self.bound_nodes.remove(id),
            bound_devices: self.bound_devices.remove(id),
            channels: self.channels.remove(id),
            default_metadata: if self.default_metadata == Some(id) {
                None
            } else {
                self.default_metadata
            },
            pending_targets: self.pending_targets.remove(id),
            links: self.links.remove(id),
        }
    }

    /// The state with the target of a node set.
    pub open spec fn with_target(self, id: u32, target: Option<Seq<char>>) -> BackendView {
        match model::node_position(self.graph.nodes, id) {
            Some(i) => BackendView {
                graph: SnapshotView {
                    nodes: self.graph.nodes.update(
                        i,
                        NodeView { target, ..self.graph.nodes[i] },
                    ),
                    ..self.graph
                },
                ..self
            },
            None => self,
        }
    }

    /// The state after a property of the `default` metadata was reported. Subject 0 holds the
    /// default devices; the other subjects are streams, with their routing overrides. Without a
    /// key, every property of the subject is gone. An override of a stream that is not known yet
    /// waits for it.
    pub open spec fn after_property(
        self,
        subject: u32,
        key: Option<Seq<char>>,
        value: Option<Seq<char>>,
    ) -> BackendView {
        match key {
            None => {
                let cleared = if subject == 0 {
                    BackendView {
                        graph: SnapshotView {
                            default_sink_name: None,
                            default_source_name: None,
                            ..self.graph
                        },
                        ..self
                    }
                } else {
                    self.with_target(subject, None)
                };
                BackendView {
                    pending_targets: self.pending_targets.remove(subject),
                    ..cleared
                }
            },
            Some(key) => if subject == 0 {
                let name = match value {
                    Some(v) => util::name_field(v),
                    None => None,
                };
                if key == "default.audio.sink"@ {
                    BackendView {
                        graph: SnapshotView { default_sink_name: name, ..self.graph },
                        ..self
                    }
                } else if key == "default.audio.source"@ {
                    BackendView {
                        graph: SnapshotView { default_source_name: name, ..self.graph },
                        ..self
                    }
                } else {
                    self
                }
            } else if key == "target.object"@ || key == "target.node"@ {
                BackendView {
                    pending_targets: match value {
                        Some(v) if model::node_position(self.graph.nodes, subject) is None =>
                            self.pending_targets.insert(subject, v),
                        _ => self.pending_targets.remove(subject),
                    },
                    ..self.with_target(subject, value)
                }
            } else {
                self
            },
        }
    }

    /// The state after a card reported its active profile.
    pub open spec fn after_profile(self, card_id: u32, props: Seq<PropertyView>) -> BackendView {
        match (pods::active_profile(props), model::card_position(self.graph.cards, card_id)) {
            (Some(active), Some(i)) => BackendView {
                graph: SnapshotView {
                    cards: self.graph.cards.update(
                        i,
                        CardView { active_profile: Some(active), ..self.graph.cards[i] },
                    ),
                    ..self.graph
                },
                ..self
            },
            _ => self,
        }
    }

    /// The state after a card enumerated one of its profiles.
    pub open spec fn after_enum_profile(
        self,
        card_id: u32,
        props: Seq<PropertyView>,
    ) -> BackendView {
        match (pods::enumerated_profile(props), model::card_position(self.graph.cards, card_id)) {
            (Some(profile), Some(i)) => {
                let card = self.graph.cards[i];
                BackendView {
                    graph: SnapshotView {
                        cards: self.graph.cards.update(
                            i,
                            CardView { profiles: with_profile(card.profiles, profile), ..card },
                        ),
                        ..self.graph
                    },
                    ..self
                }
            },
            _ => self,
        }
    }

    /// The state after a node reported its properties.
    pub open spec fn after_node_props(self, node_id: u32, props: Seq<PropertyView>) -> BackendView {
        let counted = match pods::node_volume(props).channel_count {
            Some(count) => BackendView { channels: self.channels.insert(node_id, count), ..self },
            None => self,
        };
        match model::node_position(self.graph.nodes, node_id) {
            Some(i) => {
                let node = self.graph.nodes[i];
                BackendView {
                    graph: SnapshotView {
                        nodes: self.graph.nodes.update(
                            i,
                            NodeView { volume: updated_volume(node.volume, props), ..node },
                        ),
                        ..self.graph
                    },
                    ..counted
                }
            },
            None => counted,
        }
    }

    /// The state after a command. Only the default devices change at once: the server does not
    /// reliably report them back.
    pub open spec fn after_command(self, command: CommandView) -> BackendView {
        match command {
            CommandView::SetDefaultSink { node_name } => BackendView {
                graph: SnapshotView { default_sink_name: Some(node_name), ..self.graph },
                ..self
            },
            CommandView::SetDefaultSource { node_name } => BackendView {
                graph: SnapshotView { default_source_name: Some(node_name), ..self.graph },
                ..self
            },
            _ => self,
        }
    }

    /// What a command that names a default device asks of the metadata.
    pub open spec fn default_effect(self, key: Seq<char>, node_name: Seq<char>) -> Option<
        EffectView,
    > {
        if self.default_metadata is Some {
            Some(
                EffectView::SetMetadata {
                    subject: 0,
                    key,
                    kind: Some("Spa:String:JSON"@),
                    value: Some(util::name_object(node_name)),
                },
            )
        } else {
            None
        }
    }

    /// What a command asks of the bound objects: nothing when the object is not bound.
    pub open spec fn effect(self, command: CommandView) -> Option<EffectView> {
        match command {
            CommandView::Quit => Some(EffectView::Quit),
            CommandView::SetMute { node_id, muted } => if self.bound_nodes.contains(node_id) {
                Some(EffectView::SetNodeProps { node_id, properties: pods::mute_choice(muted) })
            } else {
                None
            },
            CommandView::SetVolume { node_id, percent } => if self.bound_nodes.contains(node_id) {
                let count = if self.channels.contains_key(node_id) {
                    Some(self.channels[node_id])
                } else {
                    None
                };
                Some(
                    EffectView::SetNodeProps {
                        node_id,
                        properties: pods::volume_choice(percent, count),
                    },
                )
            } else {
                None
            },
            CommandView::SetDefaultSink { node_name } => self.default_effect(
                "default.configured.audio.sink"@,
                node_name,
            ),
            CommandView::SetDefaultSource { node_name } => self.default_effect(
                "default.configured.audio.source"@,
                node_name,
            ),
            CommandView::SetCardProfile { card_id, profile_index } =>
                if self.bound_devices.contains(card_id) {
                    Some(
                        EffectView::SetCardProfile {
                            card_id,
                            properties: pods::profile_choice(profile_index),
                        },
                    )
                } else {
                    None
                },
            CommandView::SetStreamTarget { stream_id, target_serial } =>
                if self.default_metadata is Some {
                    Some(
                        EffectView::SetMetadata {
                            subject: stream_id,
                            key: "target.object"@,
                            kind: match target_serial {
                                Some(_) => Some("Spa:Id"@),
                                None => None,
                            },
                            value: match target_serial {
                                Some(serial) => Some(text::decimal(serial as nat)),
                                None => None,
                            },
                        },
                    )
                } else {
                    None
                },
        }
    }
}

/// Drops the nodes with the given id.
fn drop_node(nodes: &mut Vec<AudioNode>, id: u32)
    ensures
        model::node_views(final(nodes)@) == model::node_views(old(nodes)@).filter(
            |n: NodeView| n.id != id,
        ),
{
    let ghost keep = |n: NodeView| n.id != id;
    let ghost all = model::node_views(nodes@);
    let ghost mut done: int = 0;
    proof {
        reveal(Seq::filter);
        assert(all.take(0).filter(keep) =~= Seq::empty());
    }
    let mut i: usize = 0;
    while i < nodes.len()
        invariant
            keep == (|n: NodeView| n.id != id),
            0 <= done <= all.len(),
            i == all.take(done).filter(keep).len(),
            model::node_views(nodes@) == all.take(done).filter(keep) + all.skip(done),
        decreases all.len() - done,
    {
        let ghost kept = all.take(done).filter(keep);
        proof {
            reveal(Seq::filter);
            assert(model::node_views(nodes@)[i as int] == all[done]);
            assert(all.take(done + 1).drop_last() =~= all.take(done));
        }
        if nodes[i].id == id {
            let ghost before = model::node_views(nodes@);
            nodes.remove(i);
            assert(model::node_views(nodes@) =~= before.remove(i as int));
            assert(model::node_views(nodes@) =~= kept + all.skip(done + 1));
        } else {
            i += 1;
            assert(kept + all.skip(done) =~= kept.push(all[done]) + all.skip(done + 1));
        }
        proof {
            done = done + 1;
        }
    }
    assert(all.take(done) =~= all);
    assert(all.skip(done) =~= Seq::empty());
}

/// Drops the cards with the given id.
fn drop_card(cards: &mut Vec<AudioCard>, id: u32)
    ensures
        model::card_views(final(cards)@) == model::card_views(old(cards)@).filter(
            |c: CardView| c.id != id,
        ),
{
    let ghost keep = |c: CardView| c.id != id;
    let ghost all = model::card_views(cards@);
    let ghost mut done: int = 0;
    proof {
        reveal(Seq::filter);
        assert(all.take(0).filter(keep) =~= Seq::empty());
    }
    let mut i: usize = 0;
    while i < cards.len()
        invariant
            keep == (|c: CardView| c.id != id),
            0 <= done <= all.len(),
            i == all.take(done).filter(keep).len(),
            model::card_views(cards@) == all.take(done).filter(keep) + all.skip(done),
        decreases all.len() - done,
    {
        let ghost kept = all.take(done).filter(keep);
        proof {
            reveal(Seq::filter);
            assert(model::card_views(cards@)[i as int] == all[done]);
            assert(all.take(done + 1).drop_last() =~= all.take(done));
        }
        if cards[i].id == id {
            let ghost before = model::card_views(cards@);
            cards.remove(i);
            assert(model::card_views(cards@) =~= before.remove(i as int));
            assert(model::card_views(cards@) =~= kept + all.skip(done + 1));
        } else {
            i += 1;
            assert(kept + all.skip(done) =~= kept.push(all[done]) + all.skip(done + 1));
        }
        proof {
            done = done + 1;
        }
    }
    assert(all.take(done) =~= all);
    assert(all.skip(done) =~= Seq::empty());
}

/// Puts a profile in the place of the one with the same index, or at the end.
fn put_profile(profiles: &mut Vec<AudioProfile>, profile: AudioProfile)
    ensures
        model::profile_views(final(profiles)@) == with_profile(
            model::profile_views(old(profiles)@),
            profile@,
        ),
{
    let ghost all = model::profile_views(profiles@);
    let ghost keep = |p: ProfileView| p.index == profile@.index;
    let mut i: usize = 0;
    while i < profiles.len()
        invariant
            i <= profiles@.len(),
            all == model::profile_views(profiles@),
            all == model::profile_views(old(profiles)@),
            keep == (|p: ProfileView| p.index == profile@.index),
            forall|j: int| 0 <= j < i ==> !keep(#[trigger] all[j]),
        decreases profiles@.len() - i,
    {
        if profiles[i].index == profile.index {
            proof {
                assert(keep(all[i as int]));
                model::lemma_first_where_is(all, keep, i as int);
            }
            profiles[i] = profile;
            assert(model::profile_views(profiles@) =~= all.update(i as int, profile@));
            return ;
        }
        i += 1;
    }
    proof {
        model::lemma_first_where(all, keep);
    }
    profiles.push(profile);
    assert(model::profile_views(profiles@) =~= all.push(profile@));
}

impl BackendState {
    /// Nothing is known of the server but its name.
    pub fn new() -> (r: BackendState)
        ensures
            r@ == BackendView::initial(),
    {
        let mut snapshot = AudioSnapshot::default();
        snapshot.server_name = Some("PipeWire".to_owned());
        let r = BackendState {
            snapshot,
            bound_nodes: HashSet::new(),
            bound_devices: HashSet::new(),
            channels: HashMap::new(),
            default_metadata: None,
            pending_targets: HashMap::new(),
            links: HashMap::new(),
        };
        assert(r@.pending_targets =~= Map::empty());
        r
    }

    /// Takes in a node.
    fn put_node(&mut self, node: AudioNode)
        ensures
            final(self)@ == old(self)@.with_node(node@),
    {
        if self.snapshot.index_of(node.id).is_some() {
            return ;
        }
        let ghost before = self@;
        let ghost named = node@;
        let mut node = node;
        let ghost waiting = self.pending_targets@;
        if let Some(target) = self.pending_targets.remove(&node.id) {
            node.target = Some(target);
        }
        let ghost nodes = self.snapshot.nodes@;
        self.snapshot.nodes.push(node);
        proof {
            assert(model::node_views(self.snapshot.nodes@) =~= model::node_views(nodes).push(node@));
            assert(text_views(self.pending_targets@) =~= text_views(waiting).remove(named.id));
        }
    }

    /// Takes in a card.
    fn put_card(&mut self, card: AudioCard)
        ensures
            final(self)@ == old(self)@.with_card(card@),
    {
        if self.snapshot.card_index(card.id).is_some() {
            return ;
        }
        let ghost cards = self.snapshot.cards@;
        self.snapshot.cards.push(card);
        assert(model::card_views(self.snapshot.cards@) =~= model::card_views(cards).push(card@));
    }

    /// Takes in an announcement, and says what is to be bound.
    pub fn on_global(&mut self, global: &Global) -> (r: Option<BindRequest>)
        ensures
            r == old(self)@.bind_request(global@),
            final(self)@ == old(self)@.after_global(global@, final(self)@.graph.peers),
            globals::announced_link(global@) is Some ==> peers::shows(
                final(self)@.graph.peers,
                final(self)@.links,
            ),
    {
        let metadata_is_bound = self.default_metadata.is_some();
        let mut is_card = false;
        if let Some(node) = globals::audio_node_from_global(global) {
            self.put_node(node);
        } else if let Some(card) = globals::audio_card_from_global(global) {
            self.put_card(card);
            is_card = true;
        } else if let Some(ends) = globals::link_from_global(global) {
            self.links.insert(global.id, ends);
            peers::rebuild_peers(&mut self.snapshot.peers, &self.links);
        }
        match global.kind {
            GlobalKind::Node => match &global.props {
                Some(props) => if globals::is_internal_node(props) {
                    None
                } else {
                    Some(BindRequest::Node)
                },
                None => Some(BindRequest::Node),
            },
            GlobalKind::Device => if is_card {
                Some(BindRequest::Device)
            } else {
                None
            },
            GlobalKind::Metadata => {
                let is_default = match &global.props {
                    Some(props) => match globals::prop(props, "metadata.name") {
                        Some(name) => text::text_eq(name, "default"),
                        None => false,
                    },
                    None => false,
                };
                if is_default && !metadata_is_bound {
                    Some(BindRequest::Metadata)
                } else {
                    None
                }
            },
            _ => None,
        }
    }

    /// Notes that an object was bound.
    pub fn on_bind(&mut self, id: u32, request: BindRequest)
        ensures
            final(self)@ == old(self)@.after_bind(id, request),
    {
        match request {
            BindRequest::Node => {
                self.bound_nodes.insert(id);
            },
            BindRequest::Device => {
                self.bound_devices.insert(id);
            },
            BindRequest::Metadata => {
                self.default_metadata = Some(id);
            },
        }
    }

    /// Takes in that an object went away.
    pub fn on_global_remove(&mut self, id: u32)
        ensures
            final(self)@ == old(self)@.after_remove(id, final(self)@.graph.peers),
            old(self)@.links.contains_key(id) ==> peers::shows(
                final(self)@.graph.peers,
                final(self)@.links,
            ),
    {
        let link_dropped = self.links.remove(&id).is_some();
        drop_node(&mut self.snapshot.nodes, id);
        drop_card(&mut self.snapshot.cards, id);
        if link_dropped {
            peers::rebuild_peers(&mut self.snapshot.peers, &self.links);
        }
        self.bound_nodes.remove(&id);
        self.bound_devices.remove(&id);
        self.channels.remove(&id);
        let ghost waiting = self.pending_targets@;
        self.pending_targets.remove(&id);
        assert(text_views(self.pending_targets@) =~= text_views(waiting).remove(id));
        if self.default_metadata == Some(id) {
            self.default_metadata = None;
        }
    }

    /// Sets the target of a node, and says whether there is such a node.
    fn set_target(&mut self, id: u32, target: Option<&str>) -> (r: bool)
        ensures
            final(self)@ == old(self)@.with_target(id, text::opt_str(target)),
            r == model::node_position(old(self)@.graph.nodes, id) is Some,
    {
        match self.snapshot.node_mut(id) {
            Some(node) => {
                node.target = match target {
                    Some(t) => Some(t.to_owned()),
                    None => None,
                };
                true
            },
            None => false,
        }
    }

    /// Drops the override that waits for a stream.
    fn drop_pending(&mut self, id: u32)
        ensures
            final(self)@ == (BackendView {
                pending_targets: old(self)@.pending_targets.remove(id),
                ..old(self)@
            }),
    {
        let ghost waiting = self.pending_targets@;
        self.pending_targets.remove(&id);
        assert(text_views(self.pending_targets@) =~= text_views(waiting).remove(id));
    }

    /// Takes in a property of the `default` metadata.
    pub fn on_metadata_property(&mut self, subject: u32, key: Option<&str>, value: Option<&str>)
        ensures
            final(self)@ == old(self)@.after_property(
                subject,
                text::opt_str(key),
                text::opt_str(value),
            ),
    {
        let key = match key {
            Some(key) => key,
            None => {
                if subject == 0 {
                    self.snapshot.default_sink_name = None;
                    self.snapshot.default_source_name = None;
                } else {
                    self.set_target(subject, None);
                }
                self.drop_pending(subject);
                return ;
            },
        };
        if subject == 0 {
            let is_sink = text::text_eq(key, "default.audio.sink");
            let is_source = text::text_eq(key, "default.audio.source");
            if !is_sink && !is_source {
                return ;
            }
            let name = match value {
                Some(v) => match util::parse_name_json(v) {
                    Some(name) => Some(name.to_owned()),
                    None => None,
                },
                None => None,
            };
            if is_sink {
                self.snapshot.default_sink_name = name;
            } else {
                self.snapshot.default_source_name = name;
            }
            return ;
        }
        if !text::text_eq(key, "target.object") && !text::text_eq(key, "target.node") {
            return ;
        }
        let applied = self.set_target(subject, value);
        match value {
            Some(v) if !applied => {
                let ghost waiting = self.pending_targets@;
                let v = v.to_owned();
                self.pending_targets.insert(subject, v);
                assert(text_views(self.pending_targets@) =~= text_views(waiting).insert(
                    subject,
                    v@,
                ));
            },
            _ => self.drop_pending(subject),
        }
    }

    /// Takes in the active profile that a card reported.
    pub fn on_profile(&mut self, card_id: u32, properties: &Vec<PodProperty>)
        ensures
            final(self)@ == old(self)@.after_profile(
                card_id,
                pods::property_views(properties@),
            ),
    {
        if let Some(active) = pods::decode_active_profile_index(properties) {
            if let Some(i) = self.snapshot.card_index(card_id) {
                let ghost cards = self.snapshot.cards@;
                self.snapshot.cards[i].active_profile = Some(active);
                assert(model::card_views(self.snapshot.cards@) =~= model::card_views(cards).update(
                    i as int,
                    self.snapshot.cards@[i as int]@,
                ));
            }
        }
    }

    /// Takes in a profile that a card enumerated.
    pub fn on_enum_profile(&mut self, card_id: u32, properties: &Vec<PodProperty>)
        ensures
            final(self)@ == old(self)@.after_enum_profile(
                card_id,
                pods::property_views(properties@),
            ),
    {
        if let Some(profile) = pods::decode_enum_profile(properties) {
            if let Some(i) = self.snapshot.card_index(card_id) {
                let ghost cards = self.snapshot.cards@;
                put_profile(&mut self.snapshot.cards[i].profiles, profile);
                assert(model::card_views(self.snapshot.cards@) =~= model::card_views(cards).update(
                    i as int,
                    self.snapshot.cards@[i as int]@,
                ));
            }
        }
    }

    /// Takes in the properties that a node reported.
    pub fn on_node_props(&mut self, node_id: u32, properties: &Vec<PodProperty>)
        ensures
            final(self)@ == old(self)@.after_node_props(
                node_id,
                pods::property_views(properties@),
            ),
    {
        let decoded = pods::decode_props(properties);
        if let Some(count) = decoded.channel_count {
            self.channels.insert(node_id, count);
        }
        if let Some(node) = self.snapshot.node_mut(node_id) {
            if decoded.mute.is_some() || decoded.volume.is_some() {
                let current = match node.volume {
                    Some(v) => v,
                    None => Volume { hundredths: 100, muted: false },
                };
                node.volume = Some(
                    Volume {
                        hundredths: match decoded.volume {
                            Some(v) => v,
                            None => current.hundredths,
                        },
                        muted: match decoded.mute {
                            Some(m) => m,
                            None => current.muted,
                        },
                    },
                );
            }
        }
    }

    /// What asks the metadata for a default device.
    fn ask_default(&self, key: &str, node_name: &str) -> (r: Option<Effect>)
        ensures
            opt_effect(r) == self@.default_effect(key@, node_name@),
    {
        if self.default_metadata.is_none() {
            return None;
        }
        Some(
            Effect::SetMetadata {
                subject: 0,
                key: key.to_owned(),
                kind: Some("Spa:String:JSON".to_owned()),
                value: Some(util::name_json(node_name)),
            },
        )
    }

    /// Takes in a command, and says what it asks of the bound objects.
    pub fn on_command(&mut self, command: BackendCommand) -> (r: Option<Effect>)
        ensures
            opt_effect(r) == old(self)@.effect(command@),
            final(self)@ == old(self)@.after_command(command@),
    {
        match command {
            BackendCommand::Quit => Some(Effect::Quit),
            BackendCommand::SetMute { node_id, muted } => if self.bound_nodes.contains(&node_id) {
                Some(Effect::SetNodeProps { node_id, properties: pods::mute_properties(muted) })
            } else {
                None
            },
            BackendCommand::SetVolume { node_id, percent } => {
                if !self.bound_nodes.contains(&node_id) {
                    return None;
                }
                let count = match self.channels.get(&node_id) {
                    Some(count) => Some(*count),
                    None => None,
                };
                let properties = pods::volume_properties(percent, count);
                Some(Effect::SetNodeProps { node_id, properties })
            },
            BackendCommand::SetDefaultSink { node_name } => {
                let r = self.ask_default("default.configured.audio.sink", node_name.as_str());
                self.snapshot.default_sink_name = Some(node_name);
                r
            },
            BackendCommand::SetDefaultSource { node_name } => {
                let r = self.ask_default("default.configured.audio.source", node_name.as_str());
                self.snapshot.default_source_name = Some(node_name);
                r
            },
            BackendCommand::SetCardProfile { card_id, profile_index } =>
                if self.bound_devices.contains(&card_id) {
                    Some(
                        Effect::SetCardProfile {
                            card_id,
                            properties: pods::profile_properties(profile_index),
                        },
                    )
                } else {
                    None
                },
            BackendCommand::SetStreamTarget { stream_id, target_serial } => {
                if self.default_metadata.is_none() {
                    return None;
                }
                let (kind, value) = match target_serial {
                    Some(serial) => (Some("Spa:Id".to_owned()), Some(text::to_decimal(serial))),
                    None => (None, None),
                };
                Some(
                    Effect::SetMetadata {
                        subject: stream_id,
                        key: "target.object".to_owned(),
                        kind,
                        value,
                    },
                )
            },
        }
    }
}

} // verus!
