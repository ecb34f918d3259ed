//! What every event of the server changes in what is known of it, and what it leaves as it is.

use vstd::prelude::*;

use crate::backend::globals;
use crate::backend::globals::{GlobalKind, GlobalView};
use crate::backend::peers;
use crate::backend::pods;
use crate::backend::pods::PropertyView;
use crate::backend::registry::{BackendView, BindRequest, EffectView};
use crate::backend::CommandView;
use crate::model;
use crate::model::{CardView, NodeView, SnapshotView};
use crate::model_laws;
use crate::util;

verus! {

/// A volume that a node reports is its volume from then on, whether or not it reports a mute state
/// too; and a mute state is its mute state, whether or not it reports a volume too. What it does
/// not report stays, and where it was not known the node counts as at 100 percent and not muted.
/// Nothing else changes but the number of the node's channels.
pub proof fn lemma_reports_are_taken_over(
    state: BackendView,
    k: int,
    props: Seq<PropertyView>,
    other: int,
)
    requires
        state.valid(),
        0 <= k < state.graph.nodes.len(),
    ensures
        ({
            let node = state.graph.nodes[k];
            let next = state.after_node_props(node.id, props);
            let after = next.graph.nodes[k];
            let reported = pods::node_volume(props);
            &&& reported.volume matches Some(v) ==> (after.volume matches Some(w) && w.hundredths
                == v)
            &&& reported.mute matches Some(m) ==> (after.volume matches Some(w) && w.muted == m)
            &&& reported.volume is None && reported.mute is Some ==> (after.volume matches Some(w)
                && w.hundredths == match node.volume {
                Some(before) => before.hundredths,
                None => 100,
            })
            &&& reported.mute is None && reported.volume is Some ==> (after.volume matches Some(w)
                && w.muted == match node.volume {
                Some(before) => before.muted,
                None => false,
            })
            &&& reported.mute is None && reported.volume is None ==> after == node
            &&& after == (NodeView { volume: after.volume, ..node })
            &&& next.graph == (SnapshotView { nodes: next.graph.nodes, ..state.graph })
            &&& next.graph.nodes.len() == state.graph.nodes.len()
            &&& 0 <= other < state.graph.nodes.len() && other != k ==> next.graph.nodes[other]
                == state.graph.nodes[other]
            &&& next == (BackendView { graph: next.graph, channels: next.channels, ..state })
            &&& next.channels == match reported.channel_count {
                Some(count) => state.channels.insert(node.id, count),
                None => state.channels,
            }
        }),
{
    model_laws::lemma_listed_is_found(state.graph, k);
}

/// Whether a state differs from another at most in its nodes and in the overrides that wait.
pub open spec fn same_but_nodes(a: BackendView, b: BackendView) -> bool {
    b == (BackendView {
        graph: SnapshotView { nodes: b.graph.nodes, ..a.graph },
        pending_targets: b.pending_targets,
        ..a
    })
}

/// A node that is announced joins the end of the list, as it was read, but for an override that
/// was waiting for it; a node whose id is listed already changes nothing.
pub proof fn lemma_announced_nodes_join(
    state: BackendView,
    global: GlobalView,
    peers: Map<u32, Seq<u32>>,
    node: NodeView,
    k: int,
)
    requires
        globals::announced_node(global) == Some(node),
    ensures
        ({
            let next = state.after_global(global, peers);
            let nodes = state.graph.nodes;
            &&& 0 <= k < nodes.len() && nodes[k].id == node.id ==> next == state
            &&& (forall|j: int| 0 <= j < nodes.len() ==> (#[trigger] nodes[j]).id != node.id) ==> {
                &&& same_but_nodes(state, next)
                &&& next.graph.nodes.len() == nodes.len() + 1
                &&& 0 <= k < nodes.len() ==> next.graph.nodes[k] == nodes[k]
                &&& state.pending_targets.contains_key(node.id) ==> next.graph.nodes.last() == (
                NodeView { target: Some(state.pending_targets[node.id]), ..node })
                &&& !state.pending_targets.contains_key(node.id) ==> next.graph.nodes.last() == node
                &&& next.pending_targets == state.pending_targets.remove(node.id)
            }
        }),
{
    let same = |n: NodeView| n.id == node.id;
    model::lemma_first_where(state.graph.nodes, same);
    if 0 <= k < state.graph.nodes.len() && state.graph.nodes[k].id == node.id {
        assert(same(state.graph.nodes[k]));
    }
    if model::node_position(state.graph.nodes, node.id) is Some {
        let i = model::node_position(state.graph.nodes, node.id)->0;
        assert(state.graph.nodes[i].id == node.id);
    }
}

/// A card that is announced joins the end of the list; a card whose id is listed already changes
/// nothing. What is neither a node nor a card nor a link changes nothing either.
pub proof fn lemma_announced_cards_join(
    state: BackendView,
    global: GlobalView,
    peers: Map<u32, Seq<u32>>,
    k: int,
)
    ensures
        ({
            let next = state.after_global(global, peers);
            let cards = state.graph.cards;
            &&& globals::announced_card(global) matches Some(card) ==> {
                &&& 0 <= k < cards.len() && cards[k].id == card.id ==> next == state
                &&& (forall|j: int| 0 <= j < cards.len() ==> (#[trigger] cards[j]).id != card.id)
                    ==> next == (BackendView {
                    graph: SnapshotView { cards: cards.push(card), ..state.graph },
                    ..state
                })
            }
            &&& globals::announced_node(global) is None && globals::announced_card(global) is None
                && globals::announced_link(global) is None ==> next == state
        }),
{
    if let Some(card) = globals::announced_card(global) {
        let same = |c: CardView| c.id == card.id;
        model::lemma_first_where(state.graph.cards, same);
        if 0 <= k < state.graph.cards.len() && state.graph.cards[k].id == card.id {
            assert(same(state.graph.cards[k]));
        }
        if model::card_position(state.graph.cards, card.id) is Some {
            let i = model::card_position(state.graph.cards, card.id)->0;
            assert(state.graph.cards[i].id == card.id);
        }
    }
}

/// A link that is announced makes its two nodes each other's peers; when it goes, they are peers no
/// more, unless another link connects them.
pub proof fn lemma_links_make_peers(
    state: BackendView,
    global: GlobalView,
    with: Map<u32, Seq<u32>>,
    without: Map<u32, Seq<u32>>,
    ends: (u32, u32),
    a: u32,
    b: u32,
)
    requires
        globals::announced_link(global) == Some(ends),
        peers::shows(with, state.links.insert(global.id, ends)),
        peers::shows(without, state.links.remove(global.id)),
    ensures
        ({
            let next = state.after_global(global, with);
            let gone = next.after_remove(global.id, without);
            &&& next.graph.peers.contains_key(ends.0) && next.graph.peers[ends.0].contains(ends.1)
            &&& next.graph.peers.contains_key(ends.1) && next.graph.peers[ends.1].contains(ends.0)
            &&& next == (BackendView {
                graph: SnapshotView { peers: with, ..state.graph },
                links: state.links.insert(global.id, ends),
                ..state
            })
            &&& gone.graph.peers.contains_key(a) && gone.graph.peers[a].contains(b) ==> exists|
                id: u32,
            |
                id != global.id && #[trigger] state.links.contains_key(id) && (state.links[id] == (
                    a,
                    b,
                ) || state.links[id] == (b, a))
        }),
{
    let links = state.links.insert(global.id, ends);
    let rest = state.links.remove(global.id);
    let next = state.after_global(global, with);
    let gone = next.after_remove(global.id, without);
    peers::lemma_linked(links, ends.0, ends.1);
    peers::lemma_linked(links, ends.1, ends.0);
    assert(links.contains_key(global.id) && links[global.id] == ends);
    assert(peers::listed(with, ends.0, ends.1));
    assert(peers::listed(with, ends.1, ends.0));
    assert(next.links.remove(global.id) =~= rest);
    if gone.graph.peers.contains_key(a) && gone.graph.peers[a].contains(b) {
        assert(peers::listed(without, a, b));
        peers::lemma_linked(rest, a, b);
        let id = choose|id: u32| #[trigger]
            rest.contains_key(id) && (rest[id] == (a, b) || rest[id] == (b, a));
        assert(state.links.contains_key(id));
    }
}

/// An object that goes takes with it what is known of it, and nothing of the others.
pub proof fn lemma_the_others_stay(
    state: BackendView,
    id: u32,
    peers: Map<u32, Seq<u32>>,
    node: NodeView,
    card: CardView,
    other: u32,
)
    requires
        other != id,
    ensures
        ({
            let next = state.after_remove(id, peers);
            &&& next.graph.nodes.contains(node) <==> state.graph.nodes.contains(node) && node.id
                != id
            &&& next.graph.cards.contains(card) <==> state.graph.cards.contains(card) && card.id
                != id
            &&& next.graph.default_sink_name == state.graph.default_sink_name
            &&& next.graph.default_source_name == state.graph.default_source_name
            &&& next.graph.server_name == state.graph.server_name
            &&& next.graph.error == state.graph.error
            &&& !state.links.contains_key(id) ==> next.graph.peers == state.graph.peers
            &&& state.links.contains_key(id) ==> next.graph.peers == peers
            &&& next.bound_nodes.contains(other) == state.bound_nodes.contains(other)
            &&& next.bound_devices.contains(other) == state.bound_devices.contains(other)
            &&& next.channels.contains_key(other) == state.channels.contains_key(other)
            &&& state.channels.contains_key(other) ==> next.channels[other] == state.channels[other]
            &&& next.pending_targets.contains_key(other) == state.pending_targets.contains_key(other)
            &&& state.pending_targets.contains_key(other) ==> next.pending_targets[other]
                == state.pending_targets[other]
            &&& next.links.contains_key(other) == state.links.contains_key(other)
            &&& state.links.contains_key(other) ==> next.links[other] == state.links[other]
            &&& state.default_metadata == Some(other) ==> next.default_metadata == Some(other)
        }),
{
    model_laws::lemma_filter_contains(state.graph.nodes, |n: NodeView| n.id != id, node);
    model_laws::lemma_filter_contains(state.graph.cards, |c: CardView| c.id != id, card);
}

/// A default device that the metadata reports by its name is the default from then on, and the
/// other default stays; a report without a name clears it, and other keys do not matter.
pub proof fn lemma_defaults_are_reported(state: BackendView, name: Seq<char>, key: Seq<char>)
    requires
        !name.contains('"'),
        !name.contains('\\'),
        key != "default.audio.sink"@,
        key != "default.audio.source"@,
    ensures
        state.after_property(0, Some("default.audio.sink"@), Some(util::name_object(name))) == (
        BackendView {
            graph: SnapshotView { default_sink_name: Some(name), ..state.graph },
            ..state
        }),
        state.after_property(0, Some("default.audio.source"@), Some(util::name_object(name))) == (
        BackendView {
            graph: SnapshotView { default_source_name: Some(name), ..state.graph },
            ..state
        }),
        state.after_property(0, Some("default.audio.sink"@), None) == (BackendView {
            graph: SnapshotView { default_sink_name: None, ..state.graph },
            ..state
        }),
        state.after_property(0, Some("default.audio.source"@), None) == (BackendView {
            graph: SnapshotView { default_source_name: None, ..state.graph },
            ..state
        }),
        state.after_property(0, Some(key), Some(util::name_object(name))) == state,
        state.after_property(0, None, None) == (BackendView {
            graph: SnapshotView { default_sink_name: None, default_source_name: None, ..state.graph },
            pending_targets: state.pending_targets.remove(0),
            ..state
        }),
{
    util::lemma_name_round_trip(name);
    reveal_strlit("default.audio.sink");
    reveal_strlit("default.audio.source");
    assert("default.audio.sink"@.len() == 18);
    assert("default.audio.source"@.len() == 20);
}

/// A routing override that is reported of a listed stream is its target, as it was reported, and
/// none when it was cleared; one of a stream that is not listed waits for it. Other keys do not
/// matter, and no other stream is touched.
pub proof fn lemma_overrides_are_reported(
    state: BackendView,
    k: int,
    value: Option<Seq<char>>,
    other: int,
    subject: u32,
    key: Seq<char>,
)
    requires
        state.valid(),
        0 <= k < state.graph.nodes.len(),
        state.graph.nodes[k].id != 0,
        subject != 0,
        forall|j: int|
            0 <= j < state.graph.nodes.len() ==> (#[trigger] state.graph.nodes[j]).id != subject,
        key == "target.object"@ || key == "target.node"@,
    ensures
        ({
            let node = state.graph.nodes[k];
            let next = state.after_property(node.id, Some(key), value);
            let cleared = state.after_property(node.id, None, value);
            &&& next.graph.nodes[k] == (NodeView { target: value, ..node })
            &&& cleared.graph.nodes[k] == (NodeView { target: None, ..node })
            &&& next.graph.nodes.len() == state.graph.nodes.len()
            &&& 0 <= other < state.graph.nodes.len() && other != k ==> next.graph.nodes[other]
                == state.graph.nodes[other] && cleared.graph.nodes[other]
                == state.graph.nodes[other]
            &&& same_but_nodes(state, next)
            &&& same_but_nodes(state, cleared)
            &&& cleared.graph.nodes.len() == state.graph.nodes.len()
            &&& next.pending_targets == state.pending_targets.remove(node.id)
            &&& cleared.pending_targets == state.pending_targets.remove(node.id)
        }),
        ({
            let next = state.after_property(subject, Some(key), value);
            let cleared = state.after_property(subject, None, value);
            &&& next == (BackendView { pending_targets: next.pending_targets, ..state })
            &&& cleared == (BackendView { pending_targets: cleared.pending_targets, ..state })
            &&& value matches Some(v) ==> next.pending_targets == state.pending_targets.insert(
                subject,
                v,
            )
            &&& value is None ==> next.pending_targets == state.pending_targets.remove(subject)
            &&& state.after_property(subject, None, value).pending_targets
                == state.pending_targets.remove(subject)
        }),
{
    model_laws::lemma_listed_is_found(state.graph, k);
    let same = |n: NodeView| n.id == subject;
    model::lemma_first_where(state.graph.nodes, same);
    if let Some(i) = model::node_position(state.graph.nodes, subject) {
        assert(state.graph.nodes[i].id == subject);
    }
}

/// What is reported of a stream under a key that has nothing to do with routing changes nothing.
pub proof fn lemma_other_properties_are_ignored(
    state: BackendView,
    subject: u32,
    key: Seq<char>,
    value: Option<Seq<char>>,
)
    requires
        subject != 0,
        key != "target.object"@,
        key != "target.node"@,
    ensures
        state.after_property(subject, Some(key), value) == state,
{
}

/// The profile that a card reports is its active one, and the profile that it enumerates is among
/// its profiles; nothing else of it changes, and no other card.
pub proof fn lemma_card_reports_are_taken_over(
    state: BackendView,
    k: int,
    props: Seq<PropertyView>,
    other: int,
)
    requires
        state.valid(),
        0 <= k < state.graph.cards.len(),
    ensures
        ({
            let card = state.graph.cards[k];
            let active = state.after_profile(card.id, props);
            let listed = state.after_enum_profile(card.id, props);
            &&& pods::active_profile(props) matches Some(index) ==> active.graph.cards[k] == (
            CardView { active_profile: Some(index), ..card })
            &&& pods::active_profile(props) is None ==> active == state
            &&& pods::enumerated_profile(props) matches Some(profile)
                ==> listed.graph.cards[k].profiles.contains(profile) && listed.graph.cards[k] == (
            CardView { profiles: listed.graph.cards[k].profiles, ..card })
            &&& pods::enumerated_profile(props) is None ==> listed == state
            &&& 0 <= other < state.graph.cards.len() && other != k ==> active.graph.cards[other]
                == state.graph.cards[other] && listed.graph.cards[other]
                == state.graph.cards[other]
            &&& active == (BackendView {
                graph: SnapshotView { cards: active.graph.cards, ..state.graph },
                ..state
            })
            &&& listed == (BackendView {
                graph: SnapshotView { cards: listed.graph.cards, ..state.graph },
                ..state
            })
        }),
{
    let id = state.graph.cards[k].id;
    model::lemma_first_where_is(state.graph.cards, |c: CardView| c.id == id, k);
    if let Some(profile) = pods::enumerated_profile(props) {
        crate::backend::report_laws::lemma_profiles_are_kept_by_index(
            state.graph.cards[k].profiles,
            profile,
            0,
        );
    }
}

/// Every node is bound but the panel's own, every card is, and of the metadata the first one that
/// is called `default`.
pub proof fn lemma_what_is_bound(state: BackendView, global: GlobalView)
    ensures
        state.bind_request(global) == Some(BindRequest::Node) <==> global.kind == GlobalKind::Node
            && !(global.props matches Some(props) && globals::is_internal(props)),
        state.bind_request(global) == Some(BindRequest::Device) <==> globals::announced_card(
            global,
        ) is Some,
        state.bind_request(global) == Some(BindRequest::Metadata) <==> {
            &&& global.kind == GlobalKind::Metadata
            &&& state.default_metadata is None
            &&& global.props matches Some(props)
            &&& globals::prop_value(props, "metadata.name"@) == Some("default"@)
        },
{
}

/// A command reaches an object once it is bound, and not before; once the object is gone, it does
/// so no more.
pub proof fn lemma_commands_need_bindings(
    state: BackendView,
    id: u32,
    muted: bool,
    percent: u32,
    index: u32,
    serial: Option<u64>,
    name: Seq<char>,
    peers: Map<u32, Seq<u32>>,
)
    ensures
        ({
            let mute = CommandView::SetMute { node_id: id, muted };
            let volume = CommandView::SetVolume { node_id: id, percent };
            let profile = CommandView::SetCardProfile { card_id: id, profile_index: index };
            let target = CommandView::SetStreamTarget { stream_id: id, target_serial: serial };
            let sink = CommandView::SetDefaultSink { node_name: name };
            let source = CommandView::SetDefaultSource { node_name: name };
            let node = state.after_bind(id, BindRequest::Node);
            let device = state.after_bind(id, BindRequest::Device);
            let metadata = state.after_bind(id, BindRequest::Metadata);
            let gone = state.after_remove(id, peers);
            &&& node.effect(mute) is Some && node.effect(volume) is Some
            &&& device.effect(profile) is Some
            &&& metadata.effect(target) is Some && metadata.effect(sink) is Some
                && metadata.effect(source) is Some
            &&& gone.effect(mute) is None && gone.effect(volume) is None && gone.effect(
                profile,
            ) is None
            &&& state.default_metadata == Some(id) ==> gone.effect(target) is None && gone.effect(
                sink,
            ) is None && gone.effect(source) is None
            &&& BackendView::initial().effect(mute) is None
            &&& BackendView::initial().effect(target) is None
            &&& node.graph == state.graph && device.graph == state.graph && metadata.graph
                == state.graph
            &&& state.effect(CommandView::Quit) == Some(EffectView::Quit)
        }),
{
}

/// A command that makes a device the default writes its name, in a form that reads back as that
/// name, into the metadata under the key for its direction; until the server says so, only the
/// graph's default of that direction changes.
pub proof fn lemma_defaults_are_written(state: BackendView, name: Seq<char>)
    requires
        state.default_metadata is Some,
        !name.contains('"'),
        !name.contains('\\'),
    ensures
        ({
            let sink = CommandView::SetDefaultSink { node_name: name };
            let source = CommandView::SetDefaultSource { node_name: name };
            &&& writes_name(state.effect(sink), "default.configured.audio.sink"@, name)
            &&& writes_name(state.effect(source), "default.configured.audio.source"@, name)
            &&& state.after_command(sink) == (BackendView {
                graph: SnapshotView { default_sink_name: Some(name), ..state.graph },
                ..state
            })
            &&& state.after_command(source) == (BackendView {
                graph: SnapshotView { default_source_name: Some(name), ..state.graph },
                ..state
            })
        }),
{
    util::lemma_name_round_trip(name);
}

/// Whether an effect writes a name under a key of the defaults.
pub open spec fn writes_name(effect: Option<EffectView>, key: Seq<char>, name: Seq<char>) -> bool {
    &&& effect matches Some(EffectView::SetMetadata { subject, key: written, kind, value })
    &&& subject == 0
    &&& written == key
    &&& kind == Some("Spa:String:JSON"@)
    &&& value matches Some(value)
    &&& util::name_field(value) == Some(name)
}

/// A command other than that for a default device changes nothing before the server reports it.
pub proof fn lemma_other_commands_wait(state: BackendView, command: CommandView)
    requires
        !(command is SetDefaultSink),
        !(command is SetDefaultSource),
    ensures
        state.after_command(command) == state,
{
}

/// A pin is written to the stream itself: as the serial of the device, marked as an id, and without
/// a kind and a value when it is cleared.
pub proof fn lemma_pins_are_written(state: BackendView, stream_id: u32, serial: u64)
    requires
        state.default_metadata is Some,
    ensures
        ({
            &&& state.effect(
                CommandView::SetStreamTarget { stream_id, target_serial: Some(serial) },
            ) matches Some(EffectView::SetMetadata { subject, key, kind, value })
            &&& subject == stream_id
            &&& key == "target.object"@
            &&& kind == Some("Spa:Id"@)
            &&& value matches Some(value)
            &&& crate::text::parsed_u64(value) == Some(serial)
        }),
        state.effect(CommandView::SetStreamTarget { stream_id, target_serial: None }) == Some(
            EffectView::SetMetadata {
                subject: stream_id,
                key: "target.object"@,
                kind: None,
                value: None,
            },
        ),
{
    crate::text::lemma_parsed_decimal(serial as nat, u64::MAX as int);
}

/// A report of a node or a card that is not listed changes nothing of the graph; at most the number
/// of channels is noted.
pub proof fn lemma_reports_of_others_wait(
    state: BackendView,
    id: u32,
    props: Seq<PropertyView>,
)
    ensures
        (forall|j: int| 0 <= j < state.graph.nodes.len() ==> (#[trigger] state.graph.nodes[j]).id
            != id) ==> {
            let next = state.after_node_props(id, props);
            &&& next == (BackendView { channels: next.channels, ..state })
            &&& next.channels == match pods::node_volume(props).channel_count {
                Some(count) => state.channels.insert(id, count),
                None => state.channels,
            }
        },
        (forall|j: int| 0 <= j < state.graph.cards.len() ==> (#[trigger] state.graph.cards[j]).id
            != id) ==> state.after_profile(id, props) == state && state.after_enum_profile(id, props)
            == state,
{
    model::lemma_first_where(state.graph.nodes, |n: NodeView| n.id == id);
    model::lemma_first_where(state.graph.cards, |c: CardView| c.id == id);
}

/// An object that is bound is noted among those of its kind, and nothing else changes.
pub proof fn lemma_bindings_are_noted(state: BackendView, id: u32, other: u32)
    ensures
        ({
            let node = state.after_bind(id, BindRequest::Node);
            let device = state.after_bind(id, BindRequest::Device);
            let metadata = state.after_bind(id, BindRequest::Metadata);
            &&& node.bound_nodes.contains(other) <==> state.bound_nodes.contains(other) || other
                == id
            &&& node == (BackendView { bound_nodes: node.bound_nodes, ..state })
            &&& device.bound_devices.contains(other) <==> state.bound_devices.contains(other)
                || other == id
            &&& device == (BackendView { bound_devices: device.bound_devices, ..state })
            &&& metadata == (BackendView { default_metadata: Some(id), ..state })
        }),
{
}

/// When a listed node or card goes, the others close up behind it, in their order.
pub proof fn lemma_the_others_close_up(
    state: BackendView,
    peers: Map<u32, Seq<u32>>,
    k: int,
    c: int,
)
    requires
        state.valid(),
    ensures
        0 <= k < state.graph.nodes.len() ==> state.after_remove(
            state.graph.nodes[k].id,
            peers,
        ).graph.nodes == state.graph.nodes.remove(k),
        0 <= c < state.graph.cards.len() ==> state.after_remove(
            state.graph.cards[c].id,
            peers,
        ).graph.cards == state.graph.cards.remove(c),
{
    if 0 <= k < state.graph.nodes.len() {
        let id = state.graph.nodes[k].id;
        let keep = |n: NodeView| n.id != id;
        assert forall|j: int| 0 <= j < state.graph.nodes.len() implies keep(state.graph.nodes[j]) == (
        j != k) by {
            if j < k {
                assert(state.graph.nodes[j].id != state.graph.nodes[k].id);
            } else if j > k {
                assert(state.graph.nodes[k].id != state.graph.nodes[j].id);
            }
        }
        lemma_filter_but_one(state.graph.nodes, keep, k);
    }
    if 0 <= c < state.graph.cards.len() {
        let id = state.graph.cards[c].id;
        let keep = |x: CardView| x.id != id;
        assert forall|j: int| 0 <= j < state.graph.cards.len() implies keep(state.graph.cards[j]) == (
        j != c) by {
            if j < c {
                assert(state.graph.cards[j].id != state.graph.cards[c].id);
            } else if j > c {
                assert(state.graph.cards[c].id != state.graph.cards[j].id);
            }
        }
        lemma_filter_but_one(state.graph.cards, keep, c);
    }
}

proof fn lemma_filter_but_one<T>(s: Seq<T>, keep: spec_fn(T) -> bool, k: int)
    requires
        0 <= k < s.len(),
        forall|j: int| 0 <= j < s.len() ==> keep(#[trigger] s[j]) == (j != k),
    ensures
        s.filter(keep) == s.remove(k),
    decreases s.len(),
{
    reveal(Seq::filter);
    let front = s.drop_last();
    assert forall|j: int| 0 <= j < front.len() implies keep(#[trigger] front[j]) == (j != k) by {
        assert(front[j] == s[j]);
    }
    assert(keep(s[s.len() - 1]) == (s.len() - 1 != k));
    if k < front.len() {
        lemma_filter_but_one(front, keep, k);
        assert(s.remove(k) =~= front.remove(k).push(s.last()));
    } else {
        lemma_filter_all(front, keep);
        assert(s.remove(k) =~= front);
    }
}

proof fn lemma_filter_all<T>(s: Seq<T>, keep: spec_fn(T) -> bool)
    requires
        forall|j: int| 0 <= j < s.len() ==> keep(#[trigger] s[j]),
    ensures
        s.filter(keep) == s,
    decreases s.len(),
{
    reveal(Seq::filter);
    if s.len() > 0 {
        let front = s.drop_last();
        assert forall|j: int| 0 <= j < front.len() implies keep(#[trigger] front[j]) by {
            assert(front[j] == s[j]);
        }
        lemma_filter_all(front, keep);
        assert(keep(s[s.len() - 1]));
        assert(s =~= front.push(s.last()));
    }
}

} // verus!
