//! What holds of the state that follows the registry, whatever the events and their order.

use vstd::prelude::*;

use crate::backend::globals;
use crate::backend::globals::GlobalView;
use crate::backend::peers;
use crate::backend::pods;
use crate::backend::pods::PropertyView;
use crate::backend::registry;
use crate::backend::registry::{BackendView, BindRequest, EffectView};
use crate::backend::CommandView;
use crate::model;
use crate::model::{CardView, Direction, NodeView, ProfileView, SnapshotView, Volume};
use crate::text;

verus! {

/// The state at the start is valid.
pub proof fn lemma_initial_is_valid()
    ensures
        BackendView::initial().valid(),
{
    let start = BackendView::initial();
    assert forall|a: u32, b: u32|
        #[trigger] peers::listed(start.graph.peers, a, b) <==> peers::linked(start.links, a, b) by {
    }
}

/// An announcement keeps the state valid.
pub proof fn lemma_global_keeps_valid(
    state: BackendView,
    global: GlobalView,
    peers: Map<u32, Seq<u32>>,
)
    requires
        state.valid(),
        globals::announced_link(global) matches Some(ends) ==> peers::shows(
            peers,
            state.links.insert(global.id, ends),
        ),
    ensures
        state.after_global(global, peers).valid(),
{
    let next = state.after_global(global, peers);
    if let Some(node) = globals::announced_node(global) {
        let keep = |n: NodeView| n.id == node.id;
        model::lemma_first_where(state.graph.nodes, keep);
        if model::node_position(state.graph.nodes, node.id) is None {
            let nodes = next.graph.nodes;
            assert forall|i: int, j: int| 0 <= i < j < nodes.len() implies #[trigger] nodes[i].id
                != #[trigger] nodes[j].id by {
                assert(!keep(state.graph.nodes[i]));
            }
        }
    } else if let Some(card) = globals::announced_card(global) {
        let keep = |c: CardView| c.id == card.id;
        model::lemma_first_where(state.graph.cards, keep);
        if model::card_position(state.graph.cards, card.id) is None {
            let cards = next.graph.cards;
            assert forall|i: int, j: int| 0 <= i < j < cards.len() implies #[trigger] cards[i].id
                != #[trigger] cards[j].id by {
                assert(!keep(state.graph.cards[i]));
            }
        }
    }
}

/// A binding keeps the state valid.
pub proof fn lemma_bind_keeps_valid(state: BackendView, id: u32, request: BindRequest)
    requires
        state.valid(),
    ensures
        state.after_bind(id, request).valid(),
{
}

/// A removal keeps the state valid.
pub proof fn lemma_remove_keeps_valid(state: BackendView, id: u32, peers: Map<u32, Seq<u32>>)
    requires
        state.valid(),
        state.links.contains_key(id) ==> peers::shows(peers, state.links.remove(id)),
    ensures
        state.after_remove(id, peers).valid(),
{
    let next = state.after_remove(id, peers);
    lemma_filter_keeps_distinct_nodes(state.graph.nodes, id);
    lemma_filter_keeps_distinct_cards(state.graph.cards, id);
    assert forall|i: int| 0 <= i < next.graph.cards.len() implies registry::distinct_profiles(
        (#[trigger] next.graph.cards[i]).profiles,
    ) by {
        let keep = |c: CardView| c.id != id;
        assert(next.graph.cards.contains(next.graph.cards[i]));
        state.graph.cards.lemma_filter_contains_rev(keep, next.graph.cards[i]);
        let k = choose|k: int|
            0 <= k < state.graph.cards.len() && state.graph.cards[k] == next.graph.cards[i];
        assert(registry::distinct_profiles(state.graph.cards[k].profiles));
    }
    if !state.links.contains_key(id) {
        assert(state.links.remove(id) =~= state.links);
    }
}

proof fn lemma_filter_keeps_distinct_nodes(nodes: Seq<NodeView>, id: u32)
    requires
        registry::distinct_nodes(nodes),
    ensures
        registry::distinct_nodes(nodes.filter(|n: NodeView| n.id != id)),
    decreases nodes.len(),
{
    reveal(Seq::filter);
    let keep = |n: NodeView| n.id != id;
    if nodes.len() > 0 {
        let front = nodes.drop_last();
        lemma_filter_keeps_distinct_nodes(front, id);
        let kept = front.filter(keep);
        if keep(nodes.last()) {
            assert forall|i: int, j: int| 0 <= i < j < kept.len() + 1 implies #[trigger] kept.push(
                nodes.last(),
            )[i].id != #[trigger] kept.push(nodes.last())[j].id by {
                if j == kept.len() {
                    assert(kept.contains(kept[i]));
                    front.lemma_filter_contains_rev(keep, kept[i]);
                    let k = choose|k: int| 0 <= k < front.len() && front[k] == kept[i];
                    assert(nodes[k].id != nodes[nodes.len() - 1].id);
                }
            }
        }
    }
}

proof fn lemma_filter_keeps_distinct_cards(cards: Seq<CardView>, id: u32)
    requires
        registry::distinct_cards(cards),
    ensures
        registry::distinct_cards(cards.filter(|c: CardView| c.id != id)),
    decreases cards.len(),
{
    reveal(Seq::filter);
    let keep = |c: CardView| c.id != id;
    if cards.len() > 0 {
        let front = cards.drop_last();
        lemma_filter_keeps_distinct_cards(front, id);
        let kept = front.filter(keep);
        if keep(cards.last()) {
            assert forall|i: int, j: int| 0 <= i < j < kept.len() + 1 implies #[trigger] kept.push(
                cards.last(),
            )[i].id != #[trigger] kept.push(cards.last())[j].id by {
                if j == kept.len() {
                    assert(kept.contains(kept[i]));
                    front.lemma_filter_contains_rev(keep, kept[i]);
                    let k = choose|k: int| 0 <= k < front.len() && front[k] == kept[i];
                    assert(cards[k].id != cards[cards.len() - 1].id);
                }
            }
        }
    }
}

/// A metadata property keeps the state valid.
pub proof fn lemma_property_keeps_valid(
    state: BackendView,
    subject: u32,
    key: Option<Seq<char>>,
    value: Option<Seq<char>>,
)
    requires
        state.valid(),
    ensures
        state.after_property(subject, key, value).valid(),
{
    model::lemma_first_where(state.graph.nodes, |n: NodeView| n.id == subject);
}

/// A reported profile keeps the state valid.
pub proof fn lemma_profile_keeps_valid(
    state: BackendView,
    card_id: u32,
    props: Seq<PropertyView>,
)
    requires
        state.valid(),
    ensures
        state.after_profile(card_id, props).valid(),
{
    model::lemma_first_where(state.graph.cards, |c: CardView| c.id == card_id);
}

/// An enumerated profile keeps the state valid.
pub proof fn lemma_enum_profile_keeps_valid(
    state: BackendView,
    card_id: u32,
    props: Seq<PropertyView>,
)
    requires
        state.valid(),
    ensures
        state.after_enum_profile(card_id, props).valid(),
{
    model::lemma_first_where(state.graph.cards, |c: CardView| c.id == card_id);
    if let (Some(profile), Some(i)) = (
        pods::enumerated_profile(props),
        model::card_position(state.graph.cards, card_id),
    ) {
        let profiles = state.graph.cards[i].profiles;
        let same = |p: ProfileView| p.index == profile.index;
        model::lemma_first_where(profiles, same);
        let next = registry::with_profile(profiles, profile);
        assert forall|a: int, b: int| 0 <= a < b < next.len() implies #[trigger] next[a].index
            != #[trigger] next[b].index by {
            match model::first_where(profiles, same) {
                Some(k) => {
                    assert(profiles[a].index != profiles[b].index);
                },
                None => {
                    assert(!same(profiles[a]));
                },
            }
        }
    }
}

/// Reported node properties keep the state valid.
pub proof fn lemma_node_props_keep_valid(
    state: BackendView,
    node_id: u32,
    props: Seq<PropertyView>,
)
    requires
        state.valid(),
    ensures
        state.after_node_props(node_id, props).valid(),
{
    model::lemma_first_where(state.graph.nodes, |n: NodeView| n.id == node_id);
}

/// A command keeps the state valid.
pub proof fn lemma_command_keeps_valid(state: BackendView, command: CommandView)
    requires
        state.valid(),
    ensures
        state.after_command(command).valid(),
{
}

/// An object that went away has left every table.
pub proof fn lemma_removed_leaves_no_trace(state: BackendView, id: u32, peers: Map<u32, Seq<u32>>)
    ensures
        ({
            let next = state.after_remove(id, peers);
            &&& model::node_position(next.graph.nodes, id) is None
            &&& model::card_position(next.graph.cards, id) is None
            &&& !next.bound_nodes.contains(id)
            &&& !next.bound_devices.contains(id)
            &&& !next.channels.contains_key(id)
            &&& next.default_metadata != Some(id)
            &&& !next.pending_targets.contains_key(id)
            &&& !next.links.contains_key(id)
        }),
{
    let next = state.after_remove(id, peers);
    broadcast use vstd::seq_lib::group_filter_ensures;

    model::lemma_first_where(next.graph.nodes, |n: NodeView| n.id == id);
    model::lemma_first_where(next.graph.cards, |c: CardView| c.id == id);
}

/// A node or a card that is announced a second time is listed no second time: nothing changes.
pub proof fn lemma_announced_twice(state: BackendView, global: GlobalView, peers: Map<u32, Seq<u32>>)
    requires
        globals::announced_link(global) is None,
    ensures
        state.after_global(global, peers).after_global(global, peers) == state.after_global(
            global,
            peers,
        ),
{
    let next = state.after_global(global, peers);
    if let Some(node) = globals::announced_node(global) {
        let same = |n: NodeView| n.id == node.id;
        model::lemma_first_where(state.graph.nodes, same);
        model::lemma_first_where(next.graph.nodes, same);
        if model::node_position(state.graph.nodes, node.id) is None {
            assert(same(next.graph.nodes.last()));
        }
    } else if let Some(card) = globals::announced_card(global) {
        let same = |c: CardView| c.id == card.id;
        model::lemma_first_where(state.graph.cards, same);
        model::lemma_first_where(next.graph.cards, same);
        if model::card_position(state.graph.cards, card.id) is None {
            assert(same(next.graph.cards.last()));
        }
    }
}

/// A routing override reaches its stream whether it is reported before the stream is announced or
/// after.
pub proof fn lemma_target_order_is_free(
    state: BackendView,
    global: GlobalView,
    target: Seq<char>,
    peers: Map<u32, Seq<u32>>,
)
    requires
        globals::announced_node(global) is Some,
        global.id != 0,
        model::node_position(state.graph.nodes, global.id) is None,
    ensures
        ({
            let key = Some("target.object"@);
            let before = state.after_property(global.id, key, Some(target)).after_global(
                global,
                peers,
            );
            let after = state.after_global(global, peers).after_property(
                global.id,
                key,
                Some(target),
            );
            &&& before == after
            &&& before.graph.nodes.last().id == global.id
            &&& before.graph.nodes.last().target == Some(target)
        }),
{
    let key = Some("target.object"@);
    let node = globals::announced_node(global)->0;
    let id = global.id;
    assert(node.id == id);
    let early = state.after_property(id, key, Some(target));
    assert(early.graph == state.graph);
    assert(early.pending_targets == state.pending_targets.insert(id, target));
    let before = early.after_global(global, peers);
    let known = state.after_global(global, peers);
    let after = known.after_property(id, key, Some(target));
    let same = |n: NodeView| n.id == id;
    model::lemma_first_where(state.graph.nodes, same);
    assert forall|j: int| 0 <= j < state.graph.nodes.len() implies !same(
        #[trigger] known.graph.nodes[j],
    ) by {
        assert(known.graph.nodes[j] == state.graph.nodes[j]);
    }
    model::lemma_first_where_is(known.graph.nodes, same, state.graph.nodes.len() as int);
    assert(before.graph.nodes =~= after.graph.nodes);
    assert(before.pending_targets =~= after.pending_targets);
    assert(before =~= after);
}

/// The device that a command makes the default counts as such at once, before the server says so.
pub proof fn lemma_chosen_default_is_default(state: BackendView, node: NodeView)
    ensures
        node.is_device(Direction::Output) ==> state.after_command(
            CommandView::SetDefaultSink { node_name: node.name },
        ).graph.is_default(node),
        node.is_device(Direction::Input) ==> state.after_command(
            CommandView::SetDefaultSource { node_name: node.name },
        ).graph.is_default(node),
{
}

/// The pin that a command writes, once the server reports it, is the target of the stream, and
/// reads as the serial that was asked for. A pin that is cleared leaves the stream without one.
pub proof fn lemma_written_target_is_read_back(
    state: BackendView,
    stream_id: u32,
    target_serial: Option<u64>,
)
    requires
        state.default_metadata is Some,
        stream_id != 0,
        state.graph.node_with_id(stream_id) is Some,
    ensures
        ({
            &&& state.effect(CommandView::SetStreamTarget { stream_id, target_serial }) matches Some(
                EffectView::SetMetadata { subject, key, kind, value },
            )
            &&& state.after_property(subject, Some(key), value).graph.node_with_id(
                stream_id,
            ) matches Some(node)
            &&& match (target_serial, node.target) {
                (Some(serial), Some(target)) => text::parsed(target, u64::MAX as int) == Some(
                    serial as int,
                ),
                (None, None) => true,
                _ => false,
            }
        }),
{
    let value = match target_serial {
        Some(serial) => {
            text::lemma_parsed_decimal(serial as nat, u64::MAX as int);
            Some(text::decimal(serial as nat))
        },
        None => None,
    };
    let same = |n: NodeView| n.id == stream_id;
    let next = state.after_property(stream_id, Some("target.object"@), value);
    model::lemma_first_where(state.graph.nodes, same);
    let i = model::node_position(state.graph.nodes, stream_id)->0;
    assert forall|j: int| 0 <= j < i implies !same(#[trigger] next.graph.nodes[j]) by {
        assert(!same(state.graph.nodes[j]));
    }
    model::lemma_first_where_is(next.graph.nodes, same, i);
}

/// The volume that a command sets, once the node reports it, is the node's volume, at most the
/// limit; whether the node is muted stays as it was.
pub proof fn lemma_written_volume_is_read_back(state: BackendView, node_id: u32, percent: u32)
    requires
        state.bound_nodes.contains(node_id),
        state.graph.node_with_id(node_id) is Some,
    ensures
        ({
            &&& state.effect(CommandView::SetVolume { node_id, percent }) matches Some(
                EffectView::SetNodeProps { node_id: id, properties },
            )
            &&& id == node_id
            &&& state.after_node_props(id, properties).graph.node_with_id(node_id) matches Some(node)
            &&& node.volume == Some(
                Volume {
                    hundredths: model::limited(percent),
                    muted: match state.graph.node_with_id(node_id)->0.volume {
                        Some(v) => v.muted,
                        None => false,
                    },
                },
            )
        }),
{
    let channels = if state.channels.contains_key(node_id) {
        Some(state.channels[node_id])
    } else {
        None
    };
    pods::lemma_volume_round_trip(percent, channels);
    let props = pods::volume_choice(percent, channels);
    lemma_same_place(state, node_id, props);
}

/// The mute state that a command sets, once the node reports it, is the node's; its volume stays
/// as it was, and is the nominal one where none was known.
pub proof fn lemma_written_mute_is_read_back(state: BackendView, node_id: u32, muted: bool)
    requires
        state.bound_nodes.contains(node_id),
        state.graph.node_with_id(node_id) is Some,
    ensures
        ({
            &&& state.effect(CommandView::SetMute { node_id, muted }) matches Some(
                EffectView::SetNodeProps { node_id: id, properties },
            )
            &&& id == node_id
            &&& state.after_node_props(id, properties).graph.node_with_id(node_id) matches Some(node)
            &&& node.volume == Some(
                Volume {
                    hundredths: match state.graph.node_with_id(node_id)->0.volume {
                        Some(v) => v.hundredths,
                        None => 100,
                    },
                    muted,
                },
            )
        }),
{
    pods::lemma_mute_round_trip(muted);
    lemma_same_place(state, node_id, pods::mute_choice(muted));
}

proof fn lemma_same_place(state: BackendView, node_id: u32, props: Seq<PropertyView>)
    requires
        state.graph.node_with_id(node_id) is Some,
    ensures
        state.after_node_props(node_id, props).graph.node_with_id(node_id) == Some(
            NodeView {
                volume: registry::updated_volume(
                    state.graph.node_with_id(node_id)->0.volume,
                    props,
                ),
                ..state.graph.node_with_id(node_id)->0
            },
        ),
{
    let same = |n: NodeView| n.id == node_id;
    let next = state.after_node_props(node_id, props);
    model::lemma_first_where(state.graph.nodes, same);
    let i = model::node_position(state.graph.nodes, node_id)->0;
    assert forall|j: int| 0 <= j < i implies !same(#[trigger] next.graph.nodes[j]) by {
        assert(!same(state.graph.nodes[j]));
    }
    model::lemma_first_where_is(next.graph.nodes, same, i);
}

/// The profile that a command chooses, once the card reports it, is the card's active profile.
pub proof fn lemma_written_profile_is_read_back(
    state: BackendView,
    card_id: u32,
    profile_index: u32,
)
    requires
        state.bound_devices.contains(card_id),
        model::card_position(state.graph.cards, card_id) is Some,
    ensures
        ({
            let i = model::card_position(state.graph.cards, card_id)->0;
            &&& state.effect(CommandView::SetCardProfile { card_id, profile_index }) matches Some(
                EffectView::SetCardProfile { card_id: id, properties },
            )
            &&& id == card_id
            &&& state.after_profile(id, properties).graph.cards[i].active_profile == Some(
                profile_index,
            )
        }),
{
    pods::lemma_profile_round_trip(profile_index);
    model::lemma_first_where(state.graph.cards, |c: CardView| c.id == card_id);
}

} // verus!
