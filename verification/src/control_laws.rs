//! What each control of the panel does, and what the panel then shows.

use vstd::prelude::*;

use crate::app;
use crate::app::{AppView, EventKind, EventView, SliderKey, SpectrumSource};
use crate::app_laws;
use crate::backend::registry;
use crate::backend::CommandView;
use crate::keys;
use crate::levels::ServiceView;
use crate::menus;
use crate::model::{CardView, ClassView, Direction, NodeView, SnapshotView, Tab};
use crate::model_laws;
use crate::routing;
use crate::text;

verus! {

/// A click on a node's mute button asks for the opposite of what the node's row shows, and the row
/// then shows that; a node that the server reports as muted is so unmuted by the first click. The
/// other nodes stay as they are.
pub proof fn lemma_mute_button(panel: AppView, k: int, other: NodeView)
    requires
        registry::distinct_nodes(panel.graph.nodes),
        0 <= k < panel.graph.nodes.len(),
        other.id != panel.graph.nodes[k].id,
    ensures
        ({
            let node = panel.graph.nodes[k];
            let click = app_laws::click_on(keys::key_of("mute:"@, node.id));
            let (next, command) = panel.after_event(click);
            let shown = panel.row_of(node).muted;
            &&& command == Some(CommandView::SetMute { node_id: node.id, muted: !shown })
            &&& next.row_of(node).muted == !shown
            &&& next.row_of(other) == panel.row_of(other)
            &&& !panel.mute_overrides.contains_key(node.id) ==> (shown <==> (
            node.volume matches Some(volume) && volume.muted))
            &&& next == (AppView { mute_overrides: next.mute_overrides, ..panel })
        }),
{
    let node = panel.graph.nodes[k];
    model_laws::lemma_listed_is_found(panel.graph, k);
    app_laws::lemma_buttons_work(panel, node.id);
}

/// The mute state that the user set is shown until the server reports the same, and then no longer
/// kept; without one the server's report is shown, and a node of which nothing is known is not
/// muted.
pub proof fn lemma_mute_state_shown(panel: AppView, node: NodeView, id: u32)
    requires
        id != node.id,
    ensures
        ({
            let settled = panel.with_settled_mute(node);
            &&& settled == (AppView { mute_overrides: settled.mute_overrides, ..panel })
            &&& settled.mute_overrides.contains_key(id) == panel.mute_overrides.contains_key(id)
            &&& panel.mute_overrides.contains_key(id) ==> settled.mute_overrides[id]
                == panel.mute_overrides[id]
        }),
        ({
            let reported = match node.volume {
                Some(volume) => volume.muted,
                None => false,
            };
            let settled = panel.with_settled_mute(node);
            if panel.mute_overrides.contains_key(node.id) {
                let set = panel.mute_overrides[node.id];
                &&& panel.mute_of(node) == set
                &&& settled.mute_overrides.contains_key(node.id) <==> !(node.volume is Some
                    && reported == set)
            } else {
                panel.mute_of(node) == reported
            }
        }),
{
}

/// The volume that the user set is shown until the server reports it, or one that is one percent
/// off, and then no longer kept; without one the server's report is shown, and a node of which
/// nothing is known is at 100 percent.
pub proof fn lemma_volume_shown(panel: AppView, node: NodeView, id: u32)
    requires
        id != node.id,
    ensures
        ({
            let settled = panel.with_settled_volume(node);
            let set = panel.volume_overrides[node.id];
            let is_set = panel.volume_overrides.contains_key(node.id);
            &&& settled == (AppView { volume_overrides: settled.volume_overrides, ..panel })
            &&& settled.volume_overrides.contains_key(id) == panel.volume_overrides.contains_key(id)
            &&& panel.volume_overrides.contains_key(id) ==> settled.volume_overrides[id]
                == panel.volume_overrides[id]
            &&& match node.volume {
                Some(volume) => volume.hundredths <= 999 ==> {
                    let reported = volume.hundredths;
                    &&& !is_set ==> panel.percent_of(node) == reported
                    &&& is_set && reported - 1 <= set <= reported + 1 ==> {
                        &&& panel.percent_of(node) == reported
                        &&& !settled.volume_overrides.contains_key(node.id)
                    }
                    &&& is_set && !(reported - 1 <= set <= reported + 1) ==> {
                        &&& panel.percent_of(node) == set
                        &&& settled == panel
                    }
                },
                None => {
                    &&& !is_set ==> panel.percent_of(node) == 100
                    &&& is_set ==> panel.percent_of(node) == set && settled == panel
                },
            }
        }),
{
}

/// The profile that the user picked is shown until the server reports it, and then no longer kept;
/// without one the server's report is shown.
pub proof fn lemma_profile_shown(panel: AppView, card: CardView, id: u32)
    requires
        id != card.id,
    ensures
        ({
            let settled = panel.with_settled_profile(card);
            &&& settled == (AppView { profile_overrides: settled.profile_overrides, ..panel })
            &&& settled.profile_overrides.contains_key(id) == panel.profile_overrides.contains_key(id)
            &&& panel.profile_overrides.contains_key(id) ==> settled.profile_overrides[id]
                == panel.profile_overrides[id]
        }),
        ({
            let settled = panel.with_settled_profile(card);
            if panel.profile_overrides.contains_key(card.id) {
                let picked = panel.profile_overrides[card.id];
                &&& panel.profile_of(card) == Some(picked)
                &&& settled.profile_overrides.contains_key(card.id) <==> card.active_profile
                    != Some(picked)
            } else {
                panel.profile_of(card) == card.active_profile
            }
        }),
{
}

/// An event of the pointer on a volume slider.
pub open spec fn pointer_on(kind: EventKind, id: u32, percent: u32) -> EventView {
    EventView {
        kind,
        key: Some(keys::key_of("volume:"@, id)),
        pointer_percent: Some(percent),
        slider_key: None,
    }
}

/// Pressing, dragging or clicking on a node's volume slider asks for the volume that the pointer is
/// at, for that node, and keeps it as what the user set; nothing else changes.
pub proof fn lemma_pointer_sets_the_volume(panel: AppView, kind: EventKind, id: u32, percent: u32)
    requires
        kind == EventKind::PointerDown || kind == EventKind::Drag || kind == EventKind::Click
            || kind == EventKind::Activate,
    ensures
        panel.after_event(pointer_on(kind, id, percent)) == (
            AppView { volume_overrides: panel.volume_overrides.insert(id, percent), ..panel },
            Some(CommandView::SetVolume { node_id: id, percent }),
        ),
{
    keys::lemma_key_round_trip("volume:"@, id);
    keys::lemma_controls_are_told_apart(id, Seq::empty());
    reveal_strlit("volume:");
    app_laws::lemma_is_no_tab(keys::key_of("volume:"@, id));
}

/// A key that is pressed on a volume slider.
pub open spec fn key_on(id: u32, key: SliderKey) -> EventView {
    EventView {
        kind: EventKind::KeyDown,
        key: Some(keys::key_of("volume:"@, id)),
        pointer_percent: None,
        slider_key: Some(key),
    }
}

/// Whether a key moves a slider from one percentage to another: by one percent or by ten, up or
/// down, but not beyond 0 and 150, or to one of these.
pub open spec fn moves(from: int, key: SliderKey, to: int) -> bool {
    match key {
        SliderKey::Increase => {
            &&& from < 150 ==> to == from + 1
            &&& from >= 150 ==> to == 150
        },
        SliderKey::Decrease => {
            &&& from == 0 ==> to == 0
            &&& 0 < from <= 151 ==> to == from - 1
            &&& from > 151 ==> to == 150
        },
        SliderKey::PageUp => {
            &&& from <= 140 ==> to == from + 10
            &&& from > 140 ==> to == 150
        },
        SliderKey::PageDown => {
            &&& from < 10 ==> to == 0
            &&& 10 <= from <= 160 ==> to == from - 10
            &&& from > 160 ==> to == 150
        },
        SliderKey::Home => to == 0,
        SliderKey::End => to == 150,
    }
}

/// A key on the volume slider of a listed node moves it from what its row shows, and asks for the
/// volume that it is moved to, unless that is where it was.
pub proof fn lemma_keys_move_the_volume(panel: AppView, k: int, key: SliderKey)
    requires
        registry::distinct_nodes(panel.graph.nodes),
        0 <= k < panel.graph.nodes.len(),
    ensures
        ({
            let node = panel.graph.nodes[k];
            let shown = panel.row_of(node).volume;
            let (next, command) = panel.after_event(key_on(node.id, key));
            match command {
                Some(CommandView::SetVolume { node_id, percent }) => {
                    &&& node_id == node.id
                    &&& percent != shown
                    &&& moves(shown as int, key, percent as int)
                    &&& next == (AppView {
                        volume_overrides: panel.volume_overrides.insert(node.id, percent),
                        ..panel
                    })
                },
                Some(_) => false,
                None => moves(shown as int, key, shown as int) && next
                    == panel.with_settled_volume(node),
            }
        }),
{
    let node = panel.graph.nodes[k];
    model_laws::lemma_listed_is_found(panel.graph, k);
    keys::lemma_key_round_trip("volume:"@, node.id);
    let (next, command) = panel.after_event(key_on(node.id, key));
    if let Some(CommandView::SetVolume { percent, .. }) = command {
        assert(next.volume_overrides =~= panel.volume_overrides.insert(node.id, percent));
    }
}

/// An event on nothing, or of another kind, changes nothing, and asks for nothing. So do the pointer
/// and the keys on anything that is no volume slider, a press at no percentage, and a key that moves
/// no slider.
pub proof fn lemma_other_events_do_nothing(panel: AppView, event: EventView, id: u32)
    ensures
        event.key is None ==> panel.after_event(event) == (panel, None::<CommandView>),
        event.kind == EventKind::Other ==> panel.after_event(event) == (panel, None::<CommandView>),
        event.key matches Some(key) ==> {
            &&& !event.activates() && !text::has_prefix(key, "volume:"@) ==> panel.after_event(event)
                == (panel, None::<CommandView>)
            &&& key == keys::key_of("volume:"@, id) && event.pointer_percent is None && event.kind
                != EventKind::KeyDown ==> panel.after_event(event) == (panel, None::<CommandView>)
            &&& key == keys::key_of("volume:"@, id) && event.slider_key is None && event.kind
                == EventKind::KeyDown ==> panel.after_event(event).1 is None
        },
{
    if event.key == Some(keys::key_of("volume:"@, id)) {
        keys::lemma_key_round_trip("volume:"@, id);
        keys::lemma_controls_are_told_apart(id, Seq::empty());
        reveal_strlit("volume:");
        app_laws::lemma_is_no_tab(keys::key_of("volume:"@, id));
    }
}

/// A click on a select opens its menu, and closes the menu that was open in its place; a click on it
/// while its menu is open closes that, and so does a click beside it. Nothing is asked for.
pub proof fn lemma_selects_open_and_close(panel: AppView, id: u32)
    ensures
        ({
            let target = keys::key_of("target:"@, id);
            let profile = keys::key_of("profile:"@, id);
            let (next, command) = panel.after_event(app_laws::click_on(target));
            let (left, none) = panel.after_event(
                app_laws::click_on(target + app_laws::dismiss_suffix()),
            );
            &&& command is None && none is None
            &&& next.target_dropdown_open == if panel.target_dropdown_open == Some(id) {
                None
            } else {
                Some(id)
            }
            &&& left == (AppView { target_dropdown_open: None, ..panel })
            &&& next == (AppView { target_dropdown_open: next.target_dropdown_open, ..panel })
            &&& ({
                let (next, command) = panel.after_event(app_laws::click_on(profile));
                let (left, none) = panel.after_event(
                    app_laws::click_on(profile + app_laws::dismiss_suffix()),
                );
                &&& command is None && none is None
                &&& next.profile_dropdown_open == if panel.profile_dropdown_open == Some(id) {
                    None
                } else {
                    Some(id)
                }
                &&& left == (AppView { profile_dropdown_open: None, ..panel })
                &&& next == (AppView { profile_dropdown_open: next.profile_dropdown_open, ..panel })
            })
            &&& ({
                let (next, command) = panel.after_event(app_laws::click_on("spectrum"@));
                let (left, none) = panel.after_event(
                    app_laws::click_on("spectrum"@ + app_laws::dismiss_suffix()),
                );
                &&& command is None && none is None
                &&& next == (AppView {
                    spectrum_dropdown_open: !panel.spectrum_dropdown_open,
                    ..panel
                })
                &&& left == (AppView { spectrum_dropdown_open: false, ..panel })
            })
        }),
{
    app_laws::lemma_selects_work(panel, id, Seq::empty());
}

/// A click on a device's default button asks for that device, by its name, as the default of its
/// direction. A stream is never made the default, and the panel itself does not change.
pub proof fn lemma_default_button(panel: AppView, k: int)
    requires
        registry::distinct_nodes(panel.graph.nodes),
        0 <= k < panel.graph.nodes.len(),
    ensures
        ({
            let node = panel.graph.nodes[k];
            let click = app_laws::click_on(keys::key_of("default:"@, node.id));
            let (next, command) = panel.after_event(click);
            &&& next == panel
            &&& node.class == (ClassView::Device { direction: Direction::Output }) ==> command
                == Some(CommandView::SetDefaultSink { node_name: node.name })
            &&& node.class == (ClassView::Device { direction: Direction::Input }) ==> command
                == Some(CommandView::SetDefaultSource { node_name: node.name })
            &&& !(node.class is Device) ==> command is None
        }),
{
    model_laws::lemma_listed_is_found(panel.graph, k);
    app_laws::lemma_buttons_work(panel, panel.graph.nodes[k].id);
}

/// Picking a device in a stream's target menu asks to pin the stream to that device, and picking
/// the first option asks to clear its pin. The row then shows the pick, and the menu is closed.
pub proof fn lemma_target_pick(panel: AppView, stream: NodeView, direction: Direction, i: int)
    requires
        stream.class == (ClassView::Stream { direction }),
        0 <= i < menus::target_options(panel.graph, direction).len(),
    ensures
        ({
            let value = menus::target_options(panel.graph, direction)[i].0;
            let key = keys::key_of("target:"@, stream.id) + app_laws::option_suffix(value);
            let (next, command) = panel.after_event(app_laws::click_on(key));
            let serial = if i == 0 {
                None
            } else {
                Some(menus::devices_of(panel.graph, direction)[i - 1].serial)
            };
            let target = routing::target_of(next.graph, stream, next.target_overrides);
            &&& command == Some(
                CommandView::SetStreamTarget { stream_id: stream.id, target_serial: serial },
            )
            &&& next == (AppView {
                target_overrides: panel.target_overrides.insert(stream.id, serial),
                target_dropdown_open: None,
                ..panel
            })
            &&& target.following <==> i == 0
            &&& i > 0 ==> (!routing::confirms(panel.graph, direction, stream, serial) ==> target.device
                == panel.graph.device_with_serial(direction, serial->0))
        }),
{
    let value = menus::target_options(panel.graph, direction)[i].0;
    menus::lemma_target_options_are_read_back(panel.graph, direction, i);
    app_laws::lemma_selects_work(panel, stream.id, value);
    if i > 0 {
        let device = menus::devices_of(panel.graph, direction)[i - 1];
        let serial = device.serial;
        if routing::confirms(panel.graph, direction, stream, Some(serial)) {
            routing::lemma_pinned_device_means_pin(panel.graph, direction, stream);
        }
    }
}

/// Picking a profile in a card's menu asks for that profile of that card. The card then shows it,
/// and the menu is closed.
pub proof fn lemma_profile_pick(panel: AppView, card: CardView, i: int)
    requires
        0 <= i < card.profiles.len(),
    ensures
        ({
            let value = menus::profile_options(card.profiles)[i].0;
            let key = keys::key_of("profile:"@, card.id) + app_laws::option_suffix(value);
            let (next, command) = panel.after_event(app_laws::click_on(key));
            let index = card.profiles[i].index;
            &&& command == Some(
                CommandView::SetCardProfile { card_id: card.id, profile_index: index },
            )
            &&& next.profile_of(card) == Some(index)
            &&& next == (AppView {
                profile_overrides: panel.profile_overrides.insert(card.id, index),
                profile_dropdown_open: None,
                ..panel
            })
        }),
{
    let value = menus::profile_options(card.profiles)[i].0;
    menus::lemma_profile_options_are_read_back(card.profiles, i);
    app_laws::lemma_selects_work(panel, card.id, value);
}

/// Picking a node in the spectrum menu makes the spectrogram listen to it, and picking the first
/// option makes it follow the default output. Nothing is asked of the server, and the menu is
/// closed.
pub proof fn lemma_spectrum_pick(panel: AppView, i: int)
    requires
        registry::distinct_nodes(panel.graph.nodes),
        0 <= i < menus::source_options(panel.graph).len(),
    ensures
        ({
            let value = menus::source_options(panel.graph)[i].0;
            let key = "spectrum"@ + app_laws::option_suffix(value);
            let (next, command) = panel.after_event(app_laws::click_on(key));
            let node = app::spectrum_node_in(next.spectrum_source, next.graph);
            &&& command is None
            &&& next == (AppView {
                spectrum_source: next.spectrum_source,
                spectrum_dropdown_open: false,
                ..panel
            })
            &&& i == 0 ==> node == panel.graph.default_device(Direction::Output)
            &&& i > 0 ==> node == Some(
                menus::in_order(
                    panel.graph.nodes.filter(|n: NodeView| n.can_be_source()),
                )[i - 1],
            )
        }),
{
    let value = menus::source_options(panel.graph)[i].0;
    menus::lemma_source_options_are_read_back(panel.graph, i);
    app_laws::lemma_selects_work(panel, 0, value);
    if i > 0 {
        let keep = |n: NodeView| n.can_be_source();
        let kept = panel.graph.nodes.filter(keep);
        let listed = menus::in_order(kept);
        let node = listed[i - 1];
        menus::lemma_no_source_is_lost(kept);
        assert(listed.contains(node));
        broadcast use vstd::seq_lib::group_to_multiset_ensures;

        assert(listed.to_multiset().count(node) > 0);
        assert(kept.contains(node));
        model_laws::lemma_filter_contains(panel.graph.nodes, keep, node);
        let k = choose|k: int| 0 <= k < panel.graph.nodes.len() && panel.graph.nodes[k] == node;
        model_laws::lemma_listed_is_found(panel.graph, k);
    }
}

/// The spectrogram listens to the node that was picked as long as the graph has it, and otherwise
/// to the default output device.
pub proof fn lemma_spectrum_source(graph: SnapshotView, id: u32)
    ensures
        app::spectrum_node_in(SpectrumSource::DefaultOutput, graph) == graph.default_device(
            Direction::Output,
        ),
        (exists|k: int| 0 <= k < graph.nodes.len() && (#[trigger] graph.nodes[k]).id == id) ==> (
        app::spectrum_node_in(SpectrumSource::Node(id), graph) matches Some(node) && node.id == id
            && graph.nodes.contains(node)),
        !(exists|k: int| 0 <= k < graph.nodes.len() && (#[trigger] graph.nodes[k]).id == id)
            ==> app::spectrum_node_in(SpectrumSource::Node(id), graph) == graph.default_device(
            Direction::Output,
        ),
{
    model_laws::lemma_found_by_id(graph, id);
}

/// Taking over a graph meters the nodes that the active tab lists and the one that the spectrogram
/// listens to, but for peak detectors, and no others; the changes that wait for the server stay.
pub proof fn lemma_sync_meters_what_is_shown(panel: AppView, graph: SnapshotView, id: u32)
    ensures
        ({
            let next = panel.synced(graph);
            &&& next == (AppView { graph, levels: next.levels, ..panel })
            &&& next.levels.meters.contains(id) <==> exists|node: NodeView|
                {
                    &&& node.id == id
                    &&& #[trigger] is_metered(panel, graph, node)
                }
        }),
{
    let next = panel.synced(graph);
    let visible = graph.nodes_for_tab(panel.active_tab);
    let source = app::spectrum_node_in(panel.spectrum_source, graph);
    let asked = crate::levels::asked_for(visible, source);
    if next.levels.meters.contains(id) {
        let i = choose|i: int|
            0 <= i < asked.len() && (#[trigger] asked[i]).id == id && asked[i].meter_route() is Some;
        if i < visible.len() {
            assert(visible.contains(asked[i]));
        }
        assert(is_metered(panel, graph, asked[i]));
    }
    if exists|node: NodeView| node.id == id && #[trigger] is_metered(panel, graph, node) {
        let node = choose|node: NodeView| node.id == id && #[trigger] is_metered(panel, graph, node);
        if visible.contains(node) {
            let i = choose|i: int| 0 <= i < visible.len() && visible[i] == node;
            assert(asked[i] == node);
        } else {
            assert(asked[visible.len() as int] == node);
        }
        assert(crate::levels::wants(asked, id));
    }
}

/// Whether a node is listed by the active tab or heard by the spectrogram, is a stream or a device,
/// and is no peak detector.
pub open spec fn is_metered(panel: AppView, graph: SnapshotView, node: NodeView) -> bool {
    &&& graph.nodes_for_tab(panel.active_tab).contains(node) || app::spectrum_node_in(
        panel.spectrum_source,
        graph,
    ) == Some(node)
    &&& node.class is Stream || node.class is Device
    &&& node.media_role != Some("DSP"@)
}

/// The panel starts on the playback tab, shows what the server reports, follows the default output
/// and has no menu open.
pub proof fn lemma_start(graph: SnapshotView, node: NodeView, card: CardView)
    ensures
        ({
            let panel = AppView::initial(graph);
            &&& panel.active_tab == Tab::Playback
            &&& panel.graph == graph
            &&& panel.percent_of(node) == match node.volume {
                Some(volume) => volume.shown_percent(),
                None => 100,
            }
            &&& panel.mute_of(node) <==> (node.volume matches Some(volume) && volume.muted)
            &&& panel.profile_of(card) == card.active_profile
            &&& panel.open_menus().len() == 0
            &&& app::spectrum_node_in(panel.spectrum_source, graph) == graph.default_device(
                Direction::Output,
            )
            &&& panel.levels == ServiceView::initial().reconciled(
                graph.nodes_for_tab(Tab::Playback),
                graph.default_device(Direction::Output),
            )
            &&& panel.target_overrides == Map::<u32, Option<u64>>::empty()
        }),
{
}

/// Picking a value that no option of a menu has changes nothing, and asks for nothing.
pub proof fn lemma_unknown_options_are_ignored(panel: AppView, id: u32, value: Seq<char>)
    requires
        text::parsed(value, u64::MAX as int) is None,
        value != "__aetna_default__"@,
        value != "__aetna_spectrum_default__"@,
    ensures
        ({
            let suffix = app_laws::option_suffix(value);
            let nothing = (panel, None::<CommandView>);
            let on_target = app_laws::click_on(keys::key_of("target:"@, id) + suffix);
            let on_profile = app_laws::click_on(keys::key_of("profile:"@, id) + suffix);
            let on_spectrum = app_laws::click_on("spectrum"@ + suffix);
            &&& panel.after_event(on_target) == nothing
            &&& panel.after_event(on_profile) == nothing
            &&& panel.after_event(on_spectrum) == nothing
        }),
{
    app_laws::lemma_selects_work(panel, id, value);
}

/// A control that is activated without the pointer does what a click on it does.
pub proof fn lemma_activating_is_clicking(
    panel: AppView,
    key: Option<Seq<char>>,
    pointer_percent: Option<u32>,
    slider_key: Option<SliderKey>,
)
    ensures
        ({
            let click = EventView { kind: EventKind::Click, key, pointer_percent, slider_key };
            let activation = EventView { kind: EventKind::Activate, ..click };
            panel.after_event(activation) == panel.after_event(click)
        }),
{
}

} // verus!
