//! What the rows, the meters and the cards of the panel show.

use vstd::prelude::*;

use crate::app;
use crate::app::{AppView, SpectrumSource};
use crate::app_laws;
use crate::backend::registry;
use crate::frame::ContentView;
use crate::keys;
use crate::levels::LevelsView;
use crate::model;
use crate::model::{CardView, ClassView, Direction, NodeView, ProfileView, Tab};
use crate::model_laws;
use crate::panels;
use crate::panels::{DefaultSlot, RouteView};
use crate::routing;
use crate::text;

verus! {

/// A row shows its node: the volume and the mute state that hold for it, the levels that were
/// published for it and for no other node, and, for a stream, where it goes, pinned exactly when it
/// does not follow the default.
pub proof fn lemma_row(panel: AppView, node: NodeView)
    ensures
        ({
            let row = panel.row_of(node);
            let target = routing::target_of(panel.graph, node, panel.target_overrides);
            &&& row.id == node.id
            &&& row.title == node.title()
            &&& row.volume == panel.percent_of(node)
            &&& row.muted == panel.mute_of(node)
            &&& row.levels is Some <==> panel.levels.levels.contains_key(node.id)
            &&& row.levels matches Some(levels) ==> levels == panel.levels.levels[node.id]
            &&& node.class is Stream ==> (row.route matches RouteView::Select { label, pinned }
                && label == routing::label_of(target) && pinned != target.following)
            &&& !(node.class is Stream) ==> (row.route matches RouteView::Caption { caption }
                && caption == "#"@ + text::decimal(node.id as nat) + "  "@ + match node.target {
                Some(target) => target,
                None => "No route"@,
            })
        }),
{
}

/// A row has a button for the default exactly when a click on it asks for something, or says that
/// its device is the default already; the row of a stream has neither.
pub proof fn lemma_default_slot(panel: AppView, k: int)
    requires
        registry::distinct_nodes(panel.graph.nodes),
        0 <= k < panel.graph.nodes.len(),
    ensures
        ({
            let node = panel.graph.nodes[k];
            let click = app_laws::click_on(keys::key_of("default:"@, node.id));
            let asks = panel.after_event(click).1 is Some;
            let slot = panel.row_of(node).default_slot;
            &&& slot == DefaultSlot::Nothing <==> !asks
            &&& slot == DefaultSlot::SetDefault <==> asks && !panel.graph.is_default(node)
            &&& slot == DefaultSlot::Indicator <==> panel.graph.is_default(node)
        }),
{
    model_laws::lemma_listed_is_found(panel.graph, k);
    app_laws::lemma_buttons_work(panel, panel.graph.nodes[k].id);
}

/// Each node has its row, in the order of the nodes, and making the rows before it does not change
/// what it shows.
pub proof fn lemma_rows(panel: AppView, nodes: Seq<NodeView>, i: int)
    requires
        registry::distinct_nodes(nodes),
        0 <= i < nodes.len(),
    ensures
        panel.rows_of(nodes).len() == nodes.len(),
        panel.rows_of(nodes)[i] == panel.row_of(nodes[i]),
{
    lemma_settled_rows(panel, nodes.take(i), nodes[i]);
}

proof fn lemma_settled_rows(panel: AppView, made: Seq<NodeView>, node: NodeView)
    requires
        forall|j: int|
            0 <= j < made.len() ==> (#[trigger] made[j]).id != node.id || made[j] == node,
    ensures
        panel.with_all_settled(made).row_of(node) == panel.row_of(node),
    decreases made.len(),
{
    if made.len() > 0 {
        let front = made.drop_last();
        assert forall|j: int| 0 <= j < front.len() implies (#[trigger] front[j]).id != node.id
            || front[j] == node by {
            assert(front[j] == made[j]);
        }
        lemma_settled_rows(panel, front, node);
        assert(made[made.len() - 1].id != node.id || made.last() == node);
        panels::lemma_making_a_row_is_invisible(
            panel.with_all_settled(front),
            made.last(),
            node,
        );
    }
}

/// What a filter keeps of nodes with ids of their own has ids of its own.
pub proof fn lemma_filter_keeps_ids_apart(nodes: Seq<NodeView>, keep: spec_fn(NodeView) -> bool)
    requires
        registry::distinct_nodes(nodes),
    ensures
        registry::distinct_nodes(nodes.filter(keep)),
    decreases nodes.len(),
{
    reveal(Seq::filter);
    if nodes.len() > 0 {
        let front = nodes.drop_last();
        assert(registry::distinct_nodes(front));
        lemma_filter_keeps_ids_apart(front, keep);
        let kept = front.filter(keep);
        if keep(nodes.last()) {
            assert forall|i: int| 0 <= i < kept.len() implies (#[trigger] kept[i]).id
                != nodes.last().id by {
                model_laws::lemma_filter_contains(front, keep, kept[i]);
                assert(kept.contains(kept[i]));
                let j = choose|j: int| 0 <= j < front.len() && front[j] == kept[i];
                assert(nodes[j].id != nodes[nodes.len() - 1].id);
            }
            assert(registry::distinct_nodes(kept.push(nodes.last())));
        }
    }
}

/// A tab with nodes has a row for each of the nodes that it lists, in their order, and a note in
/// place of the rows exactly when it lists none.
pub proof fn lemma_tab_shows_its_nodes(panel: AppView, i: int)
    requires
        registry::distinct_nodes(panel.graph.nodes),
        panel.active_tab != Tab::Configuration,
    ensures
        ({
            let nodes = panel.graph.nodes_for_tab(panel.active_tab);
            let frame = panel.frame();
            &&& frame.active_tab == panel.active_tab
            &&& frame.content matches ContentView::Nodes(rows) && rows.len() == nodes.len() && (0
                <= i < nodes.len() ==> rows[i] == panel.row_of(nodes[i]))
            &&& nodes.len() > 0 ==> frame.empty is None
            &&& nodes.len() == 0 ==> frame.empty == Some(
                "No "@ + panel.active_tab.label_text() + " streams or devices yet."@,
            )
        }),
{
    let tab = panel.active_tab;
    let nodes = panel.graph.nodes_for_tab(tab);
    lemma_filter_keeps_ids_apart(panel.graph.nodes, |n: NodeView| n.shown_in(tab));
    if 0 <= i < nodes.len() {
        lemma_rows(panel, nodes, i);
    }
}

/// The configuration tab has a row for each card, in their order, with the profile that holds for
/// it.
pub proof fn lemma_configuration_shows_the_cards(panel: AppView, i: int)
    requires
        registry::distinct_cards(panel.graph.cards),
        panel.active_tab == Tab::Configuration,
    ensures
        ({
            let cards = panel.graph.cards;
            let frame = panel.frame();
            &&& frame.content matches ContentView::Cards(rows) && rows.len() == cards.len() && (0
                <= i < cards.len() ==> {
                &&& rows[i].id == cards[i].id
                &&& rows[i].title == cards[i].description
                &&& rows[i].caption == "#"@ + text::decimal(cards[i].id as nat) + "  "@
                    + cards[i].name
                &&& cards[i].profiles.len() == 0 <==> rows[i].profile is None
                &&& rows[i].profile matches Some(label) ==> label == panels::profile_label(
                    cards[i].profiles,
                    panel.profile_of(cards[i]),
                )
            })
            &&& frame.empty is Some <==> cards.len() == 0
        }),
{
    if 0 <= i < panel.graph.cards.len() {
        lemma_settled_cards(panel, panel.graph.cards.take(i), panel.graph.cards[i]);
    }
}

proof fn lemma_settled_cards(panel: AppView, made: Seq<CardView>, card: CardView)
    requires
        forall|j: int|
            0 <= j < made.len() ==> (#[trigger] made[j]).id != card.id || made[j] == card,
    ensures
        panel.with_settled_cards(made).profile_of(card) == panel.profile_of(card),
    decreases made.len(),
{
    if made.len() > 0 {
        let front = made.drop_last();
        assert forall|j: int| 0 <= j < front.len() implies (#[trigger] front[j]).id != card.id
            || front[j] == card by {
            assert(front[j] == made[j]);
        }
        lemma_settled_cards(panel, front, card);
        assert(made[made.len() - 1].id != card.id || made.last() == card);
    }
}

/// A card's select says the description of the profile with the active index, and otherwise that
/// there is none.
pub proof fn lemma_active_profile_is_shown(profiles: Seq<ProfileView>, active: u32, i: int)
    requires
        registry::distinct_profiles(profiles),
    ensures
        0 <= i < profiles.len() && profiles[i].index == active ==> panels::profile_label(
            profiles,
            Some(active),
        ) == profiles[i].description,
        (forall|j: int| 0 <= j < profiles.len() ==> (#[trigger] profiles[j]).index != active)
            ==> panels::profile_label(profiles, Some(active)) == "No active profile"@,
        panels::profile_label(profiles, None) == "No active profile"@,
{
    let keep = |p: ProfileView| p.index == active;
    model::lemma_first_where(profiles, keep);
    if 0 <= i < profiles.len() && profiles[i].index == active {
        model::lemma_first_where_is(profiles, keep, i);
    }
}

/// A meter shows left and right, each with its own peak and level, or one channel that stands for
/// all; what was not measured is at zero.
pub proof fn lemma_meter(levels: LevelsView)
    ensures
        ({
            let shown = panels::shown_channels(Some(levels));
            let silent = panels::shown_channels(None);
            &&& levels.peaks.len() >= 2 && levels.rms.len() >= 2 ==> {
                &&& shown.len() == 2
                &&& shown[0].label == "L"@ && shown[0].peak == levels.peaks[0] && shown[0].rms
                    == levels.rms[0]
                &&& shown[1].label == "R"@ && shown[1].peak == levels.peaks[1] && shown[1].rms
                    == levels.rms[1]
            }
            &&& levels.peaks.len() == 1 && levels.rms.len() == 1 ==> {
                &&& shown.len() == 1
                &&& shown[0].label == "M"@ && shown[0].peak == levels.peaks[0] && shown[0].rms
                    == levels.rms[0]
            }
            &&& levels.peaks.len() == 0 && levels.rms.len() == 0 ==> {
                &&& shown.len() == 1
                &&& shown[0].label == "M"@ && shown[0].peak == 0 && shown[0].rms == 0
            }
            &&& levels.peaks.len() >= 2 && levels.rms.len() < 2 ==> shown.len() == 2
                && shown[1].peak == levels.peaks[1] && shown[1].rms == 0
            &&& levels.peaks.len() < 2 && levels.rms.len() >= 2 ==> shown.len() == 2
                && shown[1].rms == levels.rms[1] && shown[1].peak == 0
            &&& silent.len() == 2
            &&& silent[0].label == "L"@ && silent[0].peak == 0 && silent[0].rms == 0
            &&& silent[1].label == "R"@ && silent[1].peak == 0 && silent[1].rms == 0
        }),
{
}

/// The spectrogram's card names the node that it listens to, says at which rate once there is
/// something to show, and shows the spectrum of that node alone.
pub proof fn lemma_spectrum_card(panel: AppView)
    ensures
        ({
            let node = app::spectrum_node_in(panel.spectrum_source, panel.graph);
            let frame = panel.frame();
            let card = frame.spectrum_card;
            &&& node is None ==> {
                &&& frame.spectrum is None
                &&& card.status == "No source selected"@
                &&& card.subtitle == "Pick a source from the dropdown"@
            }
            &&& node matches Some(source) ==> {
                &&& card.subtitle == source.description
                &&& frame.spectrum is Some <==> panel.levels.spectra.contains_key(source.id)
                &&& frame.spectrum is None ==> card.status == "Listening"@
                &&& frame.spectrum matches Some(spectrum) ==> {
                    &&& spectrum == panel.levels.spectra[source.id]
                    &&& spectrum.columns.len() == 0 ==> card.status == "Listening"@
                    &&& spectrum.columns.len() > 0 ==> card.status == text::decimal(
                        spectrum.sample_rate as nat,
                    ) + " Hz"@
                }
            }
            &&& panel.spectrum_source == SpectrumSource::DefaultOutput && node is None
                ==> card.trigger == "Default Output"@
            &&& panel.spectrum_source == SpectrumSource::DefaultOutput ==> (
            node matches Some(source) ==> card.trigger == "Default → "@ + source.description)
            &&& panel.spectrum_source matches SpectrumSource::Node(id) ==> {
                &&& node is None ==> card.trigger == "Unavailable"@
                &&& node matches Some(source) ==> {
                    &&& panel.graph.node_with_id(id) is Some ==> card.trigger == source.description
                    &&& panel.graph.node_with_id(id) is None ==> card.trigger == "Default Output"@
                }
            }
        }),
{
    if let SpectrumSource::Node(id) = panel.spectrum_source {
        model_laws::lemma_found_by_id(panel.graph, id);
        if let Some(source) = app::spectrum_node_in(panel.spectrum_source, panel.graph) {
            if source.id == id && panel.graph.node_with_id(id) is None {
                model::lemma_first_where(panel.graph.nodes, |n: NodeView| n.id == id);
                model_laws::lemma_defaults_go_by_name(panel.graph, source);
            }
        }
    }
}

/// The status bar counts the nodes, the cards and the meters, each in the singular exactly when
/// there is one, and says the server's error or that there is none. The header names the server.
pub proof fn lemma_status(panel: AppView)
    ensures
        ({
            let frame = panel.frame();
            let graph = panel.graph;
            let meters = panel.levels.meters.len();
            let node_count = text::decimal(graph.nodes.len()) + " "@ + (if graph.nodes.len() == 1 {
                "node"@
            } else {
                "nodes"@
            });
            let card_count = text::decimal(graph.cards.len()) + " "@ + (if graph.cards.len() == 1 {
                "card"@
            } else {
                "cards"@
            });
            let meter_count = text::decimal(meters) + " "@ + (if meters == 1 {
                "meter"@
            } else {
                "meters"@
            });
            &&& frame.status.0 == node_count + " · "@ + card_count + " · "@ + meter_count
            &&& graph.error is None ==> frame.status.1 == "Ready"@
            &&& graph.error matches Some(error) ==> frame.status.1 == error
            &&& graph.server_name is None ==> frame.server == "PipeWire"@
            &&& graph.server_name matches Some(name) ==> frame.server == name
        }),
{
}

/// Every open menu is laid over the panel, the spectrum menu on top.
pub proof fn lemma_menus_are_laid_over(panel: AppView)
    ensures
        ({
            let shown = panel.frame().menus;
            &&& panel.profile_menu() matches Some(menu) ==> shown.contains(menu)
            &&& panel.target_menu() matches Some(menu) ==> shown.contains(menu)
            &&& panel.spectrum_menu() matches Some(menu) ==> shown.len() > 0 && shown.last() == menu
            &&& panel.profile_menu() is None && panel.target_menu() is None
                && panel.spectrum_menu() is None ==> shown.len() == 0
        }),
{
    let empty = Seq::<crate::menus::MenuView>::empty();
    let one = crate::frame::and_menu(empty, panel.profile_menu());
    let two = crate::frame::and_menu(one, panel.target_menu());
    let three = crate::frame::and_menu(two, panel.spectrum_menu());
    if panel.profile_menu() is Some {
        assert(one[0] == panel.profile_menu()->0);
        assert(two[0] == one[0]);
        assert(three[0] == one[0]);
    }
    if panel.target_menu() is Some {
        assert(two[two.len() - 1] == panel.target_menu()->0);
        assert(three[two.len() - 1] == two[two.len() - 1]);
    }
}

/// Making a frame changes only which changes wait for the server, and the next frame is the same.
pub proof fn lemma_frames_repeat(panel: AppView)
    requires
        registry::distinct_nodes(panel.graph.nodes),
        registry::distinct_cards(panel.graph.cards),
    ensures
        ({
            let after = panel.after_frame();
            &&& after == (AppView {
                volume_overrides: after.volume_overrides,
                mute_overrides: after.mute_overrides,
                target_overrides: after.target_overrides,
                profile_overrides: after.profile_overrides,
                ..panel
            })
            &&& after.frame() == panel.frame()
        }),
{
    let after = panel.after_frame();
    let tab = panel.active_tab;
    let nodes = panel.graph.nodes_for_tab(tab);
    let cards = panel.graph.cards;
    lemma_settling_keeps(panel, nodes);
    lemma_settling_cards_keeps(panel, cards);
    if tab == Tab::Configuration {
        assert forall|i: int| 0 <= i < cards.len() implies after.card_rows()[i]
            == panel.card_rows()[i] by {
            lemma_settled_cards(panel, cards.take(i), cards[i]);
            lemma_settled_cards(after, cards.take(i), cards[i]);
            lemma_settled_cards(panel, cards, cards[i]);
        }
        assert(after.card_rows() =~= panel.card_rows());
    } else {
        lemma_filter_keeps_ids_apart(panel.graph.nodes, |n: NodeView| n.shown_in(tab));
        assert forall|i: int| 0 <= i < nodes.len() implies after.rows_of(nodes)[i]
            == panel.rows_of(nodes)[i] by {
            lemma_rows(panel, nodes, i);
            lemma_rows(after, nodes, i);
            lemma_settled_rows(panel, nodes, nodes[i]);
        }
        assert(after.rows_of(nodes) =~= panel.rows_of(nodes));
    }
}

proof fn lemma_settling_keeps(panel: AppView, nodes: Seq<NodeView>)
    ensures
        ({
            let after = panel.with_all_settled(nodes);
            after == (AppView {
                volume_overrides: after.volume_overrides,
                mute_overrides: after.mute_overrides,
                target_overrides: after.target_overrides,
                ..panel
            })
        }),
    decreases nodes.len(),
{
    if nodes.len() > 0 {
        lemma_settling_keeps(panel, nodes.drop_last());
    }
}

proof fn lemma_settling_cards_keeps(panel: AppView, cards: Seq<CardView>)
    ensures
        ({
            let after = panel.with_settled_cards(cards);
            after == (AppView { profile_overrides: after.profile_overrides, ..panel })
        }),
    decreases cards.len(),
{
    if cards.len() > 0 {
        lemma_settling_cards_keeps(panel, cards.drop_last());
    }
}

/// The words of a tab fit the nodes that it lists.
pub proof fn lemma_tab_words(tab: Tab, node: NodeView)
    requires
        node.shown_in(tab),
    ensures
        node.class == (ClassView::Stream { direction: Direction::Output }) ==> {
            &&& tab.label_text() == "Playback"@
            &&& tab.subtitle_text() == "Apps sending audio to a sink."@
        },
        node.class == (ClassView::Stream { direction: Direction::Input }) ==> {
            &&& tab.label_text() == "Recording"@
            &&& tab.subtitle_text() == "Apps capturing audio from a source."@
        },
        node.class == (ClassView::Device { direction: Direction::Output }) ==> {
            &&& tab.label_text() == "Output Devices"@
            &&& tab.subtitle_text() == "Audio sinks — speakers, headphones, virtual outputs."@
        },
        node.class == (ClassView::Device { direction: Direction::Input }) ==> {
            &&& tab.label_text() == "Input Devices"@
            &&& tab.subtitle_text() == "Audio sources — microphones, line-in, virtual inputs."@
        },
{
}

/// What a row says of a volume or an id can be read back from it: a number behind a hash, and a
/// number before a percent sign.
pub proof fn lemma_numbers_are_shown(n: u32)
    ensures
        ({
            let id = panels::id_text(n);
            let percent = panels::percent_text(n);
            &&& id.first() == '#'
            &&& text::parsed(id.skip(1), u32::MAX as int) == Some(n as int)
            &&& percent.last() == '%'
            &&& text::parsed(percent.drop_last(), u32::MAX as int) == Some(n as int)
        }),
{
    let number = text::decimal(n as nat);
    text::lemma_parsed_decimal(n as nat, u32::MAX as int);
    reveal_strlit("#");
    reveal_strlit("%");
    assert(panels::id_text(n).skip(1) =~= number);
    assert(panels::percent_text(n).drop_last() =~= number);
}

/// Whether the same changes to a node wait for the server.
pub open spec fn same_changes(a: AppView, b: AppView, id: u32) -> bool {
    &&& a.volume_overrides.contains_key(id) == b.volume_overrides.contains_key(id)
    &&& a.volume_overrides.contains_key(id) ==> a.volume_overrides[id] == b.volume_overrides[id]
    &&& a.mute_overrides.contains_key(id) == b.mute_overrides.contains_key(id)
    &&& a.mute_overrides.contains_key(id) ==> a.mute_overrides[id] == b.mute_overrides[id]
    &&& a.target_overrides.contains_key(id) == b.target_overrides.contains_key(id)
    &&& a.target_overrides.contains_key(id) ==> a.target_overrides[id] == b.target_overrides[id]
}

/// Once a frame is made, of the changes to a shown node those are left that the server has not
/// confirmed, and all changes to a node that is not shown.
pub proof fn lemma_frames_drop_what_is_confirmed(panel: AppView, i: int, id: u32)
    requires
        registry::distinct_nodes(panel.graph.nodes),
        panel.active_tab != Tab::Configuration,
    ensures
        ({
            let nodes = panel.graph.nodes_for_tab(panel.active_tab);
            let after = panel.after_frame();
            &&& 0 <= i < nodes.len() ==> {
                let node = nodes[i];
                &&& same_changes(after, panel.with_settled(node), node.id)
                &&& node.volume matches Some(volume) ==> {
                    &&& panel.mute_overrides.contains_key(node.id)
                        && panel.mute_overrides[node.id] == volume.muted
                        ==> !after.mute_overrides.contains_key(node.id)
                    &&& panel.volume_overrides.contains_key(node.id)
                        && panel.volume_overrides[node.id] == volume.hundredths && volume.hundredths
                        <= 999 ==> !after.volume_overrides.contains_key(node.id)
                }
            }
            &&& (forall|j: int| 0 <= j < nodes.len() ==> (#[trigger] nodes[j]).id != id)
                ==> same_changes(after, panel, id)
        }),
{
    let tab = panel.active_tab;
    let nodes = panel.graph.nodes_for_tab(tab);
    lemma_filter_keeps_ids_apart(panel.graph.nodes, |n: NodeView| n.shown_in(tab));
    if 0 <= i < nodes.len() {
        lemma_shown_changes(panel, nodes, i);
    }
    if forall|j: int| 0 <= j < nodes.len() ==> (#[trigger] nodes[j]).id != id {
        lemma_other_changes(panel, nodes, id);
    }
}

proof fn lemma_other_changes(panel: AppView, nodes: Seq<NodeView>, id: u32)
    requires
        forall|j: int| 0 <= j < nodes.len() ==> (#[trigger] nodes[j]).id != id,
    ensures
        same_changes(panel.with_all_settled(nodes), panel, id),
    decreases nodes.len(),
{
    if nodes.len() > 0 {
        let front = nodes.drop_last();
        assert forall|j: int| 0 <= j < front.len() implies (#[trigger] front[j]).id != id by {
            assert(front[j] == nodes[j]);
        }
        lemma_other_changes(panel, front, id);
        assert(nodes[nodes.len() - 1].id != id);
    }
}

proof fn lemma_shown_changes(panel: AppView, nodes: Seq<NodeView>, i: int)
    requires
        registry::distinct_nodes(nodes),
        0 <= i < nodes.len(),
    ensures
        same_changes(panel.with_all_settled(nodes), panel.with_settled(nodes[i]), nodes[i].id),
    decreases nodes.len(),
{
    let front = nodes.drop_last();
    let node = nodes[i];
    if i < front.len() {
        assert(registry::distinct_nodes(front));
        lemma_shown_changes(panel, front, i);
        assert(front[i] == node);
        assert(nodes[i].id != nodes[nodes.len() - 1].id);
    } else {
        assert forall|j: int| 0 <= j < front.len() implies (#[trigger] front[j]).id != node.id by {
            assert(nodes[j].id != nodes[i].id);
        }
        lemma_other_changes(panel, front, node.id);
        lemma_settling_keeps(panel, front);
    }
}

/// Once the cards are shown, of the profiles that were picked those are left that the server has not
/// confirmed.
pub proof fn lemma_frames_drop_confirmed_profiles(panel: AppView, i: int)
    requires
        registry::distinct_cards(panel.graph.cards),
        panel.active_tab == Tab::Configuration,
        0 <= i < panel.graph.cards.len(),
    ensures
        ({
            let card = panel.graph.cards[i];
            let after = panel.after_frame();
            let is_picked = panel.profile_overrides.contains_key(card.id);
            let picked = panel.profile_overrides[card.id];
            &&& is_picked && card.active_profile == Some(picked)
                ==> !after.profile_overrides.contains_key(card.id)
            &&& is_picked && card.active_profile != Some(picked)
                ==> after.profile_overrides.contains_key(card.id)
                && after.profile_overrides[card.id] == picked
            &&& !is_picked ==> !after.profile_overrides.contains_key(card.id)
        }),
{
    lemma_shown_profiles(panel, panel.graph.cards, i);
}

proof fn lemma_other_profiles(panel: AppView, cards: Seq<CardView>, id: u32)
    requires
        forall|j: int| 0 <= j < cards.len() ==> (#[trigger] cards[j]).id != id,
    ensures
        ({
            let after = panel.with_settled_cards(cards);
            &&& after.profile_overrides.contains_key(id) == panel.profile_overrides.contains_key(id)
            &&& panel.profile_overrides.contains_key(id) ==> after.profile_overrides[id]
                == panel.profile_overrides[id]
        }),
    decreases cards.len(),
{
    if cards.len() > 0 {
        let front = cards.drop_last();
        assert forall|j: int| 0 <= j < front.len() implies (#[trigger] front[j]).id != id by {
            assert(front[j] == cards[j]);
        }
        lemma_other_profiles(panel, front, id);
        assert(cards[cards.len() - 1].id != id);
    }
}

proof fn lemma_shown_profiles(panel: AppView, cards: Seq<CardView>, i: int)
    requires
        registry::distinct_cards(cards),
        0 <= i < cards.len(),
    ensures
        ({
            let id = cards[i].id;
            let after = panel.with_settled_cards(cards);
            let settled = panel.with_settled_profile(cards[i]);
            &&& after.profile_overrides.contains_key(id) == settled.profile_overrides.contains_key(id)
            &&& after.profile_overrides.contains_key(id) ==> after.profile_overrides[id]
                == settled.profile_overrides[id]
        }),
    decreases cards.len(),
{
    let front = cards.drop_last();
    let card = cards[i];
    if i < front.len() {
        assert(registry::distinct_cards(front));
        lemma_shown_profiles(panel, front, i);
        assert(front[i] == card);
        assert(cards[i].id != cards[cards.len() - 1].id);
    } else {
        assert forall|j: int| 0 <= j < front.len() implies (#[trigger] front[j]).id != card.id by {
            assert(cards[j].id != cards[i].id);
        }
        lemma_other_profiles(panel, front, card.id);
    }
}

} // verus!
