//! What the menus offer.

use vstd::prelude::*;

use crate::app::AppView;
use crate::keys;
use crate::menus;
use crate::model;
use crate::model::{
    CardView, ClassView, Direction, NodeView, ProfileAvailability, ProfileView, SnapshotView, Tab,
};
use crate::model_laws;
use crate::text;

verus! {

/// A card's menu offers its profiles in their order, each by its description, and says of those
/// that are known to be unavailable, and of no others, that they are.
pub proof fn lemma_profiles_are_offered(profiles: Seq<ProfileView>, i: int)
    requires
        0 <= i < profiles.len(),
    ensures
        ({
            let options = menus::profile_options(profiles);
            &&& options.len() == profiles.len()
            &&& profiles[i].available == ProfileAvailability::No ==> options[i].1
                == profiles[i].description + " · unavailable"@
            &&& profiles[i].available == ProfileAvailability::Yes ==> options[i].1
                == profiles[i].description
            &&& profiles[i].available == ProfileAvailability::Unknown ==> options[i].1
                == profiles[i].description
        }),
{
}

/// A stream's menu offers the default first, by the device that it is now, and then every device of
/// its direction, by its description, and nothing else.
pub proof fn lemma_devices_are_offered(graph: SnapshotView, direction: Direction, node: NodeView)
    ensures
        ({
            let options = menus::target_options(graph, direction);
            let devices = menus::devices_of(graph, direction);
            &&& options.len() == 1 + devices.len()
            &&& devices.contains(node) <==> graph.nodes.contains(node) && node.class == (
            ClassView::Device { direction })
            &&& forall|i: int|
                0 <= i < devices.len() ==> options[i + 1].1 == (#[trigger] devices[i]).description
            &&& graph.default_device(direction) matches Some(device) ==> options[0].1
                == "Default — "@ + device.description
            &&& graph.default_device(direction) is None ==> options[0].1 == "Default — automatic"@
        }),
{
    model_laws::lemma_filter_contains(graph.nodes, |n: NodeView| n.is_device(direction), node);
}

/// A device that joins the graph is offered behind the others of its direction.
pub proof fn lemma_devices_keep_the_order(graph: SnapshotView, direction: Direction, node: NodeView)
    ensures
        ({
            let grown = SnapshotView { nodes: graph.nodes.push(node), ..graph };
            let before = menus::devices_of(graph, direction);
            menus::devices_of(grown, direction) == if node.class == (
            ClassView::Device { direction }) {
                before.push(node)
            } else {
                before
            }
        }),
        graph.nodes.len() == 0 ==> menus::devices_of(graph, direction).len() == 0,
{
    reveal(Seq::filter);
    let grown = SnapshotView { nodes: graph.nodes.push(node), ..graph };
    assert(grown.nodes.drop_last() =~= graph.nodes);
}

/// The sources of the spectrogram are sorted by their kind: output devices before playback streams,
/// these before input devices, and these before recording streams. Within a kind they are sorted by
/// their description.
pub proof fn lemma_kinds_of_sources_are_sorted(a: NodeView, b: NodeView)
    ensures
        a.class == (ClassView::Device { direction: Direction::Output }) && b.class == (
        ClassView::Stream { direction: Direction::Output }) ==> a.goes_before(b),
        a.class == (ClassView::Stream { direction: Direction::Output }) && b.class == (
        ClassView::Device { direction: Direction::Input }) ==> a.goes_before(b),
        a.class == (ClassView::Device { direction: Direction::Input }) && b.class == (
        ClassView::Stream { direction: Direction::Input }) ==> a.goes_before(b),
        a.class == (ClassView::Device { direction: Direction::Output }) && b.class == (
        ClassView::Device { direction: Direction::Input }) ==> a.goes_before(b),
        a.class == (ClassView::Device { direction: Direction::Output }) && b.class == (
        ClassView::Stream { direction: Direction::Input }) ==> a.goes_before(b),
        a.class == (ClassView::Stream { direction: Direction::Output }) && b.class == (
        ClassView::Stream { direction: Direction::Input }) ==> a.goes_before(b),
        a.class == b.class && a.can_be_source() ==> a.goes_before(b) == text::text_before(
            a.description,
            b.description,
        ),
        a.goes_before(b) ==> !b.goes_before(a),
{
    text::lemma_text_before_total(a.description, b.description);
}

/// The spectrum menu offers the default output first, and then every device and every stream, and
/// nothing else.
pub proof fn lemma_sources_are_offered(graph: SnapshotView, node: NodeView)
    ensures
        ({
            let options = menus::source_options(graph);
            let sources = menus::in_order(graph.nodes.filter(|n: NodeView| n.can_be_source()));
            &&& options.len() == 1 + sources.len()
            &&& options[0].1 == "Default Output"@
            &&& sources.contains(node) <==> graph.nodes.contains(node) && (node.class is Device
                || node.class is Stream)
        }),
{
    let keep = |n: NodeView| n.can_be_source();
    let kept = graph.nodes.filter(keep);
    let sources = menus::in_order(kept);
    model_laws::lemma_filter_contains(graph.nodes, keep, node);
    menus::lemma_no_source_is_lost(kept);
    broadcast use vstd::seq_lib::group_to_multiset_ensures;

    assert(sources.contains(node) <==> sources.to_multiset().count(node) > 0);
    assert(kept.contains(node) <==> kept.to_multiset().count(node) > 0);
}

/// A source is offered by its kind and its title, which is the name of its application, or else
/// what it plays, or else its description.
pub proof fn lemma_sources_are_named(graph: SnapshotView, i: int)
    requires
        0 < i < menus::source_options(graph).len(),
    ensures
        ({
            let source = menus::in_order(graph.nodes.filter(|n: NodeView| n.can_be_source()))[i - 1];
            let label = menus::source_options(graph)[i].1;
            &&& source.class == (ClassView::Device { direction: Direction::Output }) ==> label
                == "Output"@ + " · "@ + source.title()
            &&& source.class == (ClassView::Stream { direction: Direction::Output }) ==> label
                == "Playback"@ + " · "@ + source.title()
            &&& source.class == (ClassView::Device { direction: Direction::Input }) ==> label
                == "Input"@ + " · "@ + source.title()
            &&& source.class == (ClassView::Stream { direction: Direction::Input }) ==> label
                == "Recording"@ + " · "@ + source.title()
        }),
{
}

/// The title of a node is the name of its application, or else what it plays, or else its
/// description.
pub proof fn lemma_titles(node: NodeView)
    ensures
        node.application matches Some(application) ==> node.title() == application,
        node.application is None ==> (node.media_name matches Some(name) ==> node.title() == name),
        node.application is None && node.media_name is None ==> node.title() == node.description,
{
}

/// Whether a card is the first one with an id.
pub open spec fn is_card_with(graph: SnapshotView, card: CardView, id: u32) -> bool {
    exists|i: int|
        0 <= i < graph.cards.len() && #[trigger] graph.cards[i] == card && card.id == id
            && forall|j: int| 0 <= j < i ==> (#[trigger] graph.cards[j]).id != id
}

/// The menu of a card is laid over the configuration tab alone, while it is open and the graph has
/// the card, and offers that card's profiles.
pub proof fn lemma_profile_menu(panel: AppView, id: u32, card: CardView)
    ensures
        panel.profile_dropdown_open is None ==> panel.profile_menu() is None,
        panel.active_tab != Tab::Configuration ==> panel.profile_menu() is None,
        panel.profile_dropdown_open == Some(id) && panel.active_tab == Tab::Configuration
            && is_card_with(panel.graph, card, id) ==> (panel.profile_menu() matches Some(menu)
            && menu.key == keys::key_of("profile:"@, id) && menu.options == menus::profile_options(
            card.profiles,
        )),
        panel.profile_dropdown_open == Some(id) && (forall|j: int|
            0 <= j < panel.graph.cards.len() ==> (#[trigger] panel.graph.cards[j]).id != id)
            ==> panel.profile_menu() is None,
{
    let keep = |c: CardView| c.id == id;
    model::lemma_first_where(panel.graph.cards, keep);
    if is_card_with(panel.graph, card, id) {
        let i = choose|i: int|
            0 <= i < panel.graph.cards.len() && #[trigger] panel.graph.cards[i] == card && card.id
                == id && forall|j: int| 0 <= j < i ==> (#[trigger] panel.graph.cards[j]).id != id;
        model::lemma_first_where_is(panel.graph.cards, keep, i);
    }
}

/// The menu of a stream is laid over the tabs with streams alone, while it is open and the graph has
/// the stream, and offers the devices of the stream's direction.
pub proof fn lemma_target_menu(panel: AppView, id: u32, direction: Direction)
    ensures
        panel.target_dropdown_open is None ==> panel.target_menu() is None,
        panel.active_tab != Tab::Playback && panel.active_tab != Tab::Recording
            ==> panel.target_menu() is None,
        panel.target_dropdown_open == Some(id) && (panel.active_tab == Tab::Playback
            || panel.active_tab == Tab::Recording) ==> {
            &&& panel.graph.node_with_id(id) is None ==> panel.target_menu() is None
            &&& panel.graph.node_with_id(id) matches Some(node) ==> {
                &&& node.class == (ClassView::Stream { direction }) ==> (
                panel.target_menu() matches Some(menu) && menu.key == keys::key_of("target:"@, id)
                    && menu.options == menus::target_options(panel.graph, direction))
                &&& !(node.class is Stream) ==> panel.target_menu() is None
            }
        },
{
}

/// The spectrum menu is laid over every tab while it is open.
pub proof fn lemma_spectrum_menu(panel: AppView)
    ensures
        !panel.spectrum_dropdown_open ==> panel.spectrum_menu() is None,
        panel.spectrum_dropdown_open ==> (panel.spectrum_menu() matches Some(menu) && menu.key
            == "spectrum"@ && menu.options == menus::source_options(panel.graph)),
{
}

} // verus!
