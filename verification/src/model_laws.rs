//! What holds of every audio graph: what its tabs list, and what is found in it.

use vstd::prelude::*;

use crate::model;
use crate::model::{ClassView, Direction, NodeView, SnapshotView, Tab, Volume};

verus! {

/// A tab lists the nodes of one class: playing streams, recording streams, output devices or input
/// devices; the configuration lists none. So every stream and every device is listed by exactly one
/// tab, and nothing else is listed.
pub proof fn lemma_tabs_share_out_the_nodes(graph: SnapshotView, tab: Tab, node: NodeView)
    ensures
        graph.nodes_for_tab(tab).contains(node) <==> graph.nodes.contains(node) && match node.class {
            ClassView::Stream { direction: Direction::Output } => tab == Tab::Playback,
            ClassView::Stream { direction: Direction::Input } => tab == Tab::Recording,
            ClassView::Device { direction: Direction::Output } => tab == Tab::Outputs,
            ClassView::Device { direction: Direction::Input } => tab == Tab::Inputs,
            _ => false,
        },
        graph.nodes_for_tab(Tab::Configuration).len() == 0,
{
    lemma_filter_contains(graph.nodes, |n: NodeView| n.shown_in(tab), node);
    let none = graph.nodes_for_tab(Tab::Configuration);
    if none.len() > 0 {
        lemma_filter_contains(
            graph.nodes,
            |n: NodeView| n.shown_in(Tab::Configuration),
            none[0],
        );
        assert(none.contains(none[0]));
    }
}

/// What a filter keeps is what was there and is accepted.
pub proof fn lemma_filter_contains<T>(s: Seq<T>, keep: spec_fn(T) -> bool, t: T)
    ensures
        s.filter(keep).contains(t) <==> s.contains(t) && keep(t),
    decreases s.len(),
{
    reveal(Seq::filter);
    if s.len() > 0 {
        let front = s.drop_last();
        lemma_filter_contains(front, keep, t);
        assert(s =~= front.push(s.last()));
        vstd::seq_lib::lemma_seq_contains_after_push(front, s.last(), t);
        vstd::seq_lib::lemma_seq_contains_after_push(front.filter(keep), s.last(), t);
    }
}

/// A node that joins the graph is listed behind the others of its tab, which stay as they are; the
/// other tabs do not change.
pub proof fn lemma_tabs_keep_the_order(graph: SnapshotView, node: NodeView, tab: Tab)
    ensures
        ({
            let grown = SnapshotView { nodes: graph.nodes.push(node), ..graph };
            grown.nodes_for_tab(tab) == if grown.nodes_for_tab(tab).contains(node) {
                graph.nodes_for_tab(tab).push(node)
            } else {
                graph.nodes_for_tab(tab)
            }
        }),
        graph.nodes.len() == 0 ==> graph.nodes_for_tab(tab).len() == 0,
{
    reveal(Seq::filter);
    let grown = SnapshotView { nodes: graph.nodes.push(node), ..graph };
    assert(grown.nodes.drop_last() =~= graph.nodes);
    assert(grown.nodes.last() == node);
    lemma_filter_contains(grown.nodes, |n: NodeView| n.shown_in(tab), node);
    assert(grown.nodes.contains(node));
}

/// A node is found by its id when and only when the graph has one with that id, and the first of
/// them is.
pub proof fn lemma_found_by_id(graph: SnapshotView, id: u32)
    ensures
        match graph.node_with_id(id) {
            Some(node) => node.id == id && exists|i: int|
                0 <= i < graph.nodes.len() && #[trigger] graph.nodes[i] == node && forall|j: int|
                    0 <= j < i ==> (#[trigger] graph.nodes[j]).id != id,
            None => forall|j: int| 0 <= j < graph.nodes.len() ==> (#[trigger] graph.nodes[j]).id != id,
        },
{
    let keep = |n: NodeView| n.id == id;
    model::lemma_first_where(graph.nodes, keep);
    assert forall|j: int| 0 <= j < graph.nodes.len() && !keep(graph.nodes[j]) implies (
    #[trigger] graph.nodes[j]).id != id by {
    }
}

/// In a graph whose ids are distinct, every node is found by its id.
pub proof fn lemma_listed_is_found(graph: SnapshotView, k: int)
    requires
        0 <= k < graph.nodes.len(),
        forall|i: int, j: int|
            0 <= i < j < graph.nodes.len() ==> #[trigger] graph.nodes[i].id
                != #[trigger] graph.nodes[j].id,
    ensures
        graph.node_with_id(graph.nodes[k].id) == Some(graph.nodes[k]),
        model::node_position(graph.nodes, graph.nodes[k].id) == Some(k),
{
    let id = graph.nodes[k].id;
    model::lemma_first_where_is(graph.nodes, |n: NodeView| n.id == id, k);
}

/// Whether a node is the first device of a direction that `keep` accepts.
pub open spec fn is_first_device(
    graph: SnapshotView,
    direction: Direction,
    keep: spec_fn(NodeView) -> bool,
    found: Option<NodeView>,
) -> bool {
    match found {
        Some(device) => exists|i: int|
            #![trigger graph.nodes[i]]
            {
                &&& 0 <= i < graph.nodes.len()
                &&& graph.nodes[i] == device
                &&& device.class == ClassView::Device { direction }
                &&& keep(device)
                &&& forall|j: int|
                    0 <= j < i && (#[trigger] graph.nodes[j]).class == (ClassView::Device {
                        direction,
                    }) ==> !keep(graph.nodes[j])
            },
        None => forall|j: int|
            0 <= j < graph.nodes.len() && (#[trigger] graph.nodes[j]).class == (ClassView::Device {
                direction,
            }) ==> !keep(graph.nodes[j]),
    }
}

/// A device is looked up among the devices of its direction alone, by its id, its serial or its
/// name, and the first one that fits is found.
pub proof fn lemma_devices_are_looked_up(
    graph: SnapshotView,
    direction: Direction,
    id: u32,
    serial: u64,
    name: Seq<char>,
)
    ensures
        is_first_device(
            graph,
            direction,
            |n: NodeView| n.id == id,
            graph.device_with_id(direction, id),
        ),
        is_first_device(
            graph,
            direction,
            |n: NodeView| n.serial == serial,
            graph.device_with_serial(direction, serial),
        ),
        is_first_device(
            graph,
            direction,
            |n: NodeView| n.name == name,
            graph.device_with_name(direction, name),
        ),
{
    let by_id = |n: NodeView| n.id == id && n.is_device(direction);
    let by_serial = |n: NodeView| n.serial == serial && n.is_device(direction);
    let by_name = |n: NodeView| n.name == name && n.is_device(direction);
    model::lemma_first_where(graph.nodes, by_id);
    model::lemma_first_where(graph.nodes, by_serial);
    model::lemma_first_where(graph.nodes, by_name);
    lemma_first_device(graph, direction, |n: NodeView| n.id == id, by_id);
    lemma_first_device(graph, direction, |n: NodeView| n.serial == serial, by_serial);
    lemma_first_device(graph, direction, |n: NodeView| n.name == name, by_name);
}

proof fn lemma_first_device(
    graph: SnapshotView,
    direction: Direction,
    keep: spec_fn(NodeView) -> bool,
    both: spec_fn(NodeView) -> bool,
)
    requires
        forall|n: NodeView| #[trigger]
            both(n) <==> keep(n) && n.class == (ClassView::Device { direction }),
    ensures
        is_first_device(graph, direction, keep, model::find_node(graph.nodes, both)),
{
    model::lemma_first_where(graph.nodes, both);
    match model::first_where(graph.nodes, both) {
        Some(i) => {
            assert(both(graph.nodes[i]));
            assert forall|j: int|
                0 <= j < i && (#[trigger] graph.nodes[j]).class == (ClassView::Device {
                    direction,
                }) implies !keep(graph.nodes[j]) by {
                assert(!both(graph.nodes[j]));
            }
        },
        None => {
            assert forall|j: int|
                0 <= j < graph.nodes.len() && (#[trigger] graph.nodes[j]).class == (
                ClassView::Device { direction }) implies !keep(graph.nodes[j]) by {
                assert(!both(graph.nodes[j]));
            }
        },
    }
}

/// The default output device is the device that has the name of the default sink, and the default
/// input device the one that has the name of the default source. A node is the default when it is
/// a device that has this name; no stream is.
pub proof fn lemma_defaults_go_by_name(graph: SnapshotView, node: NodeView)
    ensures
        graph.is_default(node) <==> {
            ||| node.class == (ClassView::Device { direction: Direction::Output })
                && graph.default_sink_name == Some(node.name)
            ||| node.class == (ClassView::Device { direction: Direction::Input })
                && graph.default_source_name == Some(node.name)
        },
        is_first_device(
            graph,
            Direction::Output,
            |n: NodeView| graph.default_sink_name == Some(n.name),
            graph.default_device(Direction::Output),
        ),
        is_first_device(
            graph,
            Direction::Input,
            |n: NodeView| graph.default_source_name == Some(n.name),
            graph.default_device(Direction::Input),
        ),
{
    if let Some(name) = graph.default_sink_name {
        lemma_first_device(
            graph,
            Direction::Output,
            |n: NodeView| graph.default_sink_name == Some(n.name),
            |n: NodeView| n.name == name && n.is_device(Direction::Output),
        );
    }
    if let Some(name) = graph.default_source_name {
        lemma_first_device(
            graph,
            Direction::Input,
            |n: NodeView| graph.default_source_name == Some(n.name),
            |n: NodeView| n.name == name && n.is_device(Direction::Input),
        );
    }
}

/// A volume is shown as it is up to 999 percent, and what is beyond is shown as that. A volume that
/// is set is kept as it is up to 150 percent, and what is beyond is set to that.
pub proof fn lemma_volumes_are_limited(volume: Volume, percent: u32)
    ensures
        volume.hundredths <= 999 ==> volume.shown_percent() == volume.hundredths,
        volume.hundredths >= 999 ==> volume.shown_percent() == 999,
        percent <= 150 ==> model::limited(percent) == percent,
        percent >= 150 ==> model::limited(percent) == 150,
{
}

/// Every tab is on the tab bar, at a place of its own.
pub proof fn lemma_tab_bar_has_every_tab(tab: Tab)
    ensures
        exists|i: int| 0 <= i < Tab::ALL@.len() && #[trigger] Tab::ALL@[i] == tab,
        Tab::ALL@.no_duplicates(),
        Tab::ALL@.len() == 5,
{
    assert(Tab::ALL@[0] == Tab::Playback);
    assert(Tab::ALL@[1] == Tab::Recording);
    assert(Tab::ALL@[2] == Tab::Outputs);
    assert(Tab::ALL@[3] == Tab::Inputs);
    assert(Tab::ALL@[4] == Tab::Configuration);
}

} // verus!
