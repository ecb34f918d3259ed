//! What is metered, and what the meters publish.

use vstd::prelude::*;

use crate::levels;
use crate::levels::capture;
use crate::levels::{LevelsView, MeterPlan, MeterRoute, ServiceView, SpectrumView};
use crate::model::{ClassView, Direction, NodeView};
use crate::text;

verus! {

/// Output devices and streams are metered through links from their ports, input devices and streams
/// through a capture that the session manager connects; peak detectors and nodes of other classes
/// are not metered.
pub proof fn lemma_routes_go_by_direction(node: NodeView)
    ensures
        node.media_role == Some("DSP"@) ==> node.meter_route() is None,
        !(node.class is Device) && !(node.class is Stream) ==> node.meter_route() is None,
        node.media_role != Some("DSP"@) ==> {
            &&& node.class == (ClassView::Device { direction: Direction::Output })
                ==> node.meter_route() == Some(MeterRoute::LinkFromOutputs)
            &&& node.class == (ClassView::Stream { direction: Direction::Output })
                ==> node.meter_route() == Some(MeterRoute::LinkFromOutputs)
            &&& node.class == (ClassView::Device { direction: Direction::Input })
                ==> node.meter_route() == Some(MeterRoute::AutoConnect)
            &&& node.class == (ClassView::Stream { direction: Direction::Input })
                ==> node.meter_route() == Some(MeterRoute::AutoConnect)
        },
{
}

/// Whether a node is among the visible ones, or the one whose spectrum is shown.
pub open spec fn is_asked_for(
    visible: Seq<NodeView>,
    spectrum_node: Option<NodeView>,
    node: NodeView,
) -> bool {
    visible.contains(node) || spectrum_node == Some(node)
}

/// A visible node that can be metered is, and so is the one whose spectrum is shown; what was
/// published of a node that stays metered stays, and so does the spectrum of the node whose
/// spectrum is shown.
pub proof fn lemma_what_is_seen_is_metered(
    service: ServiceView,
    visible: Seq<NodeView>,
    spectrum_node: Option<NodeView>,
    node: NodeView,
)
    requires
        is_asked_for(visible, spectrum_node, node),
        node.meter_route() is Some,
    ensures
        ({
            let next = service.reconciled(visible, spectrum_node);
            &&& next.meters.contains(node.id)
            &&& next.levels.contains_key(node.id) == service.levels.contains_key(node.id)
            &&& service.levels.contains_key(node.id) ==> next.levels[node.id]
                == service.levels[node.id]
            &&& spectrum_node == Some(node) ==> {
                &&& next.spectrum_node == Some(node.id)
                &&& next.spectra.contains_key(node.id) == service.spectra.contains_key(node.id)
                &&& service.spectra.contains_key(node.id) ==> next.spectra[node.id]
                    == service.spectra[node.id]
            }
        }),
{
    let nodes = levels::asked_for(visible, spectrum_node);
    if visible.contains(node) {
        let i = choose|i: int| 0 <= i < visible.len() && visible[i] == node;
        assert(nodes[i] == node);
    } else {
        assert(nodes[visible.len() as int] == node);
    }
    assert(levels::wants(nodes, node.id));
}

/// A node that is neither visible nor heard, or that cannot be metered, has no meter.
pub proof fn lemma_nothing_else_is_metered(
    service: ServiceView,
    visible: Seq<NodeView>,
    spectrum_node: Option<NodeView>,
    id: u32,
)
    requires
        forall|node: NodeView|
            node.id == id && #[trigger] is_asked_for(visible, spectrum_node, node)
                ==> node.meter_route() is None,
    ensures
        ({
            let next = service.reconciled(visible, spectrum_node);
            &&& !next.meters.contains(id)
            &&& !next.levels.contains_key(id)
            &&& !next.spectra.contains_key(id)
            &&& next.spectrum_node != Some(id)
        }),
{
    let nodes = levels::asked_for(visible, spectrum_node);
    if levels::wants(nodes, id) {
        let i = choose|i: int|
            0 <= i < nodes.len() && (#[trigger] nodes[i]).id == id
                && nodes[i].meter_route() is Some;
        if i < visible.len() {
            assert(visible.contains(nodes[i]));
        }
        assert(is_asked_for(visible, spectrum_node, nodes[i]));
    }
    if let Some(node) = spectrum_node {
        assert(is_asked_for(visible, spectrum_node, node));
    }
}

/// Each meter that is started is started once, the way that a node with its id asks for.
pub proof fn lemma_started_meters(nodes: Seq<NodeView>, running: Set<u32>, k: int, j: int)
    requires
        0 <= k < levels::started(nodes, running).len(),
    ensures
        ({
            let start = levels::started(nodes, running);
            &&& !running.contains(start[k].0)
            &&& exists|i: int|
                0 <= i < nodes.len() && (#[trigger] nodes[i]).id == start[k].0
                    && nodes[i].meter_route() == Some(start[k].1)
            &&& k < j < start.len() ==> start[j].0 != start[k].0
        }),
    decreases nodes.len(),
{
    let start = levels::started(nodes, running);
    let front = nodes.drop_last();
    let before = levels::started(front, running);
    if k < before.len() {
        lemma_started_meters(front, running, k, j);
        assert(start[k] == before[k]);
        let i = choose|i: int|
            0 <= i < front.len() && (#[trigger] front[i]).id == start[k].0
                && front[i].meter_route() == Some(start[k].1);
        assert(nodes[i] == front[i]);
        if j == before.len() && j < start.len() {
            assert(before[k].0 == start[k].0);
            assert(start[j].0 == nodes.last().id);
            assert(!levels::starts(before, nodes.last().id));
        }
    } else {
        assert(nodes[nodes.len() - 1].id == start[k].0);
    }
}

/// The levels that a meter published last are the ones that are shown of its node; nothing else
/// changes.
pub proof fn lemma_levels_are_published(
    service: ServiceView,
    id: u32,
    published: LevelsView,
    other: u32,
)
    requires
        other != id,
    ensures
        ({
            let next = service.with_levels(id, published);
            &&& next.levels.contains_key(id) && next.levels[id] == published
            &&& next.levels.contains_key(other) == service.levels.contains_key(other)
            &&& service.levels.contains_key(other) ==> next.levels[other] == service.levels[other]
            &&& next.spectra == service.spectra
            &&& next.spectrum_node == service.spectrum_node
            &&& next.meters == service.meters
        }),
{
}

/// A column joins the spectrum of its node when that has the same sample rate, and starts it anew
/// otherwise; nothing else changes.
pub proof fn lemma_columns_are_published(
    service: ServiceView,
    id: u32,
    rate: u32,
    column: Seq<u32>,
    other: u32,
)
    requires
        other != id,
    ensures
        ({
            let next = service.with_column(id, rate, column);
            let old_columns = service.spectra[id].columns;
            &&& next.spectra.contains_key(id)
            &&& next.spectra[id].sample_rate == rate
            &&& service.spectra.contains_key(id) && service.spectra[id].sample_rate == rate ==> {
                &&& old_columns.len() < service.spectra[id].history ==> next.spectra[id].columns
                    == old_columns.push(column)
                &&& next.spectra[id].bins == service.spectra[id].bins
            }
            &&& !service.spectra.contains_key(id) || service.spectra[id].sample_rate != rate ==> {
                &&& next.spectra[id].columns == seq![column]
                &&& next.spectra[id].bins == 72
                &&& next.spectra[id].history == 256
                &&& next.spectra[id].min_hz == 35
                &&& next.spectra[id].max_hz == 18_000
            }
            &&& next.spectra.contains_key(other) == service.spectra.contains_key(other)
            &&& service.spectra.contains_key(other) ==> next.spectra[other]
                == service.spectra[other]
            &&& next.levels == service.levels
            &&& next.spectrum_node == service.spectrum_node
            &&& next.meters == service.meters
        }),
{
    assert(SpectrumView::empty(rate).with_column(column).columns =~= seq![column]);
}

/// Once the history is full, each column that joins pushes out the oldest one.
pub proof fn lemma_oldest_column_goes(spectrum: SpectrumView, column: Seq<u32>, i: int)
    requires
        spectrum.history > 0,
        spectrum.columns.len() == spectrum.history,
        0 <= i < spectrum.history,
    ensures
        ({
            let next = spectrum.with_column(column);
            &&& next.columns.len() == spectrum.history
            &&& next.columns[i] == if i + 1 < spectrum.history {
                spectrum.columns[i + 1]
            } else {
                column
            }
        }),
{
}

/// A capture carries the name by which it is found and the role by which it is left alone; one that
/// is linked by hand fixes its format and names no target, and one that is connected names its node
/// as the target.
pub proof fn lemma_captures(id: u32, i: int)
    ensures
        ({
            let linked = capture::capture_of(id, MeterRoute::LinkFromOutputs);
            let connected = capture::capture_of(id, MeterRoute::AutoConnect);
            let name = "damascene-volume.meter."@ + text::decimal(id as nat);
            &&& linked.properties.contains(("application.name"@, "damascene-volume"@))
            &&& linked.properties.contains(("media.type"@, "Audio"@))
            &&& linked.properties.contains(("media.category"@, "Capture"@))
            &&& linked.properties.contains(("media.role"@, "DSP"@))
            &&& linked.properties.contains(("node.name"@, name))
            &&& linked.connect_to is None
            &&& linked.fixed_format == Some((48_000u32, 2u32))
            &&& 0 <= i < linked.properties.len() ==> linked.properties[i].0 != "target.object"@
            &&& linked.properties.is_prefix_of(connected.properties)
            &&& connected.properties.contains(("target.object"@, text::decimal(id as nat)))
            &&& connected.connect_to == Some(id)
            &&& connected.fixed_format is None
        }),
{
    let linked = capture::capture_of(id, MeterRoute::LinkFromOutputs).properties;
    let connected = capture::capture_of(id, MeterRoute::AutoConnect).properties;
    assert(linked[0] == ("application.name"@, "damascene-volume"@));
    assert(linked[1] == ("media.type"@, "Audio"@));
    assert(linked[2] == ("media.category"@, "Capture"@));
    assert(linked[3] == ("media.role"@, "DSP"@));
    assert(connected.take(5) =~= linked);
    assert(linked[4] == ("node.name"@, "damascene-volume.meter."@ + text::decimal(id as nat)));
    assert(connected[5] == ("target.object"@, text::decimal(id as nat)));
    reveal_strlit("application.name");
    reveal_strlit("media.type");
    reveal_strlit("media.category");
    reveal_strlit("media.role");
    reveal_strlit("node.name");
    reveal_strlit("target.object");
    assert("target.object"@[0] == 't');
    assert("application.name"@[0] == 'a');
    assert("media.type"@[0] == 'm');
    assert("media.category"@[0] == 'm');
    assert("media.role"@[0] == 'm');
    assert("node.name"@[0] == 'n');
}

/// Whether the node at `i` is the first one with its id that can be metered.
pub open spec fn is_first_metered(nodes: Seq<NodeView>, i: int) -> bool {
    &&& 0 <= i < nodes.len()
    &&& nodes[i].meter_route() is Some
    &&& forall|j: int|
        0 <= j < i && (#[trigger] nodes[j]).id == nodes[i].id ==> nodes[j].meter_route() is None
}

/// Meters are started in the order of their nodes, each for the first node with its id that can be
/// metered, the way that this node asks for.
pub proof fn lemma_meters_start_in_order(nodes: Seq<NodeView>, running: Set<u32>, j: int, k: int)
    requires
        0 <= j <= k < levels::started(nodes, running).len(),
    ensures
        ({
            let start = levels::started(nodes, running);
            exists|a: int, b: int|
                {
                    &&& #[trigger] is_first_metered(nodes, a)
                    &&& #[trigger] is_first_metered(nodes, b)
                    &&& start[j] == (nodes[a].id, nodes[a].meter_route()->0)
                    &&& start[k] == (nodes[b].id, nodes[b].meter_route()->0)
                    &&& a <= b
                    &&& j < k ==> a < b
                }
        }),
    decreases nodes.len(),
{
    let start = levels::started(nodes, running);
    let front = nodes.drop_last();
    let before = levels::started(front, running);
    let last = nodes.len() - 1;
    assert forall|i: int| is_first_metered(front, i) implies is_first_metered(nodes, i) by {
        assert forall|m: int|
            0 <= m < i && (#[trigger] nodes[m]).id
                == nodes[i].id implies nodes[m].meter_route() is None by {
            assert(front[m].id == front[i].id);
        }
    }
    if k < before.len() {
        lemma_meters_start_in_order(front, running, j, k);
        let (a, b) = choose|a: int, b: int|
            {
                &&& #[trigger] is_first_metered(front, a)
                &&& #[trigger] is_first_metered(front, b)
                &&& before[j] == (front[a].id, front[a].meter_route()->0)
                &&& before[k] == (front[b].id, front[b].meter_route()->0)
                &&& a <= b
                &&& j < k ==> a < b
            };
        assert(is_first_metered(nodes, a) && is_first_metered(nodes, b));
    } else {
        assert(is_first_metered(nodes, last)) by {
            assert forall|m: int|
                0 <= m < last && (#[trigger] nodes[m]).id
                    == nodes[last].id implies nodes[m].meter_route() is None by {
                if nodes[m].meter_route() is Some {
                    assert(front[m].id == nodes[last].id);
                    assert(levels::wants(front, nodes[last].id));
                    levels::lemma_started(front, running, nodes[last].id);
                }
            }
        }
        if j < k {
            lemma_meters_start_in_order(front, running, j, j);
            let (a, b) = choose|a: int, b: int|
                {
                    &&& #[trigger] is_first_metered(front, a)
                    &&& #[trigger] is_first_metered(front, b)
                    &&& before[j] == (front[a].id, front[a].meter_route()->0)
                    &&& before[j] == (front[b].id, front[b].meter_route()->0)
                    &&& a <= b
                };
            assert(is_first_metered(nodes, a) && is_first_metered(nodes, last));
        }
    }
}

/// A plan stops each meter that runs and is not wanted, once, and starts each that is wanted and does
/// not run; a meter that runs and is wanted goes on.
pub proof fn lemma_plans_leave_the_rest_alone(
    plan: MeterPlan,
    service: ServiceView,
    visible: Seq<NodeView>,
    spectrum_node: Option<NodeView>,
    id: u32,
)
    requires
        plan.leads_from(service, visible, spectrum_node),
    ensures
        ({
            let next = service.reconciled(visible, spectrum_node);
            &&& plan.stop@.no_duplicates()
            &&& plan.stop@.contains(id) <==> service.meters.contains(id) && !next.meters.contains(id)
            &&& levels::starts(plan.start@, id) <==> next.meters.contains(id)
                && !service.meters.contains(id)
        }),
{
    let nodes = levels::asked_for(visible, spectrum_node);
    levels::lemma_started(nodes, service.meters, id);
    assert(plan.stop@.contains(id) <==> service.meters.contains(id) && !levels::wanted(
        nodes,
    ).contains(id));
}

} // verus!
