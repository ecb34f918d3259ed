//! What a stream's row says of its route, whatever the graph is.

use vstd::prelude::*;

use crate::model::{ClassView, Direction, NodeView, SnapshotView};
use crate::routing;
use crate::routing::TargetView;
use crate::text;
use crate::util;

verus! {

/// Whether the peer at `i` is the first one in a list that is a device of the given direction.
pub open spec fn is_first_linked(
    graph: SnapshotView,
    direction: Direction,
    ids: Seq<u32>,
    i: int,
) -> bool {
    &&& 0 <= i < ids.len()
    &&& graph.device_with_id(direction, ids[i]) is Some
    &&& forall|j: int| 0 <= j < i ==> graph.device_with_id(direction, #[trigger] ids[j]) is None
}

/// Whether no peer in a list is a device of the given direction.
pub open spec fn none_linked(graph: SnapshotView, direction: Direction, ids: Seq<u32>) -> bool {
    forall|j: int|
        0 <= j < ids.len() ==> graph.device_with_id(direction, #[trigger] ids[j]) is None
}

/// A stream plays or records where it is linked: on the first of its peers that is a device of its
/// direction. Other peers, such as the captures of meters, are passed over, and it is linked
/// nowhere only when none of its peers is such a device.
pub proof fn lemma_first_linked_device_is_live(
    graph: SnapshotView,
    direction: Direction,
    stream: NodeView,
    i: int,
)
    ensures
        graph.peers.contains_key(stream.id) && is_first_linked(
            graph,
            direction,
            graph.peers[stream.id],
            i,
        ) ==> graph.live_device(direction, stream) == graph.device_with_id(
            direction,
            graph.peers[stream.id][i],
        ),
        graph.live_device(direction, stream) is None <==> !graph.peers.contains_key(stream.id)
            || none_linked(graph, direction, graph.peers[stream.id]),
{
    if graph.peers.contains_key(stream.id) {
        lemma_first_device_is(graph, direction, graph.peers[stream.id], i);
    }
}

proof fn lemma_first_device_is(graph: SnapshotView, direction: Direction, ids: Seq<u32>, i: int)
    ensures
        is_first_linked(graph, direction, ids, i) ==> routing::first_device(graph, direction, ids)
            == graph.device_with_id(direction, ids[i]),
        routing::first_device(graph, direction, ids) is None <==> none_linked(
            graph,
            direction,
            ids,
        ),
    decreases ids.len(),
{
    if ids.len() > 0 {
        let rest = ids.drop_first();
        lemma_first_device_is(graph, direction, rest, i - 1);
        if is_first_linked(graph, direction, ids, i) && i > 0 {
            assert(graph.device_with_id(direction, ids[0]) is None);
            assert forall|j: int| 0 <= j < i - 1 implies graph.device_with_id(
                direction,
                #[trigger] rest[j],
            ) is None by {
                assert(rest[j] == ids[j + 1]);
            }
            assert(is_first_linked(graph, direction, rest, i - 1));
        }
        if none_linked(graph, direction, ids) {
            assert(graph.device_with_id(direction, ids[0]) is None);
            assert forall|j: int| 0 <= j < rest.len() implies graph.device_with_id(
                direction,
                #[trigger] rest[j],
            ) is None by {
                assert(rest[j] == ids[j + 1]);
            }
        }
        if graph.device_with_id(direction, ids[0]) is None && none_linked(graph, direction, rest) {
            assert forall|j: int| 0 <= j < ids.len() implies graph.device_with_id(
                direction,
                #[trigger] ids[j],
            ) is None by {
                if j > 0 {
                    assert(ids[j] == rest[j - 1]);
                }
            }
        }
    }
}

/// The row of a stream names the device that it is linked to, unless the user has just picked
/// another one.
pub proof fn lemma_row_names_the_linked_device(
    graph: SnapshotView,
    direction: Direction,
    stream: NodeView,
    picks: Map<u32, Option<u64>>,
    i: int,
)
    requires
        stream.class == (ClassView::Stream { direction }),
        !picks.contains_key(stream.id) || picks[stream.id] is None,
        graph.peers.contains_key(stream.id),
        is_first_linked(graph, direction, graph.peers[stream.id], i),
    ensures
        routing::target_of(graph, stream, picks).device == graph.device_with_id(
            direction,
            graph.peers[stream.id][i],
        ),
{
    lemma_first_linked_device_is_live(graph, direction, stream, i);
}

/// The row of a stream that is linked nowhere names the device that it is pinned to; and without
/// such a device, or once the user has picked the default, it names the default device.
pub proof fn lemma_row_falls_back(
    graph: SnapshotView,
    direction: Direction,
    stream: NodeView,
    picks: Map<u32, Option<u64>>,
)
    requires
        stream.class == (ClassView::Stream { direction }),
        graph.peers.contains_key(stream.id) ==> none_linked(
            graph,
            direction,
            graph.peers[stream.id],
        ),
    ensures
        !picks.contains_key(stream.id) && graph.pinned_device(direction, stream) is Some
            ==> routing::target_of(graph, stream, picks).device == graph.pinned_device(
            direction,
            stream,
        ),
        !picks.contains_key(stream.id) && graph.pinned_device(direction, stream) is None
            ==> routing::target_of(graph, stream, picks).device == graph.default_device(direction),
        picks.contains_key(stream.id) && picks[stream.id] is None && routing::is_pinned(stream)
            ==> routing::target_of(graph, stream, picks).device == graph.default_device(direction),
{
    lemma_first_linked_device_is_live(graph, direction, stream, 0);
}

/// A pin names a device by its serial, or by its name in a JSON object; white space around it does
/// not matter. A stream without a target, or with a blank one, is not pinned.
pub proof fn lemma_pins_name_devices(
    graph: SnapshotView,
    direction: Direction,
    stream: NodeView,
    other: NodeView,
    serial: u64,
    name: Seq<char>,
)
    requires
        !name.contains('"'),
        !name.contains('\\'),
    ensures
        stream.target == Some(text::decimal(serial as nat)) ==> graph.pinned_device(
            direction,
            stream,
        ) == graph.device_with_serial(direction, serial) && routing::is_pinned(stream),
        stream.target == Some(util::name_object(name)) ==> graph.pinned_device(direction, stream)
            == graph.device_with_name(direction, name) && routing::is_pinned(stream),
        stream.target is None ==> graph.pinned_device(direction, stream) is None
            && !routing::is_pinned(stream),
        stream.target matches Some(target) && text::trimmed(target).len() == 0
            ==> !routing::is_pinned(stream),
        stream.target matches Some(a) && other.target matches Some(b) && text::trimmed(a)
            == text::trimmed(b) ==> graph.pinned_device(direction, stream) == graph.pinned_device(
            direction,
            other,
        ) && routing::is_pinned(stream) == routing::is_pinned(other),
{
    text::lemma_parsed_decimal(serial as nat, u64::MAX as int);
    text::lemma_decimal_is_trimmed(serial as nat);
    text::lemma_parsed_digits(text::decimal(serial as nat), u64::MAX as int);
    let object = util::name_object(name);
    assert(object.first() == '{' && object.last() == '}');
    text::lemma_trimmed_fixpoint(object);
    text::lemma_parsed_digits(object, u64::MAX as int);
    util::lemma_name_round_trip(name);
}

/// The row of a stream names its device by the device's description, and says in front of it that
/// the stream moves with the default exactly when it does. A stream on no device says `Default`.
pub proof fn lemma_labels_name_the_device(target: TargetView)
    ensures
        target.device matches Some(device) ==> {
            &&& target.tracks_default ==> routing::label_of(target) == "default → "@
                + device.description
            &&& !target.tracks_default ==> routing::label_of(target) == device.description
        },
        target.device is None ==> routing::label_of(target) == "Default"@,
{
}

/// What is no stream has no route.
pub proof fn lemma_only_streams_have_routes(
    graph: SnapshotView,
    node: NodeView,
    picks: Map<u32, Option<u64>>,
)
    requires
        !(node.class is Stream),
    ensures
        routing::target_of(graph, node, picks).device is None,
        !routing::target_of(graph, node, picks).following,
        !routing::target_of(graph, node, picks).tracks_default,
        routing::settled_picks(graph, node, picks) == picks,
{
}

/// A pin that is neither a number nor a JSON object names no device, whatever the devices are
/// called.
pub proof fn lemma_other_pins_name_nothing(
    graph: SnapshotView,
    direction: Direction,
    stream: NodeView,
    target: Seq<char>,
)
    requires
        stream.target == Some(target),
        text::parsed(text::trimmed(target), u64::MAX as int) is None,
        text::trimmed(target).len() < 2 || text::trimmed(target).first() != '{' || text::trimmed(
            target,
        ).last() != '}',
    ensures
        graph.pinned_device(direction, stream) is None,
{
    let raw = text::trimmed(target);
    text::lemma_trimmed(target);
    text::lemma_trimmed_fixpoint(raw);
    util::lemma_only_names_are_read(raw, seq!['"', 'n', 'a', 'm', 'e', '"']);
}

} // verus!
