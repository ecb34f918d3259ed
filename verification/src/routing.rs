//! Where a stream plays or records: its pin, its live link, the default device, and the user's
//! pick that the server has not confirmed yet.

use std::collections::HashMap;

use vstd::prelude::*;

use crate::model;
use crate::model::{
    AudioClass, AudioNode, AudioSnapshot, ClassView, Direction, NodeView, SnapshotView,
};
use crate::text;
use crate::util;

verus! {

broadcast use vstd::std_specs::hash::group_hash_axioms;

/// Where a stream is routed, as its row shows it.
#[derive(Debug, Clone, Copy)]
pub struct StreamTarget<'a> {
    /// Whether the stream has no pin and so goes wherever the session sends it. A stream that is
    /// not following gets a pin icon.
    pub following: bool,
    /// Whether the stream will move when the default device changes: it is following, and the
    /// device it is on is the default one. A following stream that the session has diverted to
    /// another device does not track the default.
    pub tracks_default: bool,
    /// The device that the row names.
    pub device: Option<&'a AudioNode>,
}

/// The value of a [`StreamTarget`].
#[verifier::ext_equal]
pub struct TargetView {
    pub following: bool,
    pub tracks_default: bool,
    pub device: Option<NodeView>,
}

impl<'a> View for StreamTarget<'a> {
    type V = TargetView;

    open spec fn view(&self) -> TargetView {
        TargetView {
            following: self.following,
            tracks_default: self.tracks_default,
            device: model::opt_node(self.device),
        }
    }
}

/// The first device of a direction among the given ids.
pub open spec fn first_device(graph: SnapshotView, direction: Direction, ids: Seq<u32>) -> Option<
    NodeView,
>
    decreases ids.len(),
{
    if ids.len() == 0 {
        None
    } else {
        match graph.device_with_id(direction, ids[0]) {
            Some(device) => Some(device),
            None => first_device(graph, direction, ids.drop_first()),
        }
    }
}

impl SnapshotView {
    /// The device that a target names: by its serial, or by its name in a JSON object.
    pub open spec fn named_device(self, direction: Direction, target: Seq<char>) -> Option<
        NodeView,
    > {
        let raw = text::trimmed(target);
        if let Some(serial) = text::parsed_u64(raw) {
            self.device_with_serial(direction, serial)
        } else if let Some(name) = util::name_field(raw) {
            self.device_with_name(direction, name)
        } else {
            None
        }
    }

    /// The device that a stream is pinned to. This is what was asked for, not where audio flows.
    pub open spec fn pinned_device(self, direction: Direction, stream: NodeView) -> Option<
        NodeView,
    > {
        match stream.target {
            Some(target) => self.named_device(direction, target),
            None => None,
        }
    }

    /// The device that a stream is linked to, whatever was asked for: the first of them when there
    /// are several.
    pub open spec fn live_device(self, direction: Direction, stream: NodeView) -> Option<NodeView> {
        if self.peers.contains_key(stream.id) {
            first_device(self, direction, self.peers[stream.id])
        } else {
            None
        }
    }
}

/// The serial of an optional device.
pub open spec fn serial_of(device: Option<NodeView>) -> Option<u64> {
    match device {
        Some(device) => Some(device.serial),
        None => None,
    }
}

/// One device, or the other when there is none.
pub open spec fn or_else(a: Option<NodeView>, b: Option<NodeView>) -> Option<NodeView> {
    match a {
        Some(_) => a,
        None => b,
    }
}

/// Whether a stream has a pin: a target that is not blank. The pin may name a device that is not
/// there.
pub open spec fn is_pinned(stream: NodeView) -> bool {
    stream.target matches Some(target) && text::trimmed(target).len() > 0
}

/// Whether the server has confirmed the user's pick for a stream: that of a device once the stream
/// is pinned to it, and that of the default, `None`, once the stream has no pin. The live link does
/// not count, since a stream without a pin is linked to some device too.
pub open spec fn confirms(
    graph: SnapshotView,
    direction: Direction,
    stream: NodeView,
    pick: Option<u64>,
) -> bool {
    match pick {
        Some(serial) => serial_of(graph.pinned_device(direction, stream)) == Some(serial),
        None => !is_pinned(stream),
    }
}

/// The user's pick for a stream as far as the server has not confirmed it: `Some(None)` stands for
/// the pick of the default.
pub open spec fn unconfirmed(
    graph: SnapshotView,
    direction: Direction,
    stream: NodeView,
    picks: Map<u32, Option<u64>>,
) -> Option<Option<u64>> {
    if picks.contains_key(stream.id) && !confirms(graph, direction, stream, picks[stream.id]) {
        Some(picks[stream.id])
    } else {
        None
    }
}

/// Where a stream is routed. Its row names the device it is linked to, and as long as there is no
/// link the one it is pinned to, or else the default device. An unconfirmed pick goes before the
/// pin, and that of a device before the link too.
pub open spec fn target_of(
    graph: SnapshotView,
    stream: NodeView,
    picks: Map<u32, Option<u64>>,
) -> TargetView {
    match stream.class {
        ClassView::Stream { direction } => {
            let pinned = graph.pinned_device(direction, stream);
            let live = graph.live_device(direction, stream);
            let default = graph.default_device(direction);
            let pick = unconfirmed(graph, direction, stream, picks);
            let following = match pick {
                Some(pick) => pick is None,
                None => !is_pinned(stream),
            };
            let device = match pick {
                Some(Some(serial)) => graph.device_with_serial(direction, serial),
                Some(None) => or_else(live, default),
                None => or_else(live, or_else(pinned, default)),
            };
            TargetView {
                following,
                tracks_default: following && match (device, default) {
                    (Some(device), Some(default)) => device.id == default.id,
                    _ => false,
                },
                device,
            }
        },
        _ => TargetView { following: false, tracks_default: false, device: None },
    }
}

/// The picks that are left once those that the server has confirmed for a stream are dropped.
pub open spec fn settled_picks(
    graph: SnapshotView,
    stream: NodeView,
    picks: Map<u32, Option<u64>>,
) -> Map<u32, Option<u64>> {
    match stream.class {
        ClassView::Stream { direction } => if picks.contains_key(stream.id)
            && unconfirmed(graph, direction, stream, picks) is None {
            picks.remove(stream.id)
        } else {
            picks
        },
        _ => picks,
    }
}

/// What a stream's row says of its target. A stream that tracks the default says so.
pub open spec fn label_of(target: TargetView) -> Seq<char> {
    match target.device {
        Some(device) => if target.tracks_default {
            "default → "@ + device.description
        } else {
            device.description
        },
        None => "Default"@,
    }
}

/// Says where a stream is routed.
pub fn format_target_label(resolved: &StreamTarget<'_>) -> (r: String)
    ensures
        r@ == label_of(resolved@),
{
    match resolved.device {
        Some(device) => if resolved.tracks_default {
            text::join2("default → ", device.description.as_str())
        } else {
            device.description.as_str().to_owned()
        },
        None => "Default".to_owned(),
    }
}

impl AudioSnapshot {
    fn named_device(&self, direction: Direction, target: &str) -> (r: Option<&AudioNode>)
        ensures
            model::opt_node(r) == self@.named_device(direction, target@),
    {
        let raw = text::trim(target);
        if let Some(serial) = text::parse_u64(raw) {
            self.device_with_serial(direction, serial)
        } else if let Some(name) = util::parse_name_json(raw) {
            self.device_with_name(direction, name)
        } else {
            None
        }
    }

    fn first_device(&self, direction: Direction, ids: &Vec<u32>) -> (r: Option<&AudioNode>)
        ensures
            model::opt_node(r) == first_device(self@, direction, ids@),
    {
        let mut i: usize = 0;
        assert(ids@.skip(0) =~= ids@);
        while i < ids.len()
            invariant
                i <= ids@.len(),
                first_device(self@, direction, ids@) == first_device(
                    self@,
                    direction,
                    ids@.skip(i as int),
                ),
            decreases ids@.len() - i,
        {
            assert(ids@.skip(i as int).drop_first() =~= ids@.skip(i + 1));
            if let Some(device) = self.device_with_id(direction, ids[i]) {
                return Some(device);
            }
            i += 1;
        }
        None
    }
}

/// Finds where a stream is routed, and drops the user's pick for it once the server has confirmed
/// it.
pub fn resolve_target<'a>(
    snapshot: &'a AudioSnapshot,
    node: &AudioNode,
    picks: &mut HashMap<u32, Option<u64>>,
) -> (r: StreamTarget<'a>)
    ensures
        r@ == target_of(snapshot@, node@, old(picks)@),
        final(picks)@ == settled_picks(snapshot@, node@, old(picks)@),
{
    let direction = match &node.class {
        AudioClass::Stream { direction } => *direction,
        _ => return StreamTarget { following: false, tracks_default: false, device: None },
    };
    let pinned = match &node.target {
        Some(target) => snapshot.named_device(direction, target.as_str()),
        None => None,
    };
    let live = match snapshot.peers.get(&node.id) {
        Some(ids) => snapshot.first_device(direction, ids),
        None => None,
    };
    let default = snapshot.default_device(direction);
    let has_pin = match &node.target {
        Some(target) => text::trim(target.as_str()).unicode_len() > 0,
        None => false,
    };
    let mut pick: Option<Option<u64>> = match picks.get(&node.id) {
        Some(pick) => Some(*pick),
        None => None,
    };
    if let Some(picked) = pick {
        let confirmed = match (picked, pinned) {
            (Some(serial), Some(device)) => device.serial == serial,
            (Some(_), None) => false,
            (None, _) => !has_pin,
        };
        if confirmed {
            picks.remove(&node.id);
            pick = None;
        }
    }
    let (following, device) = match pick {
        Some(Some(serial)) => (false, snapshot.device_with_serial(direction, serial)),
        Some(None) => (true, first_of(live, default)),
        None => (!has_pin, first_of(live, first_of(pinned, default))),
    };
    let on_default = match (device, default) {
        (Some(device), Some(default)) => device.id == default.id,
        _ => false,
    };
    StreamTarget { following, tracks_default: following && on_default, device }
}

fn first_of<'a>(a: Option<&'a AudioNode>, b: Option<&'a AudioNode>) -> (r: Option<&'a AudioNode>)
    ensures
        model::opt_node(r) == or_else(model::opt_node(a), model::opt_node(b)),
{
    match a {
        Some(node) => Some(node),
        None => b,
    }
}

/// A stream that is not following the session never claims to move with the default device, even
/// when it is pinned to that device; and one that does claim so is on the default device.
pub proof fn lemma_tracks_default(
    graph: SnapshotView,
    stream: NodeView,
    picks: Map<u32, Option<u64>>,
)
    ensures
        ({
            let target = target_of(graph, stream, picks);
            target.tracks_default ==> {
                &&& target.following
                &&& stream.class matches ClassView::Stream { direction }
                &&& target.device matches Some(device)
                &&& graph.default_device(direction) matches Some(default)
                &&& device.id == default.id
            }
        }),
{
}

/// Once no pick waits for the server, a stream is following exactly when it has no pin, whether or
/// not the device that the pin names is there; so a pinned stream is never said to move with the
/// default device.
pub proof fn lemma_following_means_no_pin(
    graph: SnapshotView,
    stream: NodeView,
    direction: Direction,
    picks: Map<u32, Option<u64>>,
)
    requires
        stream.is_stream(direction),
        unconfirmed(graph, direction, stream, picks) is None,
    ensures
        target_of(graph, stream, picks).following <==> !is_pinned(stream),
        is_pinned(stream) ==> !target_of(graph, stream, picks).tracks_default,
        stream.target is None ==> target_of(graph, stream, picks).following,
{
}

/// A stream that is pinned to a device has a pin.
pub proof fn lemma_pinned_device_means_pin(
    graph: SnapshotView,
    direction: Direction,
    stream: NodeView,
)
    requires
        graph.pinned_device(direction, stream) is Some,
    ensures
        is_pinned(stream),
{
    let raw = text::trimmed(stream.target->0);
    text::lemma_parsed_digits(raw, u64::MAX as int);
    if raw.len() == 0 {
        assert(text::trimmed(raw) =~= raw);
    }
}

/// The pick of the default waits for the server as long as the stream has a pin, even one that
/// names no device, and is confirmed once the pin is gone.
pub proof fn lemma_default_pick_waits_for_pin(
    graph: SnapshotView,
    stream: NodeView,
    direction: Direction,
    picks: Map<u32, Option<u64>>,
)
    requires
        stream.is_stream(direction),
        picks.contains_key(stream.id),
        picks[stream.id] is None,
    ensures
        target_of(graph, stream, picks).following,
        is_pinned(stream) ==> settled_picks(graph, stream, picks) == picks,
        !is_pinned(stream) ==> !settled_picks(graph, stream, picks).contains_key(stream.id),
{
}

/// A stream is only ever shown on a device of its own direction.
pub proof fn lemma_direction_is_kept(
    graph: SnapshotView,
    stream: NodeView,
    picks: Map<u32, Option<u64>>,
)
    ensures
        target_of(graph, stream, picks).device matches Some(device) ==> stream.class matches ClassView::Stream {
            direction,
        } && device.is_device(direction),
{
    if let ClassView::Stream { direction } = stream.class {
        let pinned = graph.pinned_device(direction, stream);
        let default = graph.default_device(direction);
        if let Some(target) = stream.target {
            let raw = text::trimmed(target);
            if let Some(serial) = text::parsed_u64(raw) {
                lemma_found_devices(graph, direction, 0, serial, Seq::empty());
            } else if let Some(name) = util::name_field(raw) {
                lemma_found_devices(graph, direction, 0, 0, name);
            }
        }
        if let Some(name) = graph.default_name(direction) {
            lemma_found_devices(graph, direction, 0, 0, name);
        }
        if graph.peers.contains_key(stream.id) {
            lemma_first_device(graph, direction, graph.peers[stream.id]);
        }
        if let Some(Some(serial)) = unconfirmed(graph, direction, stream, picks) {
            lemma_found_devices(graph, direction, 0, serial, Seq::empty());
        }
        assert(pinned matches Some(device) ==> device.is_device(direction));
        assert(default matches Some(device) ==> device.is_device(direction));
    }
}

proof fn lemma_found_devices(
    graph: SnapshotView,
    direction: Direction,
    id: u32,
    serial: u64,
    name: Seq<char>,
)
    ensures
        graph.device_with_id(direction, id) matches Some(device) ==> device.is_device(direction)
            && device.id == id,
        graph.device_with_serial(direction, serial) matches Some(device) ==> device.is_device(
            direction,
        ) && device.serial == serial,
        graph.device_with_name(direction, name) matches Some(device) ==> device.is_device(direction)
            && device.name == name,
{
    model::lemma_first_where(
        graph.nodes,
        |n: NodeView| n.id == id && n.is_device(direction),
    );
    model::lemma_first_where(
        graph.nodes,
        |n: NodeView| n.serial == serial && n.is_device(direction),
    );
    model::lemma_first_where(
        graph.nodes,
        |n: NodeView| n.name == name && n.is_device(direction),
    );
}

proof fn lemma_first_device(graph: SnapshotView, direction: Direction, ids: Seq<u32>)
    ensures
        first_device(graph, direction, ids) matches Some(device) ==> device.is_device(direction)
            && ids.contains(device.id),
    decreases ids.len(),
{
    if ids.len() > 0 {
        lemma_found_devices(graph, direction, ids[0], 0, Seq::empty());
        lemma_first_device(graph, direction, ids.drop_first());
        if graph.device_with_id(direction, ids[0]) is None {
            if let Some(device) = first_device(graph, direction, ids.drop_first()) {
                let rest = ids.drop_first();
                let i = choose|i: int| 0 <= i < rest.len() && rest[i] == device.id;
                assert(ids[i + 1] == device.id);
            }
        }
    }
}

/// A live link goes before the pin and before the default device.
pub proof fn lemma_live_link_goes_first(
    graph: SnapshotView,
    stream: NodeView,
    direction: Direction,
    picks: Map<u32, Option<u64>>,
)
    requires
        stream.is_stream(direction),
        graph.live_device(direction, stream) is Some,
        !(unconfirmed(graph, direction, stream, picks) matches Some(Some(_))),
    ensures
        target_of(graph, stream, picks).device == graph.live_device(direction, stream),
{
}

/// The device that the user picked is shown at once, whatever the stream is linked or pinned to.
pub proof fn lemma_picked_device_is_shown(
    graph: SnapshotView,
    stream: NodeView,
    direction: Direction,
    picks: Map<u32, Option<u64>>,
    serial: u64,
)
    requires
        stream.is_stream(direction),
        picks.contains_key(stream.id),
        picks[stream.id] == Some(serial),
        serial_of(graph.pinned_device(direction, stream)) != Some(serial),
    ensures
        target_of(graph, stream, picks).device == graph.device_with_serial(direction, serial),
        !target_of(graph, stream, picks).following,
        settled_picks(graph, stream, picks) == picks,
{
}

/// Which links a stream has is no reason to keep or to drop a pick.
pub proof fn lemma_links_confirm_nothing(
    graph: SnapshotView,
    stream: NodeView,
    picks: Map<u32, Option<u64>>,
    peers: Map<u32, Seq<u32>>,
)
    ensures
        settled_picks(SnapshotView { peers, ..graph }, stream, picks) == settled_picks(
            graph,
            stream,
            picks,
        ),
{
    let other = SnapshotView { peers, ..graph };
    assert(other.nodes == graph.nodes);
    if let ClassView::Stream { direction } = stream.class {
        assert(other.pinned_device(direction, stream) == graph.pinned_device(direction, stream));
    }
}

/// A pick is dropped once the pin that the server reports agrees with it, and so later changes made
/// elsewhere show; the picks of other streams stay.
pub proof fn lemma_confirmed_pick_is_dropped(
    graph: SnapshotView,
    stream: NodeView,
    direction: Direction,
    picks: Map<u32, Option<u64>>,
    other: u32,
)
    requires
        stream.is_stream(direction),
    ensures
        picks.contains_key(stream.id) && confirms(graph, direction, stream, picks[stream.id])
            ==> !settled_picks(graph, stream, picks).contains_key(stream.id),
        other != stream.id ==> settled_picks(graph, stream, picks).contains_key(other)
            == picks.contains_key(other) && (picks.contains_key(other) ==> settled_picks(
            graph,
            stream,
            picks,
        )[other] == picks[other]),
        target_of(graph, stream, settled_picks(graph, stream, picks)) == target_of(
            graph,
            stream,
            picks,
        ),
{
}

/// The pin to a known device, as the panel has it written, confirms the pick of that device.
pub proof fn lemma_written_pin_confirms_pick(
    graph: SnapshotView,
    stream: NodeView,
    direction: Direction,
    picks: Map<u32, Option<u64>>,
    serial: u64,
)
    requires
        stream.is_stream(direction),
        stream.target == Some(text::decimal(serial as nat)),
        graph.device_with_serial(direction, serial) is Some,
        picks.contains_key(stream.id),
        picks[stream.id] == Some(serial),
    ensures
        !settled_picks(graph, stream, picks).contains_key(stream.id),
        !target_of(graph, stream, picks).following,
{
    let written = text::decimal(serial as nat);
    text::lemma_parsed_decimal(serial as nat, u64::MAX as int);
    text::lemma_decimal_is_trimmed(serial as nat);
    lemma_found_devices(graph, direction, 0, serial, Seq::empty());
    assert(graph.pinned_device(direction, stream) == graph.device_with_serial(direction, serial));
}

} // verus!
