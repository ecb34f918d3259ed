//! The probes: the settings of the level probe, and what the graph probe says of a node.

use vstd::prelude::*;

use crate::model;
use crate::model::{AudioSnapshot, SnapshotView};
use crate::text;

verus! {

/// After how many buffers the level probe stops, unless it is told otherwise.
pub const DEFAULT_BUFFERS: u32 = 60;

/// The settings of the level probe.
#[derive(Debug, Clone, Copy, PartialEq, Eq, Structural)]
pub struct ProbeSettings {
    /// The node to capture; without one, the session manager picks it.
    pub target: Option<u32>,
    /// After how many buffers to stop.
    pub buffers: u32,
    /// Whether to capture what a sink plays, rather than a source.
    pub capture_sink: bool,
}

/// The number that an optional text stands for.
pub open spec fn number_in(s: Option<Seq<char>>) -> Option<u32> {
    match s {
        Some(s) => text::parsed_u32(s),
        None => None,
    }
}

/// The settings that an argument and two variables ask for. What is no number counts as not given,
/// and anything but `0` and `false` counts as yes.
pub open spec fn settings_of(
    target: Option<Seq<char>>,
    buffers: Option<Seq<char>>,
    capture_sink: Option<Seq<char>>,
) -> ProbeSettings {
    ProbeSettings {
        target: number_in(target),
        buffers: match number_in(buffers) {
            Some(n) => n,
            None => DEFAULT_BUFFERS,
        },
        capture_sink: match capture_sink {
            Some(value) => value != "0"@ && value != "false"@,
            None => true,
        },
    }
}

/// Reads the settings that an argument and two variables ask for.
pub fn probe_settings(target: Option<&str>, buffers: Option<&str>, capture_sink: Option<&str>) -> (r:
    ProbeSettings)
    ensures
        r == settings_of(
            text::opt_str(target),
            text::opt_str(buffers),
            text::opt_str(capture_sink),
        ),
{
    let target: Option<u32> = match target {
        Some(s) => text::parse_u32(s),
        None => None,
    };
    let limit: Option<u32> = match buffers {
        Some(s) => text::parse_u32(s),
        None => None,
    };
    let buffers: u32 = match limit {
        Some(n) => n,
        None => DEFAULT_BUFFERS,
    };
    let capture_sink = match capture_sink {
        Some(s) => !text::text_eq(s, "0") && !text::text_eq(s, "false"),
        None => true,
    };
    ProbeSettings { target, buffers, capture_sink }
}

/// Notes one more buffer, and says whether the probe is done.
pub fn count_buffer(seen: &mut u32, limit: u32) -> (r: bool)
    requires
        *old(seen) < u32::MAX,
    ensures
        *final(seen) == *old(seen) + 1,
        r == (*final(seen) >= limit),
{
    *seen = *seen + 1;
    *seen >= limit
}

/// What the graph probe calls a peer. A peer that is not in the graph gets a question mark.
pub open spec fn peer_text(graph: SnapshotView, id: u32) -> Seq<char> {
    if model::node_position(graph.nodes, id) is Some {
        "#"@ + text::decimal(id as nat)
    } else {
        "#"@ + text::decimal(id as nat) + "?"@
    }
}

/// The peers of a list, separated by commas.
pub open spec fn peer_list(graph: SnapshotView, ids: Seq<u32>) -> Seq<char>
    decreases ids.len(),
{
    if ids.len() == 0 {
        Seq::empty()
    } else if ids.len() == 1 {
        peer_text(graph, ids[0])
    } else {
        peer_list(graph, ids.drop_last()) + ", "@ + peer_text(graph, ids.last())
    }
}

/// What the graph probe says of the peers of a node: nothing when it has none.
pub open spec fn peers_text(graph: SnapshotView, id: u32) -> Seq<char> {
    if graph.peers.contains_key(id) {
        " peers=["@ + peer_list(graph, graph.peers[id]) + "]"@
    } else {
        Seq::empty()
    }
}

fn peer_label(snapshot: &AudioSnapshot, id: u32) -> (r: String)
    ensures
        r@ == peer_text(snapshot@, id),
{
    let number = text::to_decimal(id as u64);
    if snapshot.index_of(id).is_some() {
        text::join2("#", number.as_str())
    } else {
        text::join3("#", number.as_str(), "?")
    }
}

fn peer_labels(snapshot: &AudioSnapshot, ids: &Vec<u32>) -> (r: String)
    ensures
        r@ == peer_list(snapshot@, ids@),
{
    if ids.len() == 0 {
        let r = "".to_owned();
        proof {
            reveal_strlit("");
            assert(r@ =~= Seq::empty());
        }
        return r;
    }
    let mut r = peer_label(snapshot, ids[0]);
    let mut i: usize = 1;
    assert(ids@.take(1)[0] == ids@[0]);
    while i < ids.len()
        invariant
            1 <= i <= ids@.len(),
            r@ == peer_list(snapshot@, ids@.take(i as int)),
        decreases ids@.len() - i,
    {
        let label = peer_label(snapshot, ids[i]);
        assert(ids@.take(i + 1).drop_last() =~= ids@.take(i as int));
        r = text::join3(r.as_str(), ", ", label.as_str());
        i += 1;
    }
    assert(ids@.take(i as int) =~= ids@);
    r
}

/// Says what the peers of a node are.
pub fn peer_summary(snapshot: &AudioSnapshot, id: u32) -> (r: String)
    ensures
        r@ == peers_text(snapshot@, id),
{
    broadcast use vstd::std_specs::hash::group_hash_axioms;

    match snapshot.peers.get(&id) {
        Some(ids) => {
            let labels = peer_labels(snapshot, ids);
            text::join3(" peers=[", labels.as_str(), "]")
        },
        None => {
            let r = "".to_owned();
            proof {
                reveal_strlit("");
                assert(r@ =~= Seq::empty());
            }
            r
        },
    }
}

/// A number that is given is taken as it is; without one the probe captures what the session manager
/// picks, and stops after 60 buffers. A sink is captured unless `0` or `false` says otherwise.
pub proof fn lemma_settings(n: u32, raw: Seq<char>, sink: Option<Seq<char>>)
    ensures
        ({
            let number = Some(text::decimal(n as nat));
            let given = settings_of(number, number, sink);
            let bare = settings_of(None, None, sink);
            let wrong = settings_of(Some(raw), Some(raw), sink);
            &&& given.target == Some(n) && given.buffers == n
            &&& bare.target is None && bare.buffers == 60
            &&& text::parsed(raw, u32::MAX as int) is None ==> wrong == bare
            &&& sink is None ==> bare.capture_sink
            &&& sink == Some("0"@) ==> !bare.capture_sink
            &&& sink == Some("false"@) ==> !bare.capture_sink
            &&& sink != Some("0"@) && sink != Some("false"@) ==> bare.capture_sink
            &&& given.capture_sink == bare.capture_sink
        }),
{
    text::lemma_parsed_decimal(n as nat, u32::MAX as int);
}

/// Each peer is listed by its id, with a question mark exactly when the graph does not have it;
/// peers are listed in their order, with commas between them. Of a node without peers nothing is
/// said.
pub proof fn lemma_peers_are_listed(graph: SnapshotView, node: u32, ids: Seq<u32>, id: u32)
    ensures
        (exists|k: int| 0 <= k < graph.nodes.len() && (#[trigger] graph.nodes[k]).id == id)
            ==> peer_list(graph, seq![id]) == "#"@ + text::decimal(id as nat),
        (forall|k: int| 0 <= k < graph.nodes.len() ==> (#[trigger] graph.nodes[k]).id != id)
            ==> peer_list(graph, seq![id]) == "#"@ + text::decimal(id as nat) + "?"@,
        ids.len() > 0 ==> peer_list(graph, ids.push(id)) == peer_list(graph, ids) + ", "@
            + peer_list(graph, seq![id]),
        graph.peers.contains_key(node) && graph.peers[node] == ids ==> peers_text(graph, node)
            == " peers=["@ + peer_list(graph, ids) + "]"@,
        !graph.peers.contains_key(node) ==> peers_text(graph, node).len() == 0,
{
    let keep = |n: model::NodeView| n.id == id;
    model::lemma_first_where(graph.nodes, keep);
    if exists|k: int| 0 <= k < graph.nodes.len() && (#[trigger] graph.nodes[k]).id == id {
        let k = choose|k: int| 0 <= k < graph.nodes.len() && (#[trigger] graph.nodes[k]).id == id;
        assert(keep(graph.nodes[k]));
    }
    assert(ids.push(id).drop_last() =~= ids);
}

} // verus!
