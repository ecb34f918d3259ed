//! Which ports the meters link.

use vstd::prelude::*;

use crate::backend::globals;
use crate::backend::globals::{GlobalKind, GlobalView};
use crate::levels::linker;
use crate::levels::linker::LinkerView;
use crate::text;

verus! {

/// A link is asked for between the ports and the nodes that it is to join, and goes when the meter
/// goes; the server's announcement of it is read back as a link between those nodes.
pub proof fn lemma_links_are_asked_for(
    output_node: u32,
    output_port: u32,
    input_node: u32,
    input_port: u32,
    global: GlobalView,
)
    requires
        global.kind == GlobalKind::Link,
        global.props == Some(
            linker::link_props(output_node, output_port, input_node, input_port),
        ),
    ensures
        ({
            let props = linker::link_props(output_node, output_port, input_node, input_port);
            &&& props.contains(("link.output.port"@, text::decimal(output_port as nat)))
            &&& props.contains(("link.input.port"@, text::decimal(input_port as nat)))
            &&& props.contains(("object.linger"@, "false"@))
            &&& globals::announced_link(global) == Some((output_node, input_node))
        }),
{
    let props = linker::link_props(output_node, output_port, input_node, input_port);
    assert(props[0] == ("link.output.node"@, text::decimal(output_node as nat)));
    assert(props[1] == ("link.output.port"@, text::decimal(output_port as nat)));
    assert(props[2] == ("link.input.node"@, text::decimal(input_node as nat)));
    assert(props[3] == ("link.input.port"@, text::decimal(input_port as nat)));
    assert(props[4] == ("object.linger"@, "false"@));
    reveal_strlit("link.output.node");
    reveal_strlit("link.output.port");
    reveal_strlit("link.input.node");
    assert("link.output.node"@[5] == 'o');
    assert("link.output.port"@[5] == 'o');
    assert("link.input.node"@[5] == 'i');
    globals::lemma_prop_value_at(props, "link.output.node"@, 0);
    globals::lemma_prop_value_at(props, "link.input.node"@, 2);
    text::lemma_parsed_decimal(output_node as nat, u32::MAX as int);
    text::lemma_parsed_decimal(input_node as nat, u32::MAX as int);
}

/// The announcement of a port adds it, behind the others, to the node that it names, and to no
/// other: as an output when its direction is `out`, and as an input otherwise.
pub proof fn lemma_ports_are_noted(
    state: LinkerView,
    global: GlobalView,
    props: Seq<(Seq<char>, Seq<char>)>,
    our_name: Seq<char>,
    node_id: u32,
    other: u32,
)
    requires
        global.kind == GlobalKind::Port,
        global.props == Some(props),
        globals::prop_value(props, "node.id"@) == Some(text::decimal(node_id as nat)),
        other != node_id,
    ensures
        ({
            let next = state.after_global(global, our_name);
            let is_output = globals::prop_value(props, "port.direction"@) == Some("out"@);
            &&& next.ports_of(node_id) == state.ports_of(node_id).push((global.id, is_output))
            &&& next.ports_of(other) == state.ports_of(other)
            &&& next.our_node_id == state.our_node_id
            &&& next.links == state.links
        }),
{
    text::lemma_parsed_decimal(node_id as nat, u32::MAX as int);
}

/// The capture is recognised by its name; the announcement of a node with another name, or of
/// anything that is neither a node nor a port, changes nothing.
pub proof fn lemma_capture_is_recognised(
    state: LinkerView,
    global: GlobalView,
    props: Seq<(Seq<char>, Seq<char>)>,
    our_name: Seq<char>,
)
    requires
        global.props == Some(props),
    ensures
        ({
            let next = state.after_global(global, our_name);
            let is_ours = globals::prop_value(props, "node.name"@) == Some(our_name);
            &&& global.kind == GlobalKind::Node && is_ours ==> {
                &&& next.our_node_id == Some(global.id)
                &&& next.ports_by_node == state.ports_by_node
                &&& next.links == state.links
            }
            &&& global.kind == GlobalKind::Node && !is_ours ==> next == state
            &&& global.kind != GlobalKind::Node && global.kind != GlobalKind::Port ==> next == state
        }),
{
}

/// An announcement without properties changes nothing.
pub proof fn lemma_bare_announcements_are_ignored(
    state: LinkerView,
    global: GlobalView,
    our_name: Seq<char>,
)
    requires
        global.props is None,
    ensures
        state.after_global(global, our_name) == state,
{
}

/// How many of the first `n` ports have a direction.
pub open spec fn count_of(ports: Seq<(u32, bool)>, output: bool, n: int) -> int
    decreases n,
{
    if n <= 0 {
        0
    } else if ports[n - 1].1 == output {
        count_of(ports, output, n - 1) + 1
    } else {
        count_of(ports, output, n - 1)
    }
}

/// A port of a direction stands among those of its direction behind as many as were announced
/// before it.
pub proof fn lemma_ports_keep_their_order(ports: Seq<(u32, bool)>, output: bool, k: int)
    ensures
        linker::port_ids(ports, output).len() == count_of(ports, output, ports.len() as int),
        0 <= k < ports.len() && ports[k].1 == output ==> {
            let at = count_of(ports, output, k);
            0 <= at < linker::port_ids(ports, output).len() && linker::port_ids(ports, output)[at]
                == ports[k].0
        },
    decreases ports.len(),
{
    reveal(Seq::filter);
    if ports.len() > 0 {
        let front = ports.drop_last();
        let n = front.len() as int;
        lemma_ports_keep_their_order(front, output, k);
        lemma_count_of_front(ports, output, n);
        if 0 <= k < n {
            lemma_count_of_front(ports, output, k);
        }
        let kept = front.filter(linker::of_direction(output));
        if ports.last().1 == output {
            assert(ports.filter(linker::of_direction(output)) =~= kept.push(ports.last()));
        } else {
            assert(ports.filter(linker::of_direction(output)) =~= kept);
        }
    }
}

proof fn lemma_count_of_front(ports: Seq<(u32, bool)>, output: bool, n: int)
    requires
        0 <= n < ports.len(),
    ensures
        count_of(ports.drop_last(), output, n) == count_of(ports, output, n),
    decreases n,
{
    if n > 0 {
        lemma_count_of_front(ports, output, n - 1);
    }
}

/// The first output of the metered node is linked to the first input of the capture, the second to
/// the second, and so on, until one of them has no more. Before the capture is recognised nothing
/// is linked.
pub proof fn lemma_ports_are_paired(state: LinkerView, source: u32, i: int)
    ensures
        state.our_node_id is None ==> state.pairs(source).len() == 0,
        state.our_node_id matches Some(ours) ==> {
            let outputs = linker::port_ids(state.ports_of(source), true);
            let inputs = linker::port_ids(state.ports_of(ours), false);
            let pairs = state.pairs(source);
            &&& pairs.len() <= outputs.len() && pairs.len() <= inputs.len()
            &&& pairs.len() == outputs.len() || pairs.len() == inputs.len()
            &&& 0 <= i < pairs.len() ==> pairs[i].0 == outputs[i] && pairs[i].1 == inputs[i]
        },
{
}

/// An object that goes away takes its own ports and links with it, and no others.
pub proof fn lemma_others_stay_linked(
    state: LinkerView,
    id: u32,
    node_id: u32,
    port: (u32, bool),
    link: (u32, u32),
)
    ensures
        ({
            let next = state.after_remove(id);
            &&& port.0 != id ==> next.ports_of(node_id).contains(port) == state.ports_of(
                node_id,
            ).contains(port)
            &&& link.0 != id && link.1 != id ==> next.links.contains(link) == state.links.contains(
                link,
            )
            &&& state.our_node_id != Some(id) ==> next.our_node_id == state.our_node_id
        }),
{
    if state.ports_by_node.contains_key(node_id) {
        crate::model_laws::lemma_filter_contains(
            state.ports_by_node[node_id],
            linker::other_than(id),
            port,
        );
    }
}

/// An announcement that can complete a pair is followed by linking: what the others say of ports
/// leaves the pairs as they are.
pub proof fn lemma_new_pairs_are_linked(
    state: LinkerView,
    global: GlobalView,
    our_name: Seq<char>,
    source: u32,
)
    ensures
        state.after_global(global, our_name).pairs(source) != state.pairs(source)
            ==> linker::prompts_linking(global),
        global.kind == GlobalKind::Link || global.kind == GlobalKind::Device || global.kind
            == GlobalKind::Metadata || global.props is None ==> !linker::prompts_linking(global),
{
}

/// As long as a pair is not linked, there is a next one to attempt, and only one; it is not behind
/// the pair.
pub proof fn lemma_missing_links_are_attempted(
    pairs: Seq<(u32, u32)>,
    links: Set<(u32, u32)>,
    from: int,
    k: int,
)
    requires
        0 <= from <= k < pairs.len(),
        !links.contains(pairs[k]),
    ensures
        exists|i: int|
            {
                &&& #[trigger] linker::is_next(pairs, links, from, i)
                &&& from <= i <= k
                &&& !links.contains(pairs[i])
                &&& forall|j: int| #[trigger] linker::is_next(pairs, links, from, j) ==> j == i
            },
    decreases k,
{
    if forall|j: int| from <= j < k ==> links.contains(#[trigger] pairs[j]) {
        assert(linker::is_next(pairs, links, from, k));
        assert forall|j: int| #[trigger] linker::is_next(pairs, links, from, j) implies j == k by {
            if j < k {
                assert(links.contains(pairs[j]));
            }
        }
    } else {
        let j = choose|j: int| from <= j < k && !links.contains(#[trigger] pairs[j]);
        lemma_missing_links_are_attempted(pairs, links, from, j);
    }
}

} // verus!
