//! The links of a meter: from the output ports of the metered node to the input ports of the
//! meter's own capture.

use std::collections::HashMap;

use vstd::prelude::*;

use crate::backend::globals;
use crate::backend::globals::{Global, GlobalKind, GlobalView};
use crate::text;

verus! {

broadcast use vstd::std_specs::hash::group_hash_axioms;

/// What a meter knows of the ports it links.
#[derive(Debug)]
pub struct LinkerState {
    /// The node of the meter's own capture.
    pub our_node_id: Option<u32>,
    /// All ports seen so far by their node, each with whether it is an output. Every port is kept,
    /// since the ports of the meter's own capture may be announced before its node is.
    pub ports_by_node: HashMap<u32, Vec<(u32, bool)>>,
    /// The links that were made: output port, input port.
    pub links: Vec<(u32, u32)>,
}

/// The value of a [`LinkerState`].
#[verifier::ext_equal]
pub struct LinkerView {
    pub our_node_id: Option<u32>,
    pub ports_by_node: Map<u32, Seq<(u32, bool)>>,
    pub links: Set<(u32, u32)>,
}

/// The values of lists of ports.
pub open spec fn port_views(m: Map<u32, Vec<(u32, bool)>>) -> Map<u32, Seq<(u32, bool)>> {
    m.map_values(|l: Vec<(u32, bool)>| l@)
}

impl View for LinkerState {
    type V = LinkerView;

    open spec fn view(&self) -> LinkerView {
        LinkerView {
            our_node_id: self.our_node_id,
            ports_by_node: port_views(self.ports_by_node@),
            links: self.links@.to_set(),
        }
    }
}

/// The name of the capture node of a node's meter.
pub open spec fn meter_name(node_id: u32) -> Seq<char> {
    "damascene-volume.meter."@ + text::decimal(node_id as nat)
}

/// Names the capture node of a node's meter.
pub fn meter_node_name(node_id: u32) -> (r: String)
    ensures
        r@ == meter_name(node_id),
{
    let number = text::to_decimal(node_id as u64);
    text::join2("damascene-volume.meter.", number.as_str())
}

/// The properties of the link that joins two ports.
pub open spec fn link_props(
    output_node: u32,
    output_port: u32,
    input_node: u32,
    input_port: u32,
) -> Seq<(Seq<char>, Seq<char>)> {
    seq![
        ("link.output.node"@, text::decimal(output_node as nat)),
        ("link.output.port"@, text::decimal(output_port as nat)),
        ("link.input.node"@, text::decimal(input_node as nat)),
        ("link.input.port"@, text::decimal(input_port as nat)),
        ("object.linger"@, "false"@),
    ]
}

/// Builds the properties of the link that joins two ports. The link goes when the meter goes.
pub fn link_properties(
    output_node: u32,
    output_port: u32,
    input_node: u32,
    input_port: u32,
) -> (r: Vec<(String, String)>)
    ensures
        globals::prop_views(r@) == link_props(output_node, output_port, input_node, input_port),
{
    let mut r: Vec<(String, String)> = Vec::new();
    r.push(("link.output.node".to_owned(), text::to_decimal(output_node as u64)));
    r.push(("link.output.port".to_owned(), text::to_decimal(output_port as u64)));
    r.push(("link.input.node".to_owned(), text::to_decimal(input_node as u64)));
    r.push(("link.input.port".to_owned(), text::to_decimal(input_port as u64)));
    r.push(("object.linger".to_owned(), "false".to_owned()));
    assert(globals::prop_views(r@) =~= link_props(
        output_node,
        output_port,
        input_node,
        input_port,
    ));
    r
}

/// The port that an announcement describes: its node, and whether it is an output.
pub open spec fn announced_port(global: GlobalView) -> Option<(u32, bool)> {
    match global.props {
        Some(props) => match globals::number_prop(props, "node.id"@) {
            Some(node_id) => if global.kind == GlobalKind::Port {
                Some((node_id, globals::prop_value(props, "port.direction"@) == Some("out"@)))
            } else {
                None
            },
            None => None,
        },
        None => None,
    }
}

/// Whether an announcement is that of a node with the given name.
pub open spec fn announces_node(global: GlobalView, name: Seq<char>) -> bool {
    &&& global.kind == GlobalKind::Node
    &&& global.props matches Some(props)
    &&& globals::prop_value(props, "node.name"@) == Some(name)
}

/// The ports of one direction.
pub open spec fn of_direction(output: bool) -> spec_fn((u32, bool)) -> bool {
    |p: (u32, bool)| p.1 == output
}

/// The ports that do not have the given id.
pub open spec fn other_than(id: u32) -> spec_fn((u32, bool)) -> bool {
    |p: (u32, bool)| p.0 != id
}

/// The ids of the ports of one direction, in the order in which they were announced.
pub open spec fn port_ids(ports: Seq<(u32, bool)>, output: bool) -> Seq<u32> {
    ports.filter(of_direction(output)).map_values(|p: (u32, bool)| p.0)
}

/// Two lists joined pair by pair, as long as both have an element.
pub open spec fn zipped(a: Seq<u32>, b: Seq<u32>) -> Seq<(u32, u32)> {
    Seq::new(
        if a.len() <= b.len() {
            a.len()
        } else {
            b.len()
        },
        |i: int| (a[i], b[i]),
    )
}

/// Whether the pair at `i` is the next to be linked, from position `from` on: those before it are
/// linked already, and it is not.
pub open spec fn is_next(
    pairs: Seq<(u32, u32)>,
    links: Set<(u32, u32)>,
    from: int,
    i: int,
) -> bool {
    &&& from <= i < pairs.len()
    &&& !links.contains(pairs[i])
    &&& forall|j: int| from <= j < i ==> links.contains(#[trigger] pairs[j])
}

/// The links once the first `n` pairs were gone through, where `made` says of each position whether
/// an attempt to link the pair there succeeds. A pair that is linked by then is not attempted.
pub open spec fn links_after(
    pairs: Seq<(u32, u32)>,
    links: Set<(u32, u32)>,
    made: spec_fn(int) -> bool,
    n: int,
) -> Set<(u32, u32)>
    decreases n,
{
    if n <= 0 {
        links
    } else {
        let before = links_after(pairs, links, made, n - 1);
        if made(n - 1) {
            before.insert(pairs[n - 1])
        } else {
            before
        }
    }
}

/// Whether the pair at `i` is attempted when the pairs are gone through.
pub open spec fn is_attempted(
    pairs: Seq<(u32, u32)>,
    links: Set<(u32, u32)>,
    made: spec_fn(int) -> bool,
    i: int,
) -> bool {
    !links_after(pairs, links, made, i).contains(pairs[i])
}

impl LinkerView {
    /// Nothing was announced.
    pub open spec fn initial() -> LinkerView {
        LinkerView { our_node_id: None, ports_by_node: Map::empty(), links: Set::empty() }
    }

    /// The ports of a node.
    pub open spec fn ports_of(self, node_id: u32) -> Seq<(u32, bool)> {
        if self.ports_by_node.contains_key(node_id) {
            self.ports_by_node[node_id]
        } else {
            Seq::empty()
        }
    }

    /// The state after an announcement, for a capture of the given name.
    pub open spec fn after_global(self, global: GlobalView, our_name: Seq<char>) -> LinkerView {
        if announces_node(global, our_name) {
            LinkerView { our_node_id: Some(global.id), ..self }
        } else if let Some((node_id, is_output)) = announced_port(global) {
            LinkerView {
                ports_by_node: self.ports_by_node.insert(
                    node_id,
                    self.ports_of(node_id).push((global.id, is_output)),
                ),
                ..self
            }
        } else {
            self
        }
    }

    /// The state after an object went away.
    pub open spec fn after_remove(self, id: u32) -> LinkerView {
        LinkerView {
            our_node_id: if self.our_node_id == Some(id) {
                None
            } else {
                self.our_node_id
            },
            ports_by_node: self.ports_by_node.map_values(
                |ports: Seq<(u32, bool)>| ports.filter(other_than(id)),
            ),
            links: self.links.filter(|l: (u32, u32)| l.0 != id && l.1 != id),
        }
    }

    /// The pairs of ports that are to be linked: the outputs of the metered node with the inputs of
    /// the meter's own capture, in the order in which they were announced.
    pub open spec fn pairs(self, source_node_id: u32) -> Seq<(u32, u32)> {
        match self.our_node_id {
            Some(our_node_id) => zipped(
                port_ids(self.ports_of(source_node_id), true),
                port_ids(self.ports_of(our_node_id), false),
            ),
            None => Seq::empty(),
        }
    }
}

/// Whether an announcement can complete a pair.
pub open spec fn prompts_linking(global: GlobalView) -> bool {
    (global.kind == GlobalKind::Node && global.props is Some) || announced_port(global) is Some
}

proof fn lemma_port_ids_step(ports: Seq<(u32, bool)>, output: bool)
    requires
        ports.len() > 0,
    ensures
        port_ids(ports, output) == if ports.last().1 == output {
            port_ids(ports.drop_last(), output).push(ports.last().0)
        } else {
            port_ids(ports.drop_last(), output)
        },
{
    reveal(Seq::filter);
    let keep = of_direction(output);
    let kept = ports.drop_last().filter(keep);
    assert(kept.push(ports.last()).map_values(|p: (u32, bool)| p.0) =~= kept.map_values(
        |p: (u32, bool)| p.0,
    ).push(ports.last().0));
}

/// The ids of the ports of one direction.
fn ids_of(ports: &Vec<(u32, bool)>, output: bool) -> (r: Vec<u32>)
    ensures
        r@ == port_ids(ports@, output),
{
    let mut r: Vec<u32> = Vec::new();
    let mut i: usize = 0;
    proof {
        reveal(Seq::filter);
        assert(ports@.take(0) =~= Seq::empty());
        assert(r@ =~= port_ids(ports@.take(0), output));
    }
    while i < ports.len()
        invariant
            i <= ports@.len(),
            r@ == port_ids(ports@.take(i as int), output),
        decreases ports@.len() - i,
    {
        proof {
            lemma_port_ids_step(ports@.take(i + 1), output);
            assert(ports@.take(i + 1).drop_last() =~= ports@.take(i as int));
        }
        if ports[i].1 == output {
            r.push(ports[i].0);
        }
        i += 1;
    }
    assert(ports@.take(i as int) =~= ports@);
    r
}

/// The ports that do not have the given id.
fn ports_without(ports: &Vec<(u32, bool)>, id: u32) -> (r: Vec<(u32, bool)>)
    ensures
        r@ == ports@.filter(other_than(id)),
{
    let ghost keep = other_than(id);
    let mut r: Vec<(u32, bool)> = Vec::new();
    let mut i: usize = 0;
    proof {
        reveal(Seq::filter);
        assert(ports@.take(0).filter(keep) =~= Seq::empty());
    }
    while i < ports.len()
        invariant
            i <= ports@.len(),
            keep == other_than(id),
            r@ == ports@.take(i as int).filter(keep),
        decreases ports@.len() - i,
    {
        proof {
            reveal(Seq::filter);
            assert(ports@.take(i + 1).drop_last() =~= ports@.take(i as int));
        }
        if ports[i].0 != id {
            r.push(ports[i]);
        }
        i += 1;
    }
    assert(ports@.take(i as int) =~= ports@);
    r
}

impl LinkerState {
    /// Nothing was announced yet.
    pub fn new() -> (r: LinkerState)
        ensures
            r@ == LinkerView::initial(),
    {
        let r = LinkerState {
            our_node_id: None,
            ports_by_node: HashMap::new(),
            links: Vec::new(),
        };
        assert(r@.ports_by_node =~= Map::empty());
        assert(r@.links =~= Set::empty());
        r
    }

    /// Takes in an announcement, for a capture of the given name that meters the given node, and
    /// gives the pairs of ports that are to be gone through now. Those that are linked already are
    /// among them; [`LinkerState::next_attempt`] passes over these.
    pub fn on_global(&mut self, global: &Global, our_name: &str, source_node_id: u32) -> (r: Vec<
        (u32, u32),
    >)
        ensures
            final(self)@ == old(self)@.after_global(global@, our_name@),
            r@ == if prompts_linking(global@) {
                final(self)@.pairs(source_node_id)
            } else {
                Seq::empty()
            },
    {
        let props = match &global.props {
            Some(props) => props,
            None => return Vec::new(),
        };
        match global.kind {
            GlobalKind::Node => {
                if let Some(name) = globals::prop(props, "node.name") {
                    if text::text_eq(name, our_name) {
                        self.our_node_id = Some(global.id);
                    }
                }
            },
            GlobalKind::Port => {
                let node_id = match globals::prop_u32(props, "node.id") {
                    Some(node_id) => node_id,
                    None => return Vec::new(),
                };
                let is_output = match globals::prop(props, "port.direction") {
                    Some(direction) => text::text_eq(direction, "out"),
                    None => false,
                };
                self.add_port(node_id, global.id, is_output);
            },
            _ => return Vec::new(),
        }
        self.pairs(source_node_id)
    }

    /// Takes in a port.
    fn add_port(&mut self, node_id: u32, port_id: u32, is_output: bool)
        ensures
            final(self)@ == (LinkerView {
                ports_by_node: old(self)@.ports_by_node.insert(
                    node_id,
                    old(self)@.ports_of(node_id).push((port_id, is_output)),
                ),
                ..old(self)@
            }),
    {
        let ghost before = self.ports_by_node@;
        let mut ports = match self.ports_by_node.remove(&node_id) {
            Some(ports) => ports,
            None => Vec::new(),
        };
        ports.push((port_id, is_output));
        let ghost now = ports@;
        self.ports_by_node.insert(node_id, ports);
        assert(port_views(self.ports_by_node@) =~= port_views(before).insert(node_id, now));
    }

    /// The ports of a node of one direction.
    fn ids_at(&self, node_id: u32, output: bool) -> (r: Vec<u32>)
        ensures
            r@ == port_ids(self@.ports_of(node_id), output),
    {
        match self.ports_by_node.get(&node_id) {
            Some(ports) => ids_of(ports, output),
            None => {
                let none: Vec<(u32, bool)> = Vec::new();
                ids_of(&none, output)
            },
        }
    }

    /// The pairs of ports that belong together.
    pub fn pairs(&self, source_node_id: u32) -> (r: Vec<(u32, u32)>)
        ensures
            r@ == self@.pairs(source_node_id),
    {
        let mut r: Vec<(u32, u32)> = Vec::new();
        let our_node_id = match self.our_node_id {
            Some(id) => id,
            None => return r,
        };
        let outputs = self.ids_at(source_node_id, true);
        let inputs = self.ids_at(our_node_id, false);
        let ghost all = zipped(outputs@, inputs@);
        let mut i: usize = 0;
        while i < outputs.len() && i < inputs.len()
            invariant
                i <= outputs@.len(),
                i <= inputs@.len(),
                all == zipped(outputs@, inputs@),
                r@ =~= all.take(i as int),
            decreases outputs@.len() - i,
        {
            r.push((outputs[i], inputs[i]));
            i += 1;
        }
        assert(r@ =~= all);
        r
    }

    /// Finds the next pair to be linked, from position `from` on. Whether the attempt succeeded is
    /// to be noted before the next pair is asked for: a pair that is given twice is then linked once,
    /// and attempted again where linking it failed.
    pub fn next_attempt(&self, pairs: &Vec<(u32, u32)>, from: usize) -> (r: Option<usize>)
        ensures
            match r {
                Some(i) => is_next(pairs@, self@.links, from as int, i as int),
                None => forall|j: int|
                    from <= j < pairs@.len() ==> self@.links.contains(#[trigger] pairs@[j]),
            },
    {
        let mut i: usize = from;
        while i < pairs.len()
            invariant
                from <= i,
                forall|j: int| from <= j < i ==> self@.links.contains(#[trigger] pairs@[j]),
            decreases pairs@.len() - i,
        {
            if !self.is_linked(pairs[i]) {
                return Some(i);
            }
            i += 1;
        }
        None
    }

    /// Whether a link between two ports was made.
    pub fn is_linked(&self, pair: (u32, u32)) -> (r: bool)
        ensures
            r == self@.links.contains(pair),
    {
        let mut i: usize = 0;
        while i < self.links.len()
            invariant
                i <= self.links@.len(),
                forall|k: int| 0 <= k < i ==> self.links@[k] != pair,
            decreases self.links@.len() - i,
        {
            if self.links[i].0 == pair.0 && self.links[i].1 == pair.1 {
                assert(self.links@[i as int] == pair);
                return true;
            }
            i += 1;
        }
        false
    }

    /// Notes that a link between two ports was made.
    pub fn on_linked(&mut self, pair: (u32, u32))
        ensures
            final(self)@ == (LinkerView { links: old(self)@.links.insert(pair), ..old(self)@ }),
    {
        let ghost before = self.links@;
        if self.is_linked(pair) {
            assert(self@.links =~= before.to_set().insert(pair));
            return ;
        }
        self.links.push(pair);
        assert forall|l: (u32, u32)| #[trigger]
            self.links@.to_set().contains(l) <==> before.to_set().insert(pair).contains(l) by {
            vstd::seq_lib::lemma_seq_contains_after_push(before, pair, l);
        }
        assert(self@.links =~= before.to_set().insert(pair));
    }

    /// Takes in that an object went away: the meter's own node, a port, or any other.
    pub fn on_global_remove(&mut self, id: u32)
        ensures
            final(self)@ == old(self)@.after_remove(id),
    {
        let ghost before = self@;
        if self.our_node_id == Some(id) {
            self.our_node_id = None;
        }
        self.drop_port(id);
        self.drop_links(id);
        assert(self@.ports_by_node =~= before.after_remove(id).ports_by_node);
        assert(self@.links =~= before.after_remove(id).links);
    }

    /// Drops a port from every node.
    fn drop_port(&mut self, id: u32)
        ensures
            final(self)@ == (LinkerView {
                ports_by_node: old(self)@.ports_by_node.map_values(
                    |ports: Seq<(u32, bool)>| ports.filter(other_than(id)),
                ),
                ..old(self)@
            }),
    {
        let ghost before = self.ports_by_node@;
        let ghost keep = other_than(id);
        let mut kept: HashMap<u32, Vec<(u32, bool)>> = HashMap::new();
        for key in it: self.ports_by_node.keys()
            invariant
                before == self.ports_by_node@,
                keep == other_than(id),
                it.seq().unref().to_set() == before.dom(),
                forall|k: u32| #[trigger]
                    kept@.contains_key(k) <==> it.seq().unref().take(it.index() as int).contains(k),
                forall|k: u32| #[trigger]
                    kept@.contains_key(k) ==> kept@[k]@ == before[k]@.filter(keep),
        {
            let ghost all = it.seq().unref();
            let ghost n = it.index() as int;
            let ghost so_far = kept@;
            proof {
                assert(all[n] == *key);
                assert(all.to_set().contains(*key));
                assert(before.contains_key(*key));
            }
            if let Some(ports) = self.ports_by_node.get(key) {
                let rest = ports_without(ports, id);
                kept.insert(*key, rest);
            }
            proof {
                assert(all.take(n + 1) =~= all.take(n).push(*key));
                assert forall|k: u32| #[trigger]
                    kept@.contains_key(k) <==> all.take(n + 1).contains(k) by {
                    vstd::seq_lib::lemma_seq_contains_after_push(all.take(n), *key, k);
                    assert(so_far.contains_key(k) <==> all.take(n).contains(k));
                }
            }
        }
        proof {
            let all = vstd::std_specs::iter::IteratorSpec::remaining(
                &self.ports_by_node.keys(),
            ).unref();
            assert(all.take(all.len() as int) =~= all);
            assert forall|k: u32| #[trigger]
                kept@.contains_key(k) <==> before.contains_key(k) by {
                assert(all.contains(k) <==> all.to_set().contains(k));
            }
        }
        self.ports_by_node = kept;
        assert(port_views(self.ports_by_node@) =~= port_views(before).map_values(
            |ports: Seq<(u32, bool)>| ports.filter(other_than(id)),
        ));
    }

    /// Drops the links that a port takes part in.
    fn drop_links(&mut self, id: u32)
        ensures
            final(self)@ == (LinkerView {
                links: old(self)@.links.filter(|l: (u32, u32)| l.0 != id && l.1 != id),
                ..old(self)@
            }),
    {
        let mut kept: Vec<(u32, u32)> = Vec::new();
        let ghost all = self.links@;
        let mut i: usize = 0;
        while i < self.links.len()
            invariant
                i <= self.links@.len(),
                all == self.links@,
                forall|l: (u32, u32)| #[trigger]
                    kept@.contains(l) <==> all.take(i as int).contains(l) && l.0 != id && l.1
                        != id,
            decreases self.links@.len() - i,
        {
            let link = self.links[i];
            let ghost before = kept@;
            if link.0 != id && link.1 != id {
                kept.push(link);
            }
            proof {
                assert(all.take(i + 1) =~= all.take(i as int).push(link));
                assert forall|l: (u32, u32)| #[trigger]
                    kept@.contains(l) <==> all.take(i + 1).contains(l) && l.0 != id && l.1 != id by {
                    vstd::seq_lib::lemma_seq_contains_after_push(all.take(i as int), link, l);
                    vstd::seq_lib::lemma_seq_contains_after_push(before, link, l);
                    assert(before.contains(l) <==> all.take(i as int).contains(l) && l.0 != id
                        && l.1 != id);
                }
            }
            i += 1;
        }
        assert(all.take(i as int) =~= all);
        self.links = kept;
        assert(self@.links =~= all.to_set().filter(|l: (u32, u32)| l.0 != id && l.1 != id));
    }
}

impl Default for LinkerState {
    fn default() -> (r: LinkerState)
        ensures
            r@ == LinkerView::initial(),
    {
        LinkerState::new()
    }
}

/// A pair is attempted where it is not linked yet and every attempt at it before has failed; so no
/// pair is linked twice, even when its ports were announced several times.
pub proof fn lemma_pairs_are_linked_once(
    pairs: Seq<(u32, u32)>,
    links: Set<(u32, u32)>,
    made: spec_fn(int) -> bool,
    i: int,
)
    requires
        0 <= i < pairs.len(),
    ensures
        is_attempted(pairs, links, made, i) <==> !links.contains(pairs[i]) && forall|j: int|
            0 <= j < i && #[trigger] pairs[j] == pairs[i] ==> !made(j),
{
    lemma_links_after(pairs, links, made, i, pairs[i]);
}

proof fn lemma_links_after(
    pairs: Seq<(u32, u32)>,
    links: Set<(u32, u32)>,
    made: spec_fn(int) -> bool,
    n: int,
    pair: (u32, u32),
)
    requires
        0 <= n <= pairs.len(),
    ensures
        links_after(pairs, links, made, n).contains(pair) <==> links.contains(pair) || exists|j: int|
            0 <= j < n && #[trigger] pairs[j] == pair && made(j),
    decreases n,
{
    if n > 0 {
        lemma_links_after(pairs, links, made, n - 1, pair);
        if made(n - 1) && pairs[n - 1] == pair {
            assert(links_after(pairs, links, made, n).contains(pair));
        }
    }
}

/// Asking for the next attempt goes through the pairs: the one that is found is attempted, and
/// those before it are passed over, so that the links stay as they are until then.
pub proof fn lemma_next_is_attempted(
    pairs: Seq<(u32, u32)>,
    links: Set<(u32, u32)>,
    made: spec_fn(int) -> bool,
    from: int,
    i: int,
)
    requires
        0 <= from,
        is_next(pairs, links_after(pairs, links, made, from), from, i),
    ensures
        is_attempted(pairs, links, made, i),
        forall|j: int| from <= j < i ==> !#[trigger] is_attempted(pairs, links, made, j),
        links_after(pairs, links, made, i) == links_after(pairs, links, made, from),
{
    let now = links_after(pairs, links, made, from);
    lemma_passed_over(pairs, links, made, from, i);
    assert forall|j: int| from <= j < i implies !#[trigger] is_attempted(pairs, links, made, j) by {
        assert(now.contains(pairs[j]));
        lemma_passed_over(pairs, links, made, from, j);
    }
}

proof fn lemma_passed_over(
    pairs: Seq<(u32, u32)>,
    links: Set<(u32, u32)>,
    made: spec_fn(int) -> bool,
    from: int,
    i: int,
)
    requires
        0 <= from <= i <= pairs.len(),
        forall|j: int|
            from <= j < i ==> links_after(pairs, links, made, from).contains(#[trigger] pairs[j]),
    ensures
        links_after(pairs, links, made, i) == links_after(pairs, links, made, from),
    decreases i,
{
    if from < i {
        lemma_passed_over(pairs, links, made, from, i - 1);
        let now = links_after(pairs, links, made, from);
        assert(now.contains(pairs[i - 1]));
        assert(now.insert(pairs[i - 1]) =~= now);
    }
}

/// Once every attempt has succeeded, nothing is left to be linked.
pub proof fn lemma_linking_is_done_once(state: LinkerView, source_node_id: u32, i: int)
    requires
        0 <= i < state.pairs(source_node_id).len(),
    ensures
        ({
            let pairs = state.pairs(source_node_id);
            let all_made = |j: int| true;
            let links = links_after(pairs, state.links, all_made, pairs.len() as int);
            let next = LinkerView { links, ..state };
            &&& next.pairs(source_node_id) == pairs
            &&& !is_attempted(pairs, links, all_made, i)
            &&& !is_next(pairs, links, 0, i)
        }),
{
    let pairs = state.pairs(source_node_id);
    let all_made = |j: int| true;
    let links = links_after(pairs, state.links, all_made, pairs.len() as int);
    lemma_links_after(pairs, state.links, all_made, pairs.len() as int, pairs[i]);
    assert(all_made(i));
    lemma_links_after(pairs, links, all_made, i, pairs[i]);
}

/// A pair joins an output of the metered node with an input of the meter's own capture.
pub proof fn lemma_pairs_join_ports(state: LinkerView, source_node_id: u32, i: int)
    requires
        0 <= i < state.pairs(source_node_id).len(),
    ensures
        ({
            let (output, input) = state.pairs(source_node_id)[i];
            &&& state.ports_of(source_node_id).contains((output, true))
            &&& state.our_node_id matches Some(id)
            &&& state.ports_of(id).contains((input, false))
        }),
{
    let our = state.our_node_id->0;
    lemma_port_ids_are_ports(state.ports_of(source_node_id), true, i);
    lemma_port_ids_are_ports(state.ports_of(our), false, i);
}

proof fn lemma_port_ids_are_ports(ports: Seq<(u32, bool)>, output: bool, i: int)
    requires
        0 <= i < port_ids(ports, output).len(),
    ensures
        ports.contains((port_ids(ports, output)[i], output)),
{
    broadcast use vstd::seq_lib::group_filter_ensures;

    let keep = of_direction(output);
    let kept = ports.filter(keep);
    assert(kept.contains(kept[i]));
    assert(keep(kept[i]));
    ports.lemma_filter_contains_rev(keep, kept[i]);
}

/// A port that is announced late leaves the pairs that were there before as they are.
pub proof fn lemma_late_port_keeps_pairs(
    state: LinkerView,
    global: GlobalView,
    our_name: Seq<char>,
    source_node_id: u32,
)
    requires
        announced_port(global) is Some,
    ensures
        state.pairs(source_node_id).is_prefix_of(
            state.after_global(global, our_name).pairs(source_node_id),
        ),
{
    let (node_id, is_output) = announced_port(global)->0;
    let next = state.after_global(global, our_name);
    let grown = state.ports_of(node_id).push((global.id, is_output));
    assert(grown.drop_last() =~= state.ports_of(node_id));
    lemma_port_ids_step(grown, true);
    lemma_port_ids_step(grown, false);
    assert(next.ports_of(node_id) == grown);
    assert(state.pairs(source_node_id) =~= next.pairs(source_node_id).take(
        state.pairs(source_node_id).len() as int,
    ));
}

/// The meter's own node and a port may be announced in either order.
pub proof fn lemma_announcement_order_is_free(
    state: LinkerView,
    node: GlobalView,
    port: GlobalView,
    our_name: Seq<char>,
)
    requires
        node.kind == GlobalKind::Node,
        port.kind == GlobalKind::Port,
    ensures
        state.after_global(node, our_name).after_global(port, our_name) == state.after_global(
            port,
            our_name,
        ).after_global(node, our_name),
{
}

/// A port that went away is listed nowhere and has no link.
pub proof fn lemma_removed_port_is_gone(state: LinkerView, id: u32, node_id: u32, other: u32)
    ensures
        ({
            let next = state.after_remove(id);
            &&& next.our_node_id != Some(id)
            &&& !next.ports_of(node_id).contains((id, true))
            &&& !next.ports_of(node_id).contains((id, false))
            &&& !next.links.contains((id, other))
            &&& !next.links.contains((other, id))
        }),
{
    broadcast use vstd::seq_lib::group_filter_ensures;

    let next = state.after_remove(id);
    let keep = other_than(id);
    if state.ports_by_node.contains_key(node_id) {
        let kept = state.ports_by_node[node_id].filter(keep);
        assert(next.ports_of(node_id) == kept);
        assert forall|p: (u32, bool)| kept.contains(p) implies p.0 != id by {
            let k = choose|k: int| 0 <= k < kept.len() && kept[k] == p;
            assert(keep(kept[k]));
        }
    }
}

} // verus!
