//! The link graph: which nodes audio flows between.

use std::collections::HashMap;

use vstd::prelude::*;

use crate::model;

verus! {

broadcast use vstd::std_specs::hash::group_hash_axioms;

spec fn connects(links: Seq<(u32, u32)>, a: u32, b: u32) -> bool {
    links.contains((a, b)) || links.contains((b, a))
}

/// Whether a link connects `a` and `b`, in either direction.
pub open spec fn linked(links: Map<u32, (u32, u32)>, a: u32, b: u32) -> bool {
    links.values().contains((a, b)) || links.values().contains((b, a))
}

/// Whether `b` is listed as a peer of `a`.
pub open spec fn listed(peers: Map<u32, Seq<u32>>, a: u32, b: u32) -> bool {
    peers.contains_key(a) && peers[a].contains(b)
}

/// Whether an adjacency table shows a set of links: two nodes are each other's peers when and
/// only when a link connects them, each peer is listed once, and a node without a peer is not
/// listed. The order of a node's peers is left open.
pub open spec fn shows(peers: Map<u32, Seq<u32>>, links: Map<u32, (u32, u32)>) -> bool {
    &&& forall|a: u32, b: u32| #[trigger] listed(peers, a, b) <==> linked(links, a, b)
    &&& forall|a: u32| #[trigger]
        peers.contains_key(a) ==> peers[a].no_duplicates() && peers[a].len() > 0
}

spec fn shows_seq(peers: Map<u32, Seq<u32>>, links: Seq<(u32, u32)>) -> bool {
    &&& forall|a: u32, b: u32| #[trigger] listed(peers, a, b) <==> connects(links, a, b)
    &&& forall|a: u32| #[trigger]
        peers.contains_key(a) ==> peers[a].no_duplicates() && peers[a].len() > 0
}

fn holds(list: &Vec<u32>, id: u32) -> (r: bool)
    ensures
        r == list@.contains(id),
{
    let mut i: usize = 0;
    while i < list.len()
        invariant
            i <= list@.len(),
            forall|k: int| 0 <= k < i ==> list@[k] != id,
        decreases list@.len() - i,
    {
        if list[i] == id {
            return true;
        }
        i += 1;
    }
    false
}

/// Lists `b` as a peer of `a`.
fn add_peer(peers: &mut HashMap<u32, Vec<u32>>, a: u32, b: u32)
    requires
        forall|k: u32| #[trigger]
            model::peer_views(old(peers)@).contains_key(k) ==> model::peer_views(
                old(peers)@,
            )[k].no_duplicates() && model::peer_views(old(peers)@)[k].len() > 0,
    ensures
        forall|x: u32, y: u32| #[trigger]
            listed(model::peer_views(final(peers)@), x, y) <==> listed(
                model::peer_views(old(peers)@),
                x,
                y,
            ) || (x == a && y == b),
        forall|k: u32| #[trigger]
            model::peer_views(final(peers)@).contains_key(k) ==> model::peer_views(
                final(peers)@,
            )[k].no_duplicates() && model::peer_views(final(peers)@)[k].len() > 0,
{
    let ghost before = model::peer_views(peers@);
    let mut list = match peers.remove(&a) {
        Some(list) => list,
        None => Vec::new(),
    };
    let ghost kept = list@;
    proof {
        assert(before.contains_key(a) ==> before[a] == kept);
        assert(!before.contains_key(a) ==> kept.len() == 0);
    }
    if !holds(&list, b) {
        list.push(b);
    }
    let ghost now = list@;
    proof {
        assert forall|y: u32| #[trigger] now.contains(y) <==> kept.contains(y) || y == b by {
            if kept.contains(b) {
                assert(now == kept);
            } else {
                assert(now == kept.push(b));
                if kept.contains(y) {
                    let i = choose|i: int| 0 <= i < kept.len() && kept[i] == y;
                    assert(now[i] == y);
                }
                if y == b {
                    assert(now[kept.len() as int] == b);
                }
            }
        }
        assert(now.no_duplicates());
    }
    peers.insert(a, list);
    proof {
        let after = model::peer_views(peers@);
        assert(after =~= before.insert(a, now));
        assert forall|x: u32, y: u32| #[trigger] listed(after, x, y) <==> listed(before, x, y) || (x
            == a && y == b) by {
            if x == a {
                assert(now.contains(y) <==> kept.contains(y) || y == b);
            }
        }
    }
}

/// Rebuilds an adjacency table from scratch off the link table. The parallel links between two
/// nodes, one for each channel, collapse into one edge; edges go both ways, so that a stream's
/// device and a device's streams are each found in one lookup.
pub fn rebuild_peers(peers: &mut HashMap<u32, Vec<u32>>, links: &HashMap<u32, (u32, u32)>)
    ensures
        shows(model::peer_views(final(peers)@), links@),
{
    peers.clear();
    let ghost none = Seq::<(u32, u32)>::empty();
    assert(model::peer_views(peers@) =~= Map::empty());
    assert(shows_seq(model::peer_views(peers@), none));
    for pair in it: links.values()
        invariant
            it.seq().unref().to_set() == links@.values(),
            shows_seq(model::peer_views(peers@), it.seq().unref().take(it.index() as int)),
    {
        let ghost all = it.seq().unref();
        let ghost n = it.index() as int;
        let ghost before = model::peer_views(peers@);
        let (out, inp) = *pair;
        assert(all[n] == (out, inp));
        add_peer(peers, out, inp);
        add_peer(peers, inp, out);
        proof {
            let after = model::peer_views(peers@);
            assert(all.take(n + 1) =~= all.take(n).push((out, inp)));
            assert forall|a: u32, b: u32| #[trigger] listed(after, a, b) <==> connects(
                all.take(n + 1),
                a,
                b,
            ) by {
                vstd::seq_lib::lemma_seq_contains_after_push(all.take(n), (out, inp), (a, b));
                vstd::seq_lib::lemma_seq_contains_after_push(all.take(n), (out, inp), (b, a));
                assert(listed(before, a, b) <==> connects(all.take(n), a, b));
            }
        }
    }
    proof {
        let all = vstd::std_specs::iter::IteratorSpec::remaining(&links.values()).unref();
        assert(all.take(all.len() as int) =~= all);
        assert forall|a: u32, b: u32| #[trigger]
            listed(model::peer_views(peers@), a, b) <==> linked(links@, a, b) by {
            assert(all.contains((a, b)) <==> all.to_set().contains((a, b)));
            assert(all.contains((b, a)) <==> all.to_set().contains((b, a)));
        }
    }
}

/// Two nodes are linked when some link has them as its two ends, whichever way round.
pub proof fn lemma_linked(links: Map<u32, (u32, u32)>, a: u32, b: u32)
    ensures
        linked(links, a, b) <==> exists|id: u32| #[trigger]
            links.contains_key(id) && (links[id] == (a, b) || links[id] == (b, a)),
{
    if linked(links, a, b) {
        if links.values().contains((a, b)) {
            let id = choose|id: u32| #[trigger] links.dom().contains(id) && links[id] == (a, b);
            assert(links.contains_key(id));
        } else {
            let id = choose|id: u32| #[trigger] links.dom().contains(id) && links[id] == (b, a);
            assert(links.contains_key(id));
        }
    }
    if exists|id: u32| #[trigger]
        links.contains_key(id) && (links[id] == (a, b) || links[id] == (b, a)) {
        let id = choose|id: u32| #[trigger]
            links.contains_key(id) && (links[id] == (a, b) || links[id] == (b, a));
        assert(links.dom().contains(id));
    }
}

/// The table lists, for each node, exactly the nodes that some link connects it with, and each of
/// them once.
pub proof fn lemma_table_shows_the_links(
    peers: Map<u32, Seq<u32>>,
    links: Map<u32, (u32, u32)>,
    a: u32,
    b: u32,
)
    requires
        shows(peers, links),
    ensures
        peers.contains_key(a) && peers[a].contains(b) <==> exists|id: u32| #[trigger]
            links.contains_key(id) && (links[id] == (a, b) || links[id] == (b, a)),
        peers.contains_key(a) ==> peers[a].no_duplicates(),
{
    lemma_linked(links, a, b);
    assert(listed(peers, a, b) <==> linked(links, a, b));
}

/// The peer relation is symmetric.
pub proof fn lemma_peers_are_mutual(
    peers: Map<u32, Seq<u32>>,
    links: Map<u32, (u32, u32)>,
    a: u32,
    b: u32,
)
    requires
        shows(peers, links),
    ensures
        listed(peers, a, b) == listed(peers, b, a),
{
    assert(listed(peers, a, b) <==> linked(links, a, b));
    assert(listed(peers, b, a) <==> linked(links, b, a));
}

/// Without links no node has a peer.
pub proof fn lemma_no_links_no_peers(peers: Map<u32, Seq<u32>>)
    requires
        shows(peers, Map::empty()),
    ensures
        peers == Map::<u32, Seq<u32>>::empty(),
{
    assert forall|a: u32| !peers.contains_key(a) by {
        if peers.contains_key(a) {
            let b = peers[a][0];
            assert(peers[a].contains(b));
            assert(listed(peers, a, b));
            assert(linked(Map::empty(), a, b));
        }
    }
    assert(peers =~= Map::empty());
}

} // verus!
