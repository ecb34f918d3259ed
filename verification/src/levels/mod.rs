//! Level meters: which nodes are metered, and what their meters published.
//!
//! Levels and spectra are single-precision numbers. They are held as their bit patterns, which
//! are only handed through here.

use std::collections::{HashMap, HashSet};

use vstd::prelude::*;

use crate::model;
use crate::model::{AudioClass, AudioNode, ClassView, Direction, NodeView};
use crate::text;

pub mod capture;
pub mod link_laws;
pub mod linker;
pub mod meter_laws;
pub mod sample_laws;
pub mod samples;

verus! {

broadcast use vstd::std_specs::hash::group_hash_axioms;

/// How many frequency bands a spectrum column has.
pub const SPECTRUM_BINS: usize = 72;

/// How many columns a spectrum keeps.
pub const SPECTRUM_HISTORY: usize = 256;

/// The lowest frequency of a spectrum, in hertz.
pub const MIN_SPECTRUM_HZ: u32 = 35;

/// The highest frequency of a spectrum, in hertz.
pub const MAX_SPECTRUM_HZ: u32 = 18_000;

/// The sample rate that a spectrum has before any sample came, in hertz.
pub const DEFAULT_SAMPLE_RATE: u32 = 48_000;

/// The levels of a node's channels, as bit patterns.
#[derive(Debug, Clone)]
pub struct NodeLevels {
    pub peaks: Vec<u32>,
    pub rms: Vec<u32>,
}

/// The value of [`NodeLevels`].
#[verifier::ext_equal]
pub struct LevelsView {
    pub peaks: Seq<u32>,
    pub rms: Seq<u32>,
}

impl View for NodeLevels {
    type V = LevelsView;

    open spec fn view(&self) -> LevelsView {
        LevelsView { peaks: self.peaks@, rms: self.rms@ }
    }
}

/// The entry of a list, and zero behind its end.
pub open spec fn entry_or_zero(list: Seq<u32>, i: int) -> u32 {
    if 0 <= i < list.len() {
        list[i]
    } else {
        0
    }
}

impl NodeLevels {
    /// How many channels have a level.
    pub fn channel_count(&self) -> (r: usize)
        ensures
            r == if self@.peaks.len() >= self@.rms.len() {
                self@.peaks.len()
            } else {
                self@.rms.len()
            },
    {
        if self.peaks.len() >= self.rms.len() {
            self.peaks.len()
        } else {
            self.rms.len()
        }
    }

    /// The peak level of a channel, zero where there is none.
    pub fn peak(&self, channel: usize) -> (r: u32)
        ensures
            r == entry_or_zero(self@.peaks, channel as int),
    {
        if channel < self.peaks.len() {
            self.peaks[channel]
        } else {
            0
        }
    }

    /// The mean level of a channel, zero where there is none.
    pub fn rms(&self, channel: usize) -> (r: u32)
        ensures
            r == entry_or_zero(self@.rms, channel as int),
    {
        if channel < self.rms.len() {
            self.rms[channel]
        } else {
            0
        }
    }
}

/// The recent spectra of a node, one column after another; each column is a list of bit patterns.
#[derive(Debug, Clone)]
pub struct SpectrumSnapshot {
    pub columns: Vec<Vec<u32>>,
    pub bins: usize,
    pub history: usize,
    pub sample_rate: u32,
    pub min_hz: u32,
    pub max_hz: u32,
}

/// The value of a [`SpectrumSnapshot`].
#[verifier::ext_equal]
pub struct SpectrumView {
    pub columns: Seq<Seq<u32>>,
    pub bins: usize,
    pub history: usize,
    pub sample_rate: u32,
    pub min_hz: u32,
    pub max_hz: u32,
}

/// The values of lists of bit patterns.
pub open spec fn list_views(lists: Seq<Vec<u32>>) -> Seq<Seq<u32>> {
    lists.map_values(|l: Vec<u32>| l@)
}

impl View for SpectrumSnapshot {
    type V = SpectrumView;

    open spec fn view(&self) -> SpectrumView {
        SpectrumView {
            columns: list_views(self.columns@),
            bins: self.bins,
            history: self.history,
            sample_rate: self.sample_rate,
            min_hz: self.min_hz,
            max_hz: self.max_hz,
        }
    }
}

/// The last `count` elements of a list, or all of it when it has fewer.
pub open spec fn last_of<T>(list: Seq<T>, count: int) -> Seq<T> {
    if list.len() > count {
        list.skip(list.len() - count)
    } else {
        list
    }
}

impl SpectrumView {
    /// A spectrum without columns, at a sample rate.
    pub open spec fn empty(sample_rate: u32) -> SpectrumView {
        SpectrumView {
            columns: Seq::empty(),
            bins: SPECTRUM_BINS,
            history: SPECTRUM_HISTORY,
            sample_rate,
            min_hz: MIN_SPECTRUM_HZ,
            max_hz: MAX_SPECTRUM_HZ,
        }
    }

    /// The spectrum after one more column; the oldest columns make room for it.
    pub open spec fn with_column(self, column: Seq<u32>) -> SpectrumView {
        SpectrumView {
            columns: last_of(self.columns.push(column), self.history as int),
            ..self
        }
    }
}

impl Default for SpectrumSnapshot {
    fn default() -> (r: SpectrumSnapshot)
        ensures
            r@ == SpectrumView::empty(DEFAULT_SAMPLE_RATE),
    {
        let r = SpectrumSnapshot {
            columns: Vec::new(),
            bins: SPECTRUM_BINS,
            history: SPECTRUM_HISTORY,
            sample_rate: DEFAULT_SAMPLE_RATE,
            min_hz: MIN_SPECTRUM_HZ,
            max_hz: MAX_SPECTRUM_HZ,
        };
        assert(r@.columns =~= Seq::empty());
        r
    }
}

/// Copies a list.
fn copy_list(list: &Vec<u32>) -> (r: Vec<u32>)
    ensures
        r@ == list@,
{
    let mut r: Vec<u32> = Vec::new();
    let mut i: usize = 0;
    while i < list.len()
        invariant
            i <= list@.len(),
            r@ =~= list@.take(i as int),
        decreases list@.len() - i,
    {
        r.push(list[i]);
        i += 1;
    }
    r
}

impl SpectrumSnapshot {
    /// Copies the spectrum.
    fn copy(&self) -> (r: SpectrumSnapshot)
        ensures
            r@ == self@,
    {
        let mut columns: Vec<Vec<u32>> = Vec::new();
        let mut i: usize = 0;
        while i < self.columns.len()
            invariant
                i <= self.columns@.len(),
                list_views(columns@) =~= self@.columns.take(i as int),
            decreases self.columns@.len() - i,
        {
            let ghost before = columns@;
            let column = copy_list(&self.columns[i]);
            columns.push(column);
            assert(list_views(columns@) =~= list_views(before).push(self@.columns[i as int]));
            i += 1;
        }
        assert(list_views(columns@) =~= self@.columns);
        SpectrumSnapshot {
            columns,
            bins: self.bins,
            history: self.history,
            sample_rate: self.sample_rate,
            min_hz: self.min_hz,
            max_hz: self.max_hz,
        }
    }

    /// Adds a column; the oldest columns make room for it.
    fn push_column(&mut self, column: Vec<u32>)
        ensures
            final(self)@ == old(self)@.with_column(column@),
    {
        let ghost all = self@.columns.push(column@);
        let ghost columns = self.columns@;
        self.columns.push(column);
        assert(self@.columns =~= all);
        let ghost mut gone: int = 0;
        assert(all.skip(0) =~= all);
        while self.columns.len() > self.history
            invariant
                0 <= gone <= all.len(),
                list_views(self.columns@) == all.skip(gone),
                gone > 0 ==> all.len() - gone >= self.history,
                self.bins == old(self).bins,
                self.history == old(self).history,
                self.sample_rate == old(self).sample_rate,
                self.min_hz == old(self).min_hz,
                self.max_hz == old(self).max_hz,
            decreases self.columns@.len(),
        {
            let ghost before = list_views(self.columns@);
            self.columns.remove(0);
            proof {
                assert(list_views(self.columns@) =~= before.remove(0));
                assert(before.remove(0) =~= all.skip(gone + 1));
                gone = gone + 1;
            }
        }
    }
}

/// How the levels of a node are captured.
#[derive(Debug, Clone, Copy, PartialEq, Eq, Structural)]
pub enum MeterRoute {
    /// A capture that the session manager connects to a real source. Used for input devices, to
    /// which it is pinned, and for input streams, which have no output ports of their own.
    AutoConnect,
    /// A capture with explicit links from the node's output ports: the outputs of an output
    /// stream, the monitor ports of an output device. The session manager would take a pinned
    /// output device for a hint and move to another one while it is suspended; links whose ports
    /// are named cannot drift.
    LinkFromOutputs,
}

impl NodeView {
    /// How the node's levels are captured. The peak detectors of other mixers, which have the
    /// role `DSP`, are not metered.
    pub open spec fn meter_route(self) -> Option<MeterRoute> {
        if self.media_role == Some("DSP"@) {
            None
        } else {
            match self.class {
                ClassView::Device { direction } | ClassView::Stream { direction } => Some(
                    if direction == Direction::Output {
                        MeterRoute::LinkFromOutputs
                    } else {
                        MeterRoute::AutoConnect
                    },
                ),
                _ => None,
            }
        }
    }
}

/// How the levels of a node are captured, if they are.
pub fn meter_route_for(node: &AudioNode) -> (r: Option<MeterRoute>)
    ensures
        r == node@.meter_route(),
{
    if let Some(role) = &node.media_role {
        if text::text_eq(role.as_str(), "DSP") {
            return None;
        }
    }
    match &node.class {
        AudioClass::Device { direction } | AudioClass::Stream { direction } => match direction {
            Direction::Output => Some(MeterRoute::LinkFromOutputs),
            Direction::Input => Some(MeterRoute::AutoConnect),
        },
        _ => None,
    }
}

/// Which nodes are metered, and what their meters published.
#[derive(Debug)]
pub struct LevelService {
    pub levels: HashMap<u32, NodeLevels>,
    pub spectra: HashMap<u32, SpectrumSnapshot>,
    /// The node whose spectrum is shown.
    pub spectrum_node: Option<u32>,
    /// The nodes with a running meter.
    pub meters: HashSet<u32>,
}

/// The value of a [`LevelService`].
#[verifier::ext_equal]
pub struct ServiceView {
    pub levels: Map<u32, LevelsView>,
    pub spectra: Map<u32, SpectrumView>,
    pub spectrum_node: Option<u32>,
    pub meters: Set<u32>,
}

/// The values of levels.
pub open spec fn level_views(m: Map<u32, NodeLevels>) -> Map<u32, LevelsView> {
    m.map_values(|l: NodeLevels| l@)
}

/// The values of spectra.
pub open spec fn spectrum_views(m: Map<u32, SpectrumSnapshot>) -> Map<u32, SpectrumView> {
    m.map_values(|s: SpectrumSnapshot| s@)
}

impl View for LevelService {
    type V = ServiceView;

    open spec fn view(&self) -> ServiceView {
        ServiceView {
            levels: level_views(self.levels@),
            spectra: spectrum_views(self.spectra@),
            spectrum_node: self.spectrum_node,
            meters: self.meters@,
        }
    }
}

/// The meters that are to be stopped and started, in this order.
#[derive(Debug, Clone)]
pub struct MeterPlan {
    pub stop: Vec<u32>,
    pub start: Vec<(u32, MeterRoute)>,
}

impl MeterPlan {
    /// Whether carrying out the plan leads from the meters of `before` to those that are wanted:
    /// the others are stopped, in some order, and the missing ones are started in the order of
    /// their nodes.
    pub open spec fn leads_from(
        self,
        before: ServiceView,
        visible: Seq<NodeView>,
        spectrum_node: Option<NodeView>,
    ) -> bool {
        let nodes = asked_for(visible, spectrum_node);
        &&& self.stop@.no_duplicates()
        &&& forall|id: u32| #[trigger]
            self.stop@.contains(id) <==> before.meters.contains(id) && !wanted(nodes).contains(id)
        &&& self.start@ == started(nodes, before.meters)
    }
}

/// The nodes that are asked for: the visible ones, and behind them the one whose spectrum is
/// shown.
pub open spec fn asked_for(visible: Seq<NodeView>, spectrum_node: Option<NodeView>) -> Seq<
    NodeView,
> {
    match spectrum_node {
        Some(node) => visible.push(node),
        None => visible,
    }
}

/// Whether a node with the given id is among `nodes` and can be metered.
pub open spec fn wants(nodes: Seq<NodeView>, id: u32) -> bool {
    exists|i: int|
        0 <= i < nodes.len() && (#[trigger] nodes[i]).id == id && nodes[i].meter_route() is Some
}

/// The ids of the nodes among `nodes` that can be metered.
pub open spec fn wanted(nodes: Seq<NodeView>) -> Set<u32> {
    Set::new(|id: u32| wants(nodes, id))
}

/// Whether a meter is started for the given id.
pub open spec fn starts(start: Seq<(u32, MeterRoute)>, id: u32) -> bool {
    exists|k: int| 0 <= k < start.len() && (#[trigger] start[k]).0 == id
}

/// The meters to start so that every node that can be metered has one, beside the `running` ones:
/// in the order of the nodes, one for each id.
pub open spec fn started(nodes: Seq<NodeView>, running: Set<u32>) -> Seq<(u32, MeterRoute)>
    decreases nodes.len(),
{
    if nodes.len() == 0 {
        Seq::empty()
    } else {
        let start = started(nodes.drop_last(), running);
        let node = nodes.last();
        match node.meter_route() {
            Some(route) if !running.contains(node.id) && !starts(start, node.id) => start.push(
                (node.id, route),
            ),
            _ => start,
        }
    }
}

/// The id of a node that can be metered.
pub open spec fn metered_id(node: Option<NodeView>) -> Option<u32> {
    match node {
        Some(node) => if node.meter_route() is Some {
            Some(node.id)
        } else {
            None
        },
        None => None,
    }
}

/// The entries of a table that belong to the given node.
pub open spec fn only<V>(table: Map<u32, V>, id: Option<u32>) -> Map<u32, V> {
    match id {
        Some(id) => table.restrict(set![id]),
        None => Map::empty(),
    }
}

impl ServiceView {
    /// Nothing is metered.
    pub open spec fn initial() -> ServiceView {
        ServiceView {
            levels: Map::empty(),
            spectra: Map::empty(),
            spectrum_node: None,
            meters: Set::empty(),
        }
    }

    /// The service once it meters what can be seen: the visible nodes and the one whose spectrum
    /// is shown, as far as they can be metered. What was published of others is dropped.
    pub open spec fn reconciled(
        self,
        visible: Seq<NodeView>,
        spectrum_node: Option<NodeView>,
    ) -> ServiceView {
        let wanted = wanted(asked_for(visible, spectrum_node));
        let spectrum_id = metered_id(spectrum_node);
        ServiceView {
            levels: self.levels.restrict(wanted),
            spectra: only(self.spectra, spectrum_id),
            spectrum_node: spectrum_id,
            meters: wanted,
        }
    }

    /// The service after a meter published levels.
    pub open spec fn with_levels(self, node_id: u32, levels: LevelsView) -> ServiceView {
        ServiceView { levels: self.levels.insert(node_id, levels), ..self }
    }

    /// The service after a meter published a spectrum column. A node's spectrum starts anew when
    /// its sample rate changes.
    pub open spec fn with_column(
        self,
        node_id: u32,
        sample_rate: u32,
        column: Seq<u32>,
    ) -> ServiceView {
        let spectrum = if self.spectra.contains_key(node_id) && self.spectra[node_id].sample_rate
            == sample_rate {
            self.spectra[node_id]
        } else {
            SpectrumView::empty(sample_rate)
        };
        ServiceView {
            spectra: self.spectra.insert(node_id, spectrum.with_column(column)),
            ..self
        }
    }

    /// What holds of every service that has only been reconciled and published to: no spectrum is
    /// longer than its history.
    pub open spec fn valid(self) -> bool {
        forall|id: u32| #[trigger]
            self.spectra.contains_key(id) ==> self.spectra[id].columns.len()
                <= self.spectra[id].history
    }
}

/// The keys of a table that are not wanted.
fn strays<V>(table: &HashMap<u32, V>, wanted: &HashSet<u32>) -> (r: Vec<u32>)
    ensures
        forall|id: u32| #[trigger]
            r@.contains(id) <==> table@.contains_key(id) && !wanted@.contains(id),
{
    let mut r: Vec<u32> = Vec::new();
    for key in it: table.keys()
        invariant
            it.seq().unref().to_set() == table@.dom(),
            forall|id: u32| #[trigger]
                r@.contains(id) <==> it.seq().unref().take(it.index() as int).contains(id)
                    && !wanted@.contains(id),
    {
        let ghost all = it.seq().unref();
        let ghost n = it.index() as int;
        let ghost before = r@;
        assert(all[n] == *key);
        assert(all.take(n + 1) =~= all.take(n).push(*key));
        if !wanted.contains(key) {
            r.push(*key);
        }
        proof {
            assert forall|id: u32| #[trigger] r@.contains(id) <==> all.take(n + 1).contains(id)
                && !wanted@.contains(id) by {
                vstd::seq_lib::lemma_seq_contains_after_push(all.take(n), *key, id);
                vstd::seq_lib::lemma_seq_contains_after_push(before, *key, id);
                assert(before.contains(id) <==> all.take(n).contains(id) && !wanted@.contains(id));
            }
        }
    }
    proof {
        let all = vstd::std_specs::iter::IteratorSpec::remaining(&table.keys()).unref();
        assert(all.take(all.len() as int) =~= all);
        assert forall|id: u32| #[trigger]
            r@.contains(id) <==> table@.contains_key(id) && !wanted@.contains(id) by {
            assert(all.contains(id) <==> all.to_set().contains(id));
        }
    }
    r
}

/// Keeps the wanted entries of a table.
fn retain_wanted<V>(table: &mut HashMap<u32, V>, wanted: &HashSet<u32>)
    ensures
        final(table)@ == old(table)@.restrict(wanted@),
{
    let gone = strays(table, wanted);
    let ghost all = table@;
    let mut i: usize = 0;
    while i < gone.len()
        invariant
            i <= gone@.len(),
            forall|id: u32| #[trigger]
                table@.contains_key(id) <==> all.contains_key(id) && !gone@.take(
                    i as int,
                ).contains(id),
            forall|id: u32| #[trigger] table@.contains_key(id) ==> table@[id] == all[id],
        decreases gone@.len() - i,
    {
        let ghost before = table@;
        table.remove(&gone[i]);
        proof {
            assert(gone@.take(i + 1) =~= gone@.take(i as int).push(gone@[i as int]));
            assert forall|id: u32| #[trigger]
                table@.contains_key(id) <==> all.contains_key(id) && !gone@.take(i + 1).contains(
                    id,
                ) by {
                vstd::seq_lib::lemma_seq_contains_after_push(gone@.take(i as int), gone@[i as int], id);
                assert(before.contains_key(id) <==> all.contains_key(id) && !gone@.take(
                    i as int,
                ).contains(id));
            }
        }
        i += 1;
    }
    proof {
        assert(gone@.take(gone@.len() as int) =~= gone@);
        assert(table@ =~= all.restrict(wanted@));
    }
}

/// The elements of a set that are not wanted.
fn stray_members(members: &HashSet<u32>, wanted: &HashSet<u32>) -> (r: Vec<u32>)
    ensures
        r@.no_duplicates(),
        forall|id: u32| #[trigger]
            r@.contains(id) <==> members@.contains(id) && !wanted@.contains(id),
{
    let mut r: Vec<u32> = Vec::new();
    for key in it: members.iter()
        invariant
            it.seq().unref().to_set() == members@,
            it.seq().no_duplicates(),
            r@.no_duplicates(),
            forall|id: u32| #[trigger]
                r@.contains(id) <==> it.seq().unref().take(it.index() as int).contains(id)
                    && !wanted@.contains(id),
    {
        let ghost all = it.seq().unref();
        let ghost n = it.index() as int;
        let ghost before = r@;
        assert(all[n] == *key);
        assert(all.take(n + 1) =~= all.take(n).push(*key));
        proof {
            if all.take(n).contains(*key) {
                let k = choose|k: int| 0 <= k < n && all.take(n)[k] == *key;
                assert(it.seq()[k] == it.seq()[n]);
            }
            assert(!before.contains(*key));
        }
        if !wanted.contains(key) {
            r.push(*key);
        }
        proof {
            assert forall|id: u32| #[trigger] r@.contains(id) <==> all.take(n + 1).contains(id)
                && !wanted@.contains(id) by {
                vstd::seq_lib::lemma_seq_contains_after_push(all.take(n), *key, id);
                vstd::seq_lib::lemma_seq_contains_after_push(before, *key, id);
                assert(before.contains(id) <==> all.take(n).contains(id) && !wanted@.contains(id));
            }
        }
    }
    proof {
        let all = vstd::std_specs::iter::IteratorSpec::remaining(&members.iter()).unref();
        assert(all.take(all.len() as int) =~= all);
        assert forall|id: u32| #[trigger]
            r@.contains(id) <==> members@.contains(id) && !wanted@.contains(id) by {
            assert(all.contains(id) <==> all.to_set().contains(id));
        }
    }
    r
}

/// The ids of the nodes that can be metered.
fn wanted_ids(nodes: &Vec<&AudioNode>) -> (r: HashSet<u32>)
    ensures
        r@ == wanted(model::node_ref_views(nodes@)),
{
    let mut r: HashSet<u32> = HashSet::new();
    let ghost all = model::node_ref_views(nodes@);
    let mut i: usize = 0;
    while i < nodes.len()
        invariant
            i <= nodes@.len(),
            all == model::node_ref_views(nodes@),
            forall|id: u32| #[trigger] r@.contains(id) <==> wants(all.take(i as int), id),
        decreases nodes@.len() - i,
    {
        let node = nodes[i];
        let ghost before = r@;
        if meter_route_for(node).is_some() {
            r.insert(node.id);
        }
        proof {
            assert(all[i as int] == node@);
            assert forall|id: u32| #[trigger] r@.contains(id) <==> wants(all.take(i + 1), id) by {
                lemma_wants_step(all.take(i + 1), id);
                assert(all.take(i + 1).drop_last() =~= all.take(i as int));
                assert(before.contains(id) <==> wants(all.take(i as int), id));
            }
        }
        i += 1;
    }
    assert(all.take(all.len() as int) =~= all);
    assert(r@ =~= wanted(all));
    r
}

proof fn lemma_wants_step(nodes: Seq<NodeView>, id: u32)
    requires
        nodes.len() > 0,
    ensures
        wants(nodes, id) <==> wants(nodes.drop_last(), id) || (nodes.last().id == id
            && nodes.last().meter_route() is Some),
{
    let front = nodes.drop_last();
    if wants(front, id) {
        let i = choose|i: int|
            0 <= i < front.len() && (#[trigger] front[i]).id == id
                && front[i].meter_route() is Some;
        assert(nodes[i] == front[i]);
    }
    if nodes.last().id == id && nodes.last().meter_route() is Some {
        assert(nodes[nodes.len() - 1].id == id);
    }
    if wants(nodes, id) {
        let i = choose|i: int|
            0 <= i < nodes.len() && (#[trigger] nodes[i]).id == id
                && nodes[i].meter_route() is Some;
        if i < front.len() {
            assert(front[i] == nodes[i]);
        }
    }
}

/// A meter is started for a node when and only when it can be metered and has none yet.
pub proof fn lemma_started(nodes: Seq<NodeView>, running: Set<u32>, id: u32)
    ensures
        starts(started(nodes, running), id) <==> wants(nodes, id) && !running.contains(id),
    decreases nodes.len(),
{
    if nodes.len() > 0 {
        let front = nodes.drop_last();
        let node = nodes.last();
        let before = started(front, running);
        let after = started(nodes, running);
        lemma_started(front, running, id);
        lemma_wants_step(nodes, id);
        if starts(before, id) {
            let k = choose|k: int| 0 <= k < before.len() && (#[trigger] before[k]).0 == id;
            assert(after[k] == before[k]);
        }
        if after.len() > before.len() {
            assert(after[before.len() as int].0 == node.id);
            if starts(after, id) && node.id != id {
                let k = choose|k: int| 0 <= k < after.len() && (#[trigger] after[k]).0 == id;
                assert(before[k] == after[k]);
            }
        }
    }
}

impl LevelService {
    /// A service that meters nothing.
    pub fn new() -> (r: LevelService)
        ensures
            r@ == ServiceView::initial(),
    {
        let r = LevelService {
            levels: HashMap::new(),
            spectra: HashMap::new(),
            spectrum_node: None,
            meters: HashSet::new(),
        };
        assert(r@.levels =~= Map::empty());
        assert(r@.spectra =~= Map::empty());
        r
    }

    /// Meters what can be seen: the visible nodes, and the one whose spectrum is shown, as far as
    /// they can be metered. The meters of other nodes are to be stopped, and what they published
    /// is dropped.
    pub fn ensure_visible(
        &mut self,
        visible: &[&AudioNode],
        spectrum_node: Option<&AudioNode>,
    ) -> (r: MeterPlan)
        ensures
            final(self)@ == old(self)@.reconciled(
                model::node_ref_views(visible@),
                model::opt_node(spectrum_node),
            ),
            r.leads_from(
                old(self)@,
                model::node_ref_views(visible@),
                model::opt_node(spectrum_node),
            ),
    {
        let ghost nodes = asked_for(
            model::node_ref_views(visible@),
            model::opt_node(spectrum_node),
        );
        let mut asked: Vec<&AudioNode> = Vec::new();
        let mut i: usize = 0;
        while i < visible.len()
            invariant
                i <= visible@.len(),
                asked@ =~= visible@.take(i as int),
            decreases visible@.len() - i,
        {
            asked.push(visible[i]);
            i += 1;
        }
        let mut spectrum_id: Option<u32> = None;
        let mut kept: HashSet<u32> = HashSet::new();
        if let Some(node) = spectrum_node {
            asked.push(node);
            if meter_route_for(node).is_some() {
                spectrum_id = Some(node.id);
                kept.insert(node.id);
            }
        }
        assert(model::node_ref_views(asked@) =~= nodes);
        let wanted = wanted_ids(&asked);
        let ghost levels = self.levels@;
        let ghost spectra = self.spectra@;
        retain_wanted(&mut self.levels, &wanted);
        retain_wanted(&mut self.spectra, &kept);
        proof {
            assert(level_views(self.levels@) =~= level_views(levels).restrict(wanted@));
            assert(spectrum_views(self.spectra@) =~= only(spectrum_views(spectra), spectrum_id));
        }
        self.spectrum_node = spectrum_id;
        let stop = stray_members(&self.meters, &wanted);
        let start = self.start_missing(&asked);
        self.meters = wanted;
        MeterPlan { stop, start }
    }

    /// The meters to start for the nodes that have none.
    fn start_missing(&self, nodes: &Vec<&AudioNode>) -> (r: Vec<(u32, MeterRoute)>)
        ensures
            r@ == started(model::node_ref_views(nodes@), self@.meters),
    {
        let mut start: Vec<(u32, MeterRoute)> = Vec::new();
        let mut begun: HashSet<u32> = HashSet::new();
        let ghost all = model::node_ref_views(nodes@);
        let mut i: usize = 0;
        while i < nodes.len()
            invariant
                i <= nodes@.len(),
                all == model::node_ref_views(nodes@),
                start@ == started(all.take(i as int), self@.meters),
                forall|id: u32| #[trigger] begun@.contains(id) <==> starts(start@, id),
            decreases nodes@.len() - i,
        {
            let node = nodes[i];
            let ghost before = start@;
            let ghost known = begun@;
            proof {
                assert(all.take(i + 1).drop_last() =~= all.take(i as int));
                assert(all.take(i + 1).last() == node@);
            }
            if let Some(route) = meter_route_for(node) {
                if !self.meters.contains(&node.id) && !begun.contains(&node.id) {
                    start.push((node.id, route));
                    begun.insert(node.id);
                    proof {
                        assert(start@ == before.push((node.id, route)));
                        assert forall|id: u32| #[trigger]
                            begun@.contains(id) <==> starts(start@, id) by {
                            if starts(before, id) {
                                let k = choose|k: int|
                                    0 <= k < before.len() && (#[trigger] before[k]).0 == id;
                                assert(start@[k] == before[k]);
                            }
                            if id == node.id {
                                assert(start@[before.len() as int].0 == id);
                            } else if starts(start@, id) {
                                let k = choose|k: int|
                                    0 <= k < start@.len() && (#[trigger] start@[k]).0 == id;
                                assert(before[k] == start@[k]);
                            }
                            assert(known.contains(id) <==> starts(before, id));
                        }
                    }
                }
            }
            i += 1;
        }
        assert(all.take(all.len() as int) =~= all);
        start
    }

    /// The levels that a node's meter published last.
    pub fn level_for(&self, node_id: u32) -> (r: Option<NodeLevels>)
        ensures
            match r {
                Some(levels) => self@.levels.contains_key(node_id) && levels@
                    == self@.levels[node_id],
                None => !self@.levels.contains_key(node_id),
            },
    {
        match self.levels.get(&node_id) {
            Some(levels) => Some(
                NodeLevels { peaks: copy_list(&levels.peaks), rms: copy_list(&levels.rms) },
            ),
            None => None,
        }
    }

    /// The spectrum that a node's meter published.
    pub fn spectrum_for(&self, node_id: u32) -> (r: Option<SpectrumSnapshot>)
        ensures
            match r {
                Some(spectrum) => self@.spectra.contains_key(node_id) && spectrum@
                    == self@.spectra[node_id],
                None => !self@.spectra.contains_key(node_id),
            },
    {
        match self.spectra.get(&node_id) {
            Some(spectrum) => Some(spectrum.copy()),
            None => None,
        }
    }

    /// How many meters run.
    pub fn active_meter_count(&self) -> (r: usize)
        ensures
            r == self@.meters.len(),
    {
        self.meters.len()
    }

    /// Whether a node's meter is to publish spectra too.
    pub fn shows_spectrum_of(&self, node_id: u32) -> (r: bool)
        ensures
            r == (self@.spectrum_node == Some(node_id)),
    {
        match self.spectrum_node {
            Some(id) => id == node_id,
            None => false,
        }
    }

    /// Takes in the levels that a node's meter published.
    pub fn publish_levels(&mut self, node_id: u32, levels: NodeLevels)
        ensures
            final(self)@ == old(self)@.with_levels(node_id, levels@),
    {
        let ghost before = self.levels@;
        self.levels.insert(node_id, levels);
        assert(level_views(self.levels@) =~= level_views(before).insert(node_id, levels@));
    }

    /// Takes in a spectrum column that a node's meter published.
    pub fn publish_column(&mut self, node_id: u32, sample_rate: u32, column: Vec<u32>)
        ensures
            final(self)@ == old(self)@.with_column(node_id, sample_rate, column@),
    {
        let ghost before = self.spectra@;
        let mut spectrum = match self.spectra.remove(&node_id) {
            Some(spectrum) if spectrum.sample_rate == sample_rate => spectrum,
            _ => {
                let mut fresh = SpectrumSnapshot::default();
                fresh.sample_rate = sample_rate;
                fresh
            },
        };
        spectrum.push_column(column);
        let ghost entry = spectrum@;
        self.spectra.insert(node_id, spectrum);
        assert(spectrum_views(self.spectra@) =~= spectrum_views(before).insert(node_id, entry));
    }
}

impl Default for LevelService {
    fn default() -> (r: LevelService)
        ensures
            r@ == ServiceView::initial(),
    {
        LevelService::new()
    }
}

/// Once a plan is carried out, the meters that run are exactly those that are wanted: the ones that
/// ran and were not stopped, and the ones that were started.
pub proof fn lemma_plan_is_complete(
    plan: MeterPlan,
    service: ServiceView,
    visible: Seq<NodeView>,
    spectrum_node: Option<NodeView>,
    id: u32,
)
    requires
        plan.leads_from(service, visible, spectrum_node),
    ensures
        service.reconciled(visible, spectrum_node).meters.contains(id) <==> (
        service.meters.contains(id) && !plan.stop@.contains(id)) || starts(plan.start@, id),
{
    lemma_started(asked_for(visible, spectrum_node), service.meters, id);
    assert(plan.stop@.contains(id) <==> service.meters.contains(id) && !wanted(
        asked_for(visible, spectrum_node),
    ).contains(id));
}

/// Metering the same nodes again changes nothing and starts no meter.
pub proof fn lemma_reconciled_twice(
    service: ServiceView,
    visible: Seq<NodeView>,
    spectrum_node: Option<NodeView>,
)
    ensures
        ({
            let next = service.reconciled(visible, spectrum_node);
            &&& next.reconciled(visible, spectrum_node) == next
            &&& started(asked_for(visible, spectrum_node), next.meters) == Seq::<
                (u32, MeterRoute),
            >::empty()
        }),
{
    let nodes = asked_for(visible, spectrum_node);
    let next = service.reconciled(visible, spectrum_node);
    assert(next.reconciled(visible, spectrum_node) =~= next);
    let start = started(nodes, next.meters);
    if start.len() > 0 {
        let id = start[0].0;
        assert(starts(start, id));
        lemma_started(nodes, next.meters, id);
    }
}

/// A peak detector of another mixer is never metered.
pub proof fn lemma_peak_detectors_are_not_metered(
    service: ServiceView,
    visible: Seq<NodeView>,
    spectrum_node: Option<NodeView>,
    id: u32,
)
    requires
        forall|i: int|
            0 <= i < asked_for(visible, spectrum_node).len() && (#[trigger] asked_for(
                visible,
                spectrum_node,
            )[i]).id == id ==> asked_for(visible, spectrum_node)[i].media_role == Some("DSP"@),
    ensures
        !service.reconciled(visible, spectrum_node).meters.contains(id),
{
}

/// What was published of a node that is no longer metered is dropped.
pub proof fn lemma_nothing_stale(
    service: ServiceView,
    visible: Seq<NodeView>,
    spectrum_node: Option<NodeView>,
    id: u32,
)
    ensures
        ({
            let next = service.reconciled(visible, spectrum_node);
            &&& next.levels.contains_key(id) ==> next.meters.contains(id)
            &&& next.spectra.contains_key(id) ==> next.meters.contains(id) && next.spectrum_node
                == Some(id)
        }),
{
    if let Some(node) = spectrum_node {
        let nodes = asked_for(visible, spectrum_node);
        assert(nodes[visible.len() as int] == node);
    }
}

/// No spectrum ever grows beyond its history.
pub proof fn lemma_history_is_bounded(
    service: ServiceView,
    visible: Seq<NodeView>,
    spectrum_node: Option<NodeView>,
    node_id: u32,
    sample_rate: u32,
    column: Seq<u32>,
    levels: LevelsView,
)
    requires
        service.valid(),
    ensures
        ServiceView::initial().valid(),
        service.reconciled(visible, spectrum_node).valid(),
        service.with_levels(node_id, levels).valid(),
        service.with_column(node_id, sample_rate, column).valid(),
{
}

/// The column that was published last is the last one of the spectrum, and the columns before it
/// keep their order.
pub proof fn lemma_newest_column_is_last(spectrum: SpectrumView, column: Seq<u32>)
    requires
        spectrum.history > 0,
    ensures
        ({
            let next = spectrum.with_column(column);
            &&& next.columns.last() == column
            &&& next.columns.drop_last() == last_of(
                spectrum.columns,
                if spectrum.columns.len() < spectrum.history {
                    spectrum.columns.len() as int
                } else {
                    spectrum.history - 1
                },
            )
        }),
{
    let next = spectrum.with_column(column);
    let kept = if spectrum.columns.len() < spectrum.history {
        spectrum.columns.len() as int
    } else {
        spectrum.history - 1
    };
    assert(next.columns.drop_last() =~= last_of(spectrum.columns, kept));
}

} // verus!
