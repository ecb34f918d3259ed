//! The audio graph as the panel sees it: tabs, nodes, cards, and the snapshot that holds them.

use std::collections::HashMap;

use vstd::prelude::*;

use crate::text;

verus! {

/// A tab of the panel.
#[derive(Debug, Clone, Copy, PartialEq, Eq, Structural)]
pub enum Tab {
    Playback,
    Recording,
    Outputs,
    Inputs,
    Configuration,
}

impl Tab {
    /// Every tab, in the order of the tab bar.
    pub const ALL: [Tab; 5] = [
        Tab::Playback,
        Tab::Recording,
        Tab::Outputs,
        Tab::Inputs,
        Tab::Configuration,
    ];

    /// The words that head the tab.
    pub open spec fn label_text(self) -> Seq<char> {
        match self {
            Tab::Playback => "Playback"@,
            Tab::Recording => "Recording"@,
            Tab::Outputs => "Output Devices"@,
            Tab::Inputs => "Input Devices"@,
            Tab::Configuration => "Configuration"@,
        }
    }

    /// The stable token of the tab.
    pub open spec fn token_text(self) -> Seq<char> {
        match self {
            Tab::Playback => "playback"@,
            Tab::Recording => "recording"@,
            Tab::Outputs => "outputs"@,
            Tab::Inputs => "inputs"@,
            Tab::Configuration => "configuration"@,
        }
    }

    /// The tab that a token names.
    pub open spec fn named_by(token: Seq<char>) -> Option<Tab> {
        if token == "playback"@ {
            Some(Tab::Playback)
        } else if token == "recording"@ {
            Some(Tab::Recording)
        } else if token == "outputs"@ {
            Some(Tab::Outputs)
        } else if token == "inputs"@ {
            Some(Tab::Inputs)
        } else if token == "configuration"@ {
            Some(Tab::Configuration)
        } else {
            None
        }
    }

    /// The words shown on the tab.
    pub fn label(self) -> (r: &'static str)
        ensures
            r@ == self.label_text(),
    {
        match self {
            Tab::Playback => "Playback",
            Tab::Recording => "Recording",
            Tab::Outputs => "Output Devices",
            Tab::Inputs => "Input Devices",
            Tab::Configuration => "Configuration",
        }
    }

    /// Stable lowercase token, used as the value side of the tab bar and for the names of the
    /// files that hold a rendered tab.
    pub fn token(self) -> (r: &'static str)
        ensures
            r@ == self.token_text(),
    {
        match self {
            Tab::Playback => "playback",
            Tab::Recording => "recording",
            Tab::Outputs => "outputs",
            Tab::Inputs => "inputs",
            Tab::Configuration => "configuration",
        }
    }

    /// Inverse of [`Tab::token`]: folds a routed click back into a typed value.
    pub fn from_token(token: &str) -> (r: Option<Tab>)
        ensures
            r == Tab::named_by(token@),
    {
        if text::text_eq(token, "playback") {
            Some(Tab::Playback)
        } else if text::text_eq(token, "recording") {
            Some(Tab::Recording)
        } else if text::text_eq(token, "outputs") {
            Some(Tab::Outputs)
        } else if text::text_eq(token, "inputs") {
            Some(Tab::Inputs)
        } else if text::text_eq(token, "configuration") {
            Some(Tab::Configuration)
        } else {
            None
        }
    }

    /// Every tab is named by its token, and a token that names a tab is that tab's token.
    pub proof fn lemma_token_round_trip(self, token: Seq<char>)
        ensures
            Tab::named_by(self.token_text()) == Some(self),
            Tab::named_by(token) == Some(self) <==> token == self.token_text(),
    {
        reveal_strlit("playback");
        reveal_strlit("recording");
        reveal_strlit("outputs");
        reveal_strlit("inputs");
        reveal_strlit("configuration");
        assert("playback"@[0] == 'p');
        assert("recording"@[0] == 'r');
        assert("outputs"@[0] == 'o');
        assert("inputs"@[0] == 'i');
        assert("configuration"@[0] == 'c');
    }
}

/// Which way audio flows, seen from the machine: out to speakers or in from microphones.
#[derive(Debug, Clone, Copy, PartialEq, Eq, Structural)]
pub enum Direction {
    Input,
    Output,
}

/// What kind of object a node is.
#[derive(Debug, Clone, PartialEq, Eq)]
pub enum AudioClass {
    Stream { direction: Direction },
    Device { direction: Direction },
    Card,
    Other(String),
}

/// The value of an [`AudioClass`].
#[verifier::ext_equal]
pub enum ClassView {
    Stream { direction: Direction },
    Device { direction: Direction },
    Card,
    Other(Seq<char>),
}

impl View for AudioClass {
    type V = ClassView;

    open spec fn view(&self) -> ClassView {
        match *self {
            AudioClass::Stream { direction } => ClassView::Stream { direction },
            AudioClass::Device { direction } => ClassView::Device { direction },
            AudioClass::Card => ClassView::Card,
            AudioClass::Other(name) => ClassView::Other(name@),
        }
    }
}

/// The most that the panel sets a volume to.
pub const MAX_VOLUME_PERCENT: u32 = 150;

/// The highest percentage that the panel shows.
pub const MAX_SHOWN_PERCENT: u32 = 999;

/// A node's volume.
#[derive(Debug, Clone, Copy, PartialEq, Eq, Structural)]
pub struct Volume {
    /// Linear PipeWire volume in hundredths, rounded. `100` is nominal 100%.
    pub hundredths: u32,
    pub muted: bool,
}

impl Volume {
    /// The percentage shown for the volume.
    pub open spec fn shown_percent(self) -> u32 {
        if self.hundredths <= MAX_SHOWN_PERCENT {
            self.hundredths
        } else {
            MAX_SHOWN_PERCENT
        }
    }

    /// The percentage shown for the volume, at most [`MAX_SHOWN_PERCENT`].
    pub fn percent(&self) -> (r: u32)
        ensures
            r == self.shown_percent(),
    {
        if self.hundredths <= MAX_SHOWN_PERCENT {
            self.hundredths
        } else {
            MAX_SHOWN_PERCENT
        }
    }

    /// A volume of `percent`, at most [`MAX_VOLUME_PERCENT`].
    pub fn from_percent(percent: u32, muted: bool) -> (r: Self)
        ensures
            r == (Volume { hundredths: limited(percent), muted }),
            r.shown_percent() == limited(percent),
    {
        Self { hundredths: limited_percent(percent), muted }
    }
}

/// `percent`, at most [`MAX_VOLUME_PERCENT`].
pub open spec fn limited(percent: u32) -> u32 {
    if percent <= MAX_VOLUME_PERCENT {
        percent
    } else {
        MAX_VOLUME_PERCENT
    }
}

/// `percent`, at most [`MAX_VOLUME_PERCENT`].
pub fn limited_percent(percent: u32) -> (r: u32)
    ensures
        r == limited(percent),
{
    if percent <= MAX_VOLUME_PERCENT {
        percent
    } else {
        MAX_VOLUME_PERCENT
    }
}

/// A stream or a device.
#[derive(Debug, Clone)]
pub struct AudioNode {
    pub id: u32,
    /// PipeWire `object.serial`, the identifier that is never used again. The session manager
    /// matches a stream's `target.object` against it, not against the id.
    pub serial: u64,
    pub class: AudioClass,
    pub name: String,
    pub description: String,
    pub application: Option<String>,
    pub media_name: Option<String>,
    pub target: Option<String>,
    pub volume: Option<Volume>,
    /// PipeWire `media.role`. Carried so that the meter scheduler can skip the capture streams
    /// of other programs' meters.
    pub media_role: Option<String>,
}

/// The value of an [`AudioNode`].
#[verifier::ext_equal]
pub struct NodeView {
    pub id: u32,
    pub serial: u64,
    pub class: ClassView,
    pub name: Seq<char>,
    pub description: Seq<char>,
    pub application: Option<Seq<char>>,
    pub media_name: Option<Seq<char>>,
    pub target: Option<Seq<char>>,
    pub volume: Option<Volume>,
    pub media_role: Option<Seq<char>>,
}

impl View for AudioNode {
    type V = NodeView;

    open spec fn view(&self) -> NodeView {
        NodeView {
            id: self.id,
            serial: self.serial,
            class: self.class@,
            name: self.name@,
            description: self.description@,
            application: text::opt_text(self.application),
            media_name: text::opt_text(self.media_name),
            target: text::opt_text(self.target),
            volume: self.volume,
            media_role: text::opt_text(self.media_role),
        }
    }
}

impl NodeView {
    /// Whether the node is a device that carries audio in the given direction.
    pub open spec fn is_device(self, direction: Direction) -> bool {
        self.class == ClassView::Device { direction }
    }

    /// Whether the node is a stream that carries audio in the given direction.
    pub open spec fn is_stream(self, direction: Direction) -> bool {
        self.class == ClassView::Stream { direction }
    }

    /// Whether a tab lists the node.
    pub open spec fn shown_in(self, tab: Tab) -> bool {
        match tab {
            Tab::Playback => self.is_stream(Direction::Output),
            Tab::Recording => self.is_stream(Direction::Input),
            Tab::Outputs => self.is_device(Direction::Output),
            Tab::Inputs => self.is_device(Direction::Input),
            Tab::Configuration => false,
        }
    }
}

impl AudioNode {
    /// Whether the node is a device that carries audio in the given direction.
    pub fn is_device(&self, direction: Direction) -> (r: bool)
        ensures
            r == self@.is_device(direction),
    {
        match &self.class {
            AudioClass::Device { direction: d } => *d == direction,
            _ => false,
        }
    }

    /// Whether the node is a stream that carries audio in the given direction.
    pub fn is_stream(&self, direction: Direction) -> (r: bool)
        ensures
            r == self@.is_stream(direction),
    {
        match &self.class {
            AudioClass::Stream { direction: d } => *d == direction,
            _ => false,
        }
    }

    /// Whether a tab lists the node.
    pub fn shown_in(&self, tab: Tab) -> (r: bool)
        ensures
            r == self@.shown_in(tab),
    {
        match tab {
            Tab::Playback => self.is_stream(Direction::Output),
            Tab::Recording => self.is_stream(Direction::Input),
            Tab::Outputs => self.is_device(Direction::Output),
            Tab::Inputs => self.is_device(Direction::Input),
            Tab::Configuration => false,
        }
    }
}

/// Whether a card can take up a profile.
#[derive(Debug, Clone, Copy, PartialEq, Eq, Structural)]
pub enum ProfileAvailability {
    Unknown,
    No,
    Yes,
}

/// A profile of a card.
#[derive(Debug, Clone)]
pub struct AudioProfile {
    /// PipeWire's `index` for the profile, by which it is switched to.
    pub index: u32,
    pub name: String,
    pub description: String,
    pub available: ProfileAvailability,
}

/// The value of an [`AudioProfile`].
#[verifier::ext_equal]
pub struct ProfileView {
    pub index: u32,
    pub name: Seq<char>,
    pub description: Seq<char>,
    pub available: ProfileAvailability,
}

impl View for AudioProfile {
    type V = ProfileView;

    open spec fn view(&self) -> ProfileView {
        ProfileView {
            index: self.index,
            name: self.name@,
            description: self.description@,
            available: self.available,
        }
    }
}

/// The values of profiles.
pub open spec fn profile_views(profiles: Seq<AudioProfile>) -> Seq<ProfileView> {
    profiles.map_values(|p: AudioProfile| p@)
}

/// A sound card.
#[derive(Debug, Clone)]
pub struct AudioCard {
    pub id: u32,
    pub name: String,
    pub description: String,
    /// Index of the active profile (matches one of `profiles[i].index`), or `None` while the
    /// device has not reported one.
    pub active_profile: Option<u32>,
    pub profiles: Vec<AudioProfile>,
}

/// The value of an [`AudioCard`].
#[verifier::ext_equal]
pub struct CardView {
    pub id: u32,
    pub name: Seq<char>,
    pub description: Seq<char>,
    pub active_profile: Option<u32>,
    pub profiles: Seq<ProfileView>,
}

impl View for AudioCard {
    type V = CardView;

    open spec fn view(&self) -> CardView {
        CardView {
            id: self.id,
            name: self.name@,
            description: self.description@,
            active_profile: self.active_profile,
            profiles: profile_views(self.profiles@),
        }
    }
}

/// The audio graph at one moment.
#[derive(Debug, Clone)]
pub struct AudioSnapshot {
    pub nodes: Vec<AudioNode>,
    pub cards: Vec<AudioCard>,
    pub server_name: Option<String>,
    pub error: Option<String>,
    /// `node.name` of the current default sink.
    pub default_sink_name: Option<String>,
    /// `node.name` of the current default source.
    pub default_source_name: Option<String>,
    /// Live link-graph adjacency: node id to distinct peer node ids, with an edge in both
    /// directions for every link. Lets the panel show where a stream really plays, not only
    /// where it was asked to.
    pub peers: HashMap<u32, Vec<u32>>,
}

/// The value of an [`AudioSnapshot`].
#[verifier::ext_equal]
pub struct SnapshotView {
    pub nodes: Seq<NodeView>,
    pub cards: Seq<CardView>,
    pub server_name: Option<Seq<char>>,
    pub error: Option<Seq<char>>,
    pub default_sink_name: Option<Seq<char>>,
    pub default_source_name: Option<Seq<char>>,
    pub peers: Map<u32, Seq<u32>>,
}

/// The values of nodes.
pub open spec fn node_views(nodes: Seq<AudioNode>) -> Seq<NodeView> {
    nodes.map_values(|n: AudioNode| n@)
}

/// The values of borrowed nodes.
pub open spec fn node_ref_views(nodes: Seq<&AudioNode>) -> Seq<NodeView> {
    nodes.map_values(|n: &AudioNode| n@)
}

/// The values of cards.
pub open spec fn card_views(cards: Seq<AudioCard>) -> Seq<CardView> {
    cards.map_values(|c: AudioCard| c@)
}

/// The value of an adjacency table.
pub open spec fn peer_views(peers: Map<u32, Vec<u32>>) -> Map<u32, Seq<u32>> {
    peers.map_values(|v: Vec<u32>| v@)
}

impl View for AudioSnapshot {
    type V = SnapshotView;

    open spec fn view(&self) -> SnapshotView {
        SnapshotView {
            nodes: node_views(self.nodes@),
            cards: card_views(self.cards@),
            server_name: text::opt_text(self.server_name),
            error: text::opt_text(self.error),
            default_sink_name: text::opt_text(self.default_sink_name),
            default_source_name: text::opt_text(self.default_source_name),
            peers: peer_views(self.peers@),
        }
    }
}

/// The position of the first element that `keep` accepts.
pub open spec fn first_where<T>(s: Seq<T>, keep: spec_fn(T) -> bool) -> Option<int>
    decreases s.len(),
{
    if s.len() == 0 {
        None
    } else {
        match first_where(s.drop_last(), keep) {
            Some(i) => Some(i),
            None => if keep(s.last()) {
                Some(s.len() - 1)
            } else {
                None
            },
        }
    }
}

/// The first node that `keep` accepts.
pub open spec fn find_node(nodes: Seq<NodeView>, keep: spec_fn(NodeView) -> bool) -> Option<
    NodeView,
> {
    match first_where(nodes, keep) {
        Some(i) => Some(nodes[i]),
        None => None,
    }
}

/// A search gives the least position of an accepted element, and nothing when there is none.
pub proof fn lemma_first_where<T>(s: Seq<T>, keep: spec_fn(T) -> bool)
    ensures
        match first_where(s, keep) {
            Some(i) => 0 <= i < s.len() && keep(s[i]) && (forall|j: int|
                0 <= j < i ==> !keep(#[trigger] s[j])),
            None => forall|j: int| 0 <= j < s.len() ==> !keep(#[trigger] s[j]),
        },
    decreases s.len(),
{
    if s.len() > 0 {
        let front = s.drop_last();
        lemma_first_where(front, keep);
        assert(forall|j: int| 0 <= j < front.len() ==> front[j] == s[j]);
        if first_where(front, keep) is None {
            assert forall|j: int| 0 <= j < s.len() - 1 implies !keep(#[trigger] s[j]) by {
                assert(front[j] == s[j]);
            }
        }
    }
}

/// A position that is accepted, with none accepted before it, is what a search gives.
pub proof fn lemma_first_where_is<T>(s: Seq<T>, keep: spec_fn(T) -> bool, i: int)
    requires
        0 <= i < s.len(),
        keep(s[i]),
        forall|j: int| 0 <= j < i ==> !keep(#[trigger] s[j]),
    ensures
        first_where(s, keep) == Some(i),
{
    lemma_first_where(s, keep);
    if let Some(k) = first_where(s, keep) {
        if i < k {
            assert(!keep(s[i]));
        }
    } else {
        assert(!keep(s[i]));
    }
}

/// The value of an optional borrowed node.
pub open spec fn opt_node(n: Option<&AudioNode>) -> Option<NodeView> {
    match n {
        Some(n) => Some(n@),
        None => None,
    }
}

/// The position of the node with the given id.
pub open spec fn node_position(nodes: Seq<NodeView>, id: u32) -> Option<int> {
    first_where(nodes, |n: NodeView| n.id == id)
}

/// The position of the card with the given id.
pub open spec fn card_position(cards: Seq<CardView>, id: u32) -> Option<int> {
    first_where(cards, |c: CardView| c.id == id)
}

impl SnapshotView {
    /// A graph with nothing in it.
    pub open spec fn empty() -> SnapshotView {
        SnapshotView {
            nodes: Seq::empty(),
            cards: Seq::empty(),
            server_name: None,
            error: None,
            default_sink_name: None,
            default_source_name: None,
            peers: Map::empty(),
        }
    }

    /// The name of the default device of a direction.
    pub open spec fn default_name(self, direction: Direction) -> Option<Seq<char>> {
        match direction {
            Direction::Output => self.default_sink_name,
            Direction::Input => self.default_source_name,
        }
    }

    /// Whether a node is the default device of its direction.
    pub open spec fn is_default(self, node: NodeView) -> bool {
        match node.class {
            ClassView::Device { direction } => self.default_name(direction) == Some(node.name),
            _ => false,
        }
    }

    /// The node with the given id.
    pub open spec fn node_with_id(self, id: u32) -> Option<NodeView> {
        find_node(self.nodes, |n: NodeView| n.id == id)
    }

    /// The device of a direction with the given id.
    pub open spec fn device_with_id(self, direction: Direction, id: u32) -> Option<NodeView> {
        find_node(self.nodes, |n: NodeView| n.id == id && n.is_device(direction))
    }

    /// The device of a direction with the given serial.
    pub open spec fn device_with_serial(self, direction: Direction, serial: u64) -> Option<
        NodeView,
    > {
        find_node(self.nodes, |n: NodeView| n.serial == serial && n.is_device(direction))
    }

    /// The device of a direction with the given name.
    pub open spec fn device_with_name(self, direction: Direction, name: Seq<char>) -> Option<
        NodeView,
    > {
        find_node(self.nodes, |n: NodeView| n.name == name && n.is_device(direction))
    }

    /// The default device of a direction.
    pub open spec fn default_device(self, direction: Direction) -> Option<NodeView> {
        match self.default_name(direction) {
            Some(name) => self.device_with_name(direction, name),
            None => None,
        }
    }

    /// The nodes that a tab lists.
    pub open spec fn nodes_for_tab(self, tab: Tab) -> Seq<NodeView> {
        self.nodes.filter(|n: NodeView| n.shown_in(tab))
    }
}

impl Default for AudioSnapshot {
    fn default() -> (r: AudioSnapshot)
        ensures
            r@ == SnapshotView::empty(),
    {
        let r = AudioSnapshot {
            nodes: Vec::new(),
            cards: Vec::new(),
            server_name: None,
            error: None,
            default_sink_name: None,
            default_source_name: None,
            peers: HashMap::new(),
        };
        assert(r@.nodes =~= Seq::empty());
        assert(r@.cards =~= Seq::empty());
        assert(r@.peers =~= Map::empty());
        r
    }
}

impl AudioSnapshot {
    /// The name of the default device of a direction.
    pub fn default_name(&self, direction: Direction) -> (r: Option<&str>)
        ensures
            text::opt_str(r) == self@.default_name(direction),
    {
        let slot = match direction {
            Direction::Output => &self.default_sink_name,
            Direction::Input => &self.default_source_name,
        };
        match slot {
            Some(name) => Some(name.as_str()),
            None => None,
        }
    }

    /// Whether `node` is the default device of its direction.
    pub fn is_default(&self, node: &AudioNode) -> (r: bool)
        ensures
            r == self@.is_default(node@),
    {
        match &node.class {
            AudioClass::Device { direction } => match self.default_name(*direction) {
                Some(name) => text::text_eq(name, node.name.as_str()),
                None => false,
            },
            _ => false,
        }
    }

    /// The nodes that `tab` lists, in the order of the snapshot.
    pub fn nodes_for_tab(&self, tab: Tab) -> (r: Vec<&AudioNode>)
        ensures
            node_ref_views(r@) == self@.nodes_for_tab(tab),
    {
        let mut out: Vec<&AudioNode> = Vec::new();
        let ghost keep = |n: NodeView| n.shown_in(tab);
        let ghost all = self@.nodes;
        proof {
            reveal(Seq::filter);
            assert(all.take(0) =~= Seq::empty());
            assert(node_ref_views(out@) =~= Seq::empty());
        }
        let mut i: usize = 0;
        while i < self.nodes.len()
            invariant
                i <= self.nodes@.len(),
                all == self@.nodes,
                all.len() == self.nodes@.len(),
                keep == (|n: NodeView| n.shown_in(tab)),
                node_ref_views(out@) == all.take(i as int).filter(keep),
            decreases self.nodes@.len() - i,
        {
            let node = &self.nodes[i];
            let ghost before = out@;
            proof {
                reveal(Seq::filter);
                assert(all.take(i + 1).drop_last() =~= all.take(i as int));
                assert(all.take(i + 1).last() == node@);
            }
            if node.shown_in(tab) {
                out.push(node);
                assert(node_ref_views(out@) =~= node_ref_views(before).push(node@));
            }
            i += 1;
        }
        assert(all.take(all.len() as int) =~= all);
        out
    }

    /// The position of the first node with the given id.
    pub fn index_of(&self, id: u32) -> (r: Option<usize>)
        ensures
            match r {
                Some(i) => node_position(self@.nodes, id) == Some(i as int) && i
                    < self.nodes@.len() && self.nodes@[i as int].id == id,
                None => node_position(self@.nodes, id) is None,
            },
    {
        let ghost keep = |n: NodeView| n.id == id;
        let mut i: usize = 0;
        while i < self.nodes.len()
            invariant
                i <= self.nodes@.len(),
                keep == (|n: NodeView| n.id == id),
                forall|j: int| 0 <= j < i ==> !keep(#[trigger] self@.nodes[j]),
            decreases self.nodes@.len() - i,
        {
            if self.nodes[i].id == id {
                proof {
                    assert(keep(self@.nodes[i as int]));
                    lemma_first_where_is(self@.nodes, keep, i as int);
                }
                return Some(i);
            }
            i += 1;
        }
        proof {
            lemma_first_where(self@.nodes, keep);
        }
        None
    }

    /// The node with the given id.
    pub fn node_with_id(&self, id: u32) -> (r: Option<&AudioNode>)
        ensures
            opt_node(r) == self@.node_with_id(id),
    {
        match self.index_of(id) {
            Some(i) => Some(&self.nodes[i]),
            None => None,
        }
    }

    /// The node with the given id, to be changed in place.
    pub fn node_mut(&mut self, id: u32) -> (r: Option<&mut AudioNode>)
        ensures
            match r {
                Some(node) => {
                    let i = node_position(old(self)@.nodes, id)->0;
                    &&& node_position(old(self)@.nodes, id) is Some
                    &&& node@ == old(self)@.nodes[i]
                    &&& final(self)@ == (SnapshotView {
                        nodes: old(self)@.nodes.update(i, final(node)@),
                        ..old(self)@
                    })
                },
                None => node_position(old(self)@.nodes, id) is None
                    && final(self)@ == old(self)@,
            },
    {
        match self.index_of(id) {
            Some(i) => Some(&mut self.nodes[i]),
            None => None,
        }
    }

    /// The device of a direction with the given id.
    pub fn device_with_id(&self, direction: Direction, id: u32) -> (r: Option<&AudioNode>)
        ensures
            opt_node(r) == self@.device_with_id(direction, id),
    {
        let ghost keep = |n: NodeView| n.id == id && n.is_device(direction);
        let mut i: usize = 0;
        while i < self.nodes.len()
            invariant
                i <= self.nodes@.len(),
                keep == (|n: NodeView| n.id == id && n.is_device(direction)),
                forall|j: int| 0 <= j < i ==> !keep(#[trigger] self@.nodes[j]),
            decreases self.nodes@.len() - i,
        {
            let node = &self.nodes[i];
            assert(self@.nodes[i as int] == node@);
            if node.id == id && node.is_device(direction) {
                proof {
                    lemma_first_where_is(self@.nodes, keep, i as int);
                }
                return Some(node);
            }
            i += 1;
        }
        proof {
            lemma_first_where(self@.nodes, keep);
        }
        None
    }

    /// The device of a direction with the given serial.
    pub fn device_with_serial(&self, direction: Direction, serial: u64) -> (r: Option<&AudioNode>)
        ensures
            opt_node(r) == self@.device_with_serial(direction, serial),
    {
        let ghost keep = |n: NodeView| n.serial == serial && n.is_device(direction);
        let mut i: usize = 0;
        while i < self.nodes.len()
            invariant
                i <= self.nodes@.len(),
                keep == (|n: NodeView| n.serial == serial && n.is_device(direction)),
                forall|j: int| 0 <= j < i ==> !keep(#[trigger] self@.nodes[j]),
            decreases self.nodes@.len() - i,
        {
            let node = &self.nodes[i];
            assert(self@.nodes[i as int] == node@);
            if node.serial == serial && node.is_device(direction) {
                proof {
                    lemma_first_where_is(self@.nodes, keep, i as int);
                }
                return Some(node);
            }
            i += 1;
        }
        proof {
            lemma_first_where(self@.nodes, keep);
        }
        None
    }

    /// The device of a direction with the given name.
    pub fn device_with_name(&self, direction: Direction, name: &str) -> (r: Option<&AudioNode>)
        ensures
            opt_node(r) == self@.device_with_name(direction, name@),
    {
        let ghost keep = |n: NodeView| n.name == name@ && n.is_device(direction);
        let mut i: usize = 0;
        while i < self.nodes.len()
            invariant
                i <= self.nodes@.len(),
                keep == (|n: NodeView| n.name == name@ && n.is_device(direction)),
                forall|j: int| 0 <= j < i ==> !keep(#[trigger] self@.nodes[j]),
            decreases self.nodes@.len() - i,
        {
            let node = &self.nodes[i];
            assert(self@.nodes[i as int] == node@);
            if text::text_eq(node.name.as_str(), name) && node.is_device(direction) {
                proof {
                    lemma_first_where_is(self@.nodes, keep, i as int);
                }
                return Some(node);
            }
            i += 1;
        }
        proof {
            lemma_first_where(self@.nodes, keep);
        }
        None
    }

    /// The position of the first card with the given id.
    pub fn card_index(&self, id: u32) -> (r: Option<usize>)
        ensures
            match r {
                Some(i) => card_position(self@.cards, id) == Some(i as int) && i
                    < self.cards@.len(),
                None => card_position(self@.cards, id) is None,
            },
    {
        let ghost keep = |c: CardView| c.id == id;
        let mut i: usize = 0;
        while i < self.cards.len()
            invariant
                i <= self.cards@.len(),
                keep == (|c: CardView| c.id == id),
                forall|j: int| 0 <= j < i ==> !keep(#[trigger] self@.cards[j]),
            decreases self.cards@.len() - i,
        {
            if self.cards[i].id == id {
                proof {
                    assert(keep(self@.cards[i as int]));
                    lemma_first_where_is(self@.cards, keep, i as int);
                }
                return Some(i);
            }
            i += 1;
        }
        proof {
            lemma_first_where(self@.cards, keep);
        }
        None
    }

    /// The default device of a direction.
    pub fn default_device(&self, direction: Direction) -> (r: Option<&AudioNode>)
        ensures
            opt_node(r) == self@.default_device(direction),
    {
        match self.default_name(direction) {
            Some(name) => self.device_with_name(direction, name),
            None => None,
        }
    }
}

} // verus!
