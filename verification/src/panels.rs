//! What the panel shows: the rows of its tabs, the spectrogram's card, the header and the status bar.

use std::collections::HashMap;

use vstd::prelude::*;

use crate::app;
use crate::app::{AppView, SpectrumSource, VolumeApp};
use crate::backend::AudioBackend;
use crate::keys;
use crate::levels;
use crate::levels::{LevelService, LevelsView, NodeLevels, SpectrumSnapshot, SpectrumView};
use crate::model;
use crate::model::{
    AudioCard, AudioClass, AudioNode, AudioSnapshot, CardView, NodeView, ProfileView, SnapshotView,
    Tab,
};
use crate::routing;
use crate::text;

verus! {

broadcast use vstd::std_specs::hash::group_hash_axioms;

impl Tab {
    /// What stands below the title of the tab.
    pub open spec fn subtitle_text(self) -> Seq<char> {
        match self {
            Tab::Playback => "Apps sending audio to a sink."@,
            Tab::Recording => "Apps capturing audio from a source."@,
            Tab::Outputs => "Audio sinks — speakers, headphones, virtual outputs."@,
            Tab::Inputs => "Audio sources — microphones, line-in, virtual inputs."@,
            Tab::Configuration => "Cards, profiles, and ports."@,
        }
    }
}

/// What stands below the title of a tab.
pub fn tab_subtitle(tab: Tab) -> (r: &'static str)
    ensures
        r@ == tab.subtitle_text(),
{
    match tab {
        Tab::Playback => "Apps sending audio to a sink.",
        Tab::Recording => "Apps capturing audio from a source.",
        Tab::Outputs => "Audio sinks — speakers, headphones, virtual outputs.",
        Tab::Inputs => "Audio sources — microphones, line-in, virtual inputs.",
        Tab::Configuration => "Cards, profiles, and ports.",
    }
}

/// What a tab without rows says.
pub open spec fn empty_text(tab: Tab) -> Seq<char> {
    "No "@ + tab.label_text() + " streams or devices yet."@
}

/// What a tab without rows says.
pub fn empty_state(tab: Tab) -> (r: String)
    ensures
        r@ == empty_text(tab),
{
    text::join3("No ", tab.label(), " streams or devices yet.")
}

/// How a row shows where its node is routed.
#[derive(Debug, Clone)]
pub enum RowRoute {
    /// A target select, for a stream: its label, and whether the stream is pinned.
    Select { label: String, pinned: bool },
    /// The id and the target as plain text, for a device.
    Caption { caption: String },
}

/// The value of a [`RowRoute`].
#[verifier::ext_equal]
pub enum RouteView {
    Select { label: Seq<char>, pinned: bool },
    Caption { caption: Seq<char> },
}

impl View for RowRoute {
    type V = RouteView;

    open spec fn view(&self) -> RouteView {
        match *self {
            RowRoute::Select { label, pinned } => RouteView::Select { label: label@, pinned },
            RowRoute::Caption { caption } => RouteView::Caption { caption: caption@ },
        }
    }
}

/// What a row has in the place for the default device.
#[derive(Debug, Clone, Copy, PartialEq, Eq, Structural)]
pub enum DefaultSlot {
    /// Nothing: the node is no device.
    Nothing,
    /// That the device is the default.
    Indicator,
    /// A button that makes the device the default.
    SetDefault,
}

/// The row of a node.
#[derive(Debug, Clone)]
pub struct NodeRow {
    pub id: u32,
    pub title: String,
    /// The volume in percent.
    pub volume: u32,
    pub muted: bool,
    pub levels: Option<NodeLevels>,
    pub route: RowRoute,
    pub default_slot: DefaultSlot,
}

/// The value of a [`NodeRow`].
#[verifier::ext_equal]
pub struct RowView {
    pub id: u32,
    pub title: Seq<char>,
    pub volume: u32,
    pub muted: bool,
    pub levels: Option<LevelsView>,
    pub route: RouteView,
    pub default_slot: DefaultSlot,
}

/// The value of optional levels.
pub open spec fn opt_levels(levels: Option<NodeLevels>) -> Option<LevelsView> {
    match levels {
        Some(levels) => Some(levels@),
        None => None,
    }
}

impl View for NodeRow {
    type V = RowView;

    open spec fn view(&self) -> RowView {
        RowView {
            id: self.id,
            title: self.title@,
            volume: self.volume,
            muted: self.muted,
            levels: opt_levels(self.levels),
            route: self.route@,
            default_slot: self.default_slot,
        }
    }
}

/// The values of rows.
pub open spec fn row_views(rows: Seq<NodeRow>) -> Seq<RowView> {
    rows.map_values(|r: NodeRow| r@)
}

/// The id of an object as its row shows it.
pub open spec fn id_text(id: u32) -> Seq<char> {
    "#"@ + text::decimal(id as nat)
}

/// Writes the id of an object as its row shows it.
pub fn id_label(id: u32) -> (r: String)
    ensures
        r@ == id_text(id),
{
    let number = text::to_decimal(id as u64);
    text::join2("#", number.as_str())
}

/// The text of a volume.
pub open spec fn percent_text(percent: u32) -> Seq<char> {
    text::decimal(percent as nat) + "%"@
}

/// Writes a volume.
pub fn percent_label(percent: u32) -> (r: String)
    ensures
        r@ == percent_text(percent),
{
    let number = text::to_decimal(percent as u64);
    text::join2(number.as_str(), "%")
}

/// The id and the target of a device as its row shows them.
pub open spec fn caption_of(node: NodeView) -> Seq<char> {
    id_text(node.id) + "  "@ + match node.target {
        Some(target) => target,
        None => "No route"@,
    }
}

impl AppView {
    /// How the row of a node shows where it is routed.
    pub open spec fn route_of(self, node: NodeView) -> RouteView {
        if node.class is Stream {
            let target = routing::target_of(self.graph, node, self.target_overrides);
            RouteView::Select { label: routing::label_of(target), pinned: !target.following }
        } else {
            RouteView::Caption { caption: caption_of(node) }
        }
    }

    /// The row of a node.
    pub open spec fn row_of(self, node: NodeView) -> RowView {
        RowView {
            id: node.id,
            title: node.title(),
            volume: self.percent_of(node),
            muted: self.mute_of(node),
            levels: if self.levels.levels.contains_key(node.id) {
                Some(self.levels.levels[node.id])
            } else {
                None
            },
            route: self.route_of(node),
            default_slot: if !(node.class is Device) {
                DefaultSlot::Nothing
            } else if self.graph.is_default(node) {
                DefaultSlot::Indicator
            } else {
                DefaultSlot::SetDefault
            },
        }
    }

    /// The panel once the row of a node is made: what the server has confirmed for it is dropped.
    pub open spec fn with_settled(self, node: NodeView) -> AppView {
        self.with_settled_target(self.graph, node).with_settled_volume(node).with_settled_mute(
            node,
        )
    }

    /// The panel once the rows of nodes are made.
    pub open spec fn with_all_settled(self, nodes: Seq<NodeView>) -> AppView
        decreases nodes.len(),
    {
        if nodes.len() == 0 {
            self
        } else {
            self.with_all_settled(nodes.drop_last()).with_settled(nodes.last())
        }
    }

    /// The rows of nodes, made one after the other.
    pub open spec fn rows_of(self, nodes: Seq<NodeView>) -> Seq<RowView> {
        Seq::new(
            nodes.len(),
            |i: int| self.with_all_settled(nodes.take(i)).row_of(nodes[i]),
        )
    }
}

fn route_row(
    snapshot: &AudioSnapshot,
    node: &AudioNode,
    targets: &mut HashMap<u32, Option<u64>>,
) -> (r: RowRoute)
    ensures
        r@ == if node@.class is Stream {
            let target = routing::target_of(snapshot@, node@, old(targets)@);
            RouteView::Select { label: routing::label_of(target), pinned: !target.following }
        } else {
            RouteView::Caption { caption: caption_of(node@) }
        },
        final(targets)@ == routing::settled_picks(snapshot@, node@, old(targets)@),
{
    match &node.class {
        AudioClass::Stream { .. } => {
            let resolved = routing::resolve_target(snapshot, node, targets);
            RowRoute::Select {
                label: routing::format_target_label(&resolved),
                pinned: !resolved.following,
            }
        },
        _ => {
            let id = id_label(node.id);
            let target = match &node.target {
                Some(target) => target.as_str(),
                None => "No route",
            };
            RowRoute::Caption { caption: text::join3(id.as_str(), "  ", target) }
        },
    }
}

fn default_slot(snapshot: &AudioSnapshot, node: &AudioNode) -> (r: DefaultSlot)
    ensures
        r == if !(node@.class is Device) {
            DefaultSlot::Nothing
        } else if snapshot@.is_default(node@) {
            DefaultSlot::Indicator
        } else {
            DefaultSlot::SetDefault
        },
{
    match &node.class {
        AudioClass::Device { .. } => if snapshot.is_default(node) {
            DefaultSlot::Indicator
        } else {
            DefaultSlot::SetDefault
        },
        _ => DefaultSlot::Nothing,
    }
}

impl<B: AudioBackend> VolumeApp<B> {
    /// The rows of the active tab, unless it is that of the cards; what the server has confirmed is
    /// dropped.
    pub fn node_rows(&mut self) -> (r: Vec<NodeRow>)
        ensures
            row_views(r@) == old(self)@.rows_of(
                old(self)@.graph.nodes_for_tab(old(self)@.active_tab),
            ),
            final(self)@ == old(self)@.with_all_settled(
                old(self)@.graph.nodes_for_tab(old(self)@.active_tab),
            ),
            final(self).backend == old(self).backend,
            final(self).meter_plan == old(self).meter_plan,
    {
        let ghost before = self@;
        let ghost all = before.graph.nodes_for_tab(before.active_tab);
        let nodes = self.snapshot.nodes_for_tab(self.active_tab);
        let mut r: Vec<NodeRow> = Vec::new();
        assert(row_views(r@) =~= before.rows_of(all).take(0));
        assert(before.with_all_settled(all.take(0)) == before);
        let mut i: usize = 0;
        while i < nodes.len()
            invariant
                i <= nodes@.len(),
                all == model::node_ref_views(nodes@),
                before == old(self)@,
                self.backend == old(self).backend,
                self.meter_plan == old(self).meter_plan,
                self@ == before.with_all_settled(all.take(i as int)),
                self@.graph == before.graph,
                row_views(r@) == before.rows_of(all).take(i as int),
            decreases nodes@.len() - i,
        {
            let node = nodes[i];
            let ghost now = self@;
            let ghost made = r@;
            let route = route_row(&self.snapshot, node, &mut self.target_overrides);
            let volume = app::settle_volume(&mut self.volume_overrides, node);
            let muted = app::settle_mute(&mut self.mute_overrides, node);
            let row = NodeRow {
                id: node.id,
                title: node.title().to_owned(),
                volume,
                muted,
                levels: self.levels.level_for(node.id),
                route,
                default_slot: default_slot(&self.snapshot, node),
            };
            proof {
                assert(all[i as int] == node@);
                assert(row@ == now.row_of(node@));
                assert(all.take(i + 1).drop_last() =~= all.take(i as int));
                assert(all.take(i + 1).last() == node@);
            }
            r.push(row);
            proof {
                assert(row_views(r@) =~= row_views(made).push(row@));
                assert(before.rows_of(all).take(i + 1) =~= before.rows_of(all).take(i as int).push(
                    before.rows_of(all)[i as int],
                ));
            }
            i += 1;
        }
        assert(all.take(i as int) =~= all);
        assert(before.rows_of(all).take(i as int) =~= before.rows_of(all));
        r
    }
}

/// What the configuration tab says without cards.
pub const NO_CARDS: &'static str = "No PipeWire cards discovered yet.";

/// What a card's row says in place of a select before any profile is known.
pub const NO_PROFILES: &'static str = "No profiles enumerated yet.";

/// The row of a card.
#[derive(Debug, Clone)]
pub struct CardRow {
    pub id: u32,
    pub title: String,
    pub caption: String,
    /// The label of the profile select; without profiles there is no select.
    pub profile: Option<String>,
}

/// The value of a [`CardRow`].
#[verifier::ext_equal]
pub struct CardRowView {
    pub id: u32,
    pub title: Seq<char>,
    pub caption: Seq<char>,
    pub profile: Option<Seq<char>>,
}

impl View for CardRow {
    type V = CardRowView;

    open spec fn view(&self) -> CardRowView {
        CardRowView {
            id: self.id,
            title: self.title@,
            caption: self.caption@,
            profile: text::opt_text(self.profile),
        }
    }
}

/// The values of card rows.
pub open spec fn card_row_views(rows: Seq<CardRow>) -> Seq<CardRowView> {
    rows.map_values(|r: CardRow| r@)
}

/// What a card's profile select says: the profile with the active index.
pub open spec fn profile_label(profiles: Seq<ProfileView>, active: Option<u32>) -> Seq<char> {
    match active {
        Some(index) => match model::first_where(profiles, |p: ProfileView| p.index == index) {
            Some(i) => profiles[i].description,
            None => "No active profile"@,
        },
        None => "No active profile"@,
    }
}

/// The row of a card with the given active profile.
pub open spec fn card_row_of(card: CardView, active: Option<u32>) -> CardRowView {
    CardRowView {
        id: card.id,
        title: card.description,
        caption: id_text(card.id) + "  "@ + card.name,
        profile: if card.profiles.len() == 0 {
            None
        } else {
            Some(profile_label(card.profiles, active))
        },
    }
}

impl AppView {
    /// The panel once the rows of cards are made: the profiles that the server has confirmed are
    /// dropped.
    pub open spec fn with_settled_cards(self, cards: Seq<CardView>) -> AppView
        decreases cards.len(),
    {
        if cards.len() == 0 {
            self
        } else {
            self.with_settled_cards(cards.drop_last()).with_settled_profile(cards.last())
        }
    }

    /// The rows of the cards, made one after the other.
    pub open spec fn card_rows(self) -> Seq<CardRowView> {
        Seq::new(
            self.graph.cards.len(),
            |i: int|
                card_row_of(
                    self.graph.cards[i],
                    self.with_settled_cards(self.graph.cards.take(i)).profile_of(
                        self.graph.cards[i],
                    ),
                ),
        )
    }
}

fn active_label(card: &AudioCard, active: Option<u32>) -> (r: &str)
    ensures
        r@ == profile_label(card@.profiles, active),
{
    let index: u32 = match active {
        Some(index) => index,
        None => return "No active profile",
    };
    let ghost all = card@.profiles;
    let ghost same = |p: ProfileView| p.index == index;
    let mut i: usize = 0;
    while i < card.profiles.len()
        invariant
            i <= card.profiles@.len(),
            all == card@.profiles,
            active == Some(index),
            same == (|p: ProfileView| p.index == index),
            forall|j: int| 0 <= j < i ==> !same(#[trigger] all[j]),
        decreases card.profiles@.len() - i,
    {
        if card.profiles[i].index == index {
            proof {
                assert(same(all[i as int]));
                model::lemma_first_where_is(all, same, i as int);
            }
            return card.profiles[i].description.as_str();
        }
        i += 1;
    }
    proof {
        model::lemma_first_where(all, same);
    }
    "No active profile"
}

/// Makes the row of a card.
pub fn card_row(card: &AudioCard, active: Option<u32>) -> (r: CardRow)
    ensures
        r@ == card_row_of(card@, active),
{
    let id = id_label(card.id);
    let profile = if card.profiles.len() == 0 {
        None
    } else {
        Some(active_label(card, active).to_owned())
    };
    CardRow {
        id: card.id,
        title: card.description.as_str().to_owned(),
        caption: text::join3(id.as_str(), "  ", card.name.as_str()),
        profile,
    }
}

impl<B: AudioBackend> VolumeApp<B> {
    /// The rows of the configuration tab; the profiles that the server has confirmed are dropped.
    pub fn card_rows(&mut self) -> (r: Vec<CardRow>)
        ensures
            card_row_views(r@) == old(self)@.card_rows(),
            final(self)@ == old(self)@.with_settled_cards(old(self)@.graph.cards),
            final(self).backend == old(self).backend,
            final(self).meter_plan == old(self).meter_plan,
    {
        let ghost before = self@;
        let ghost all = before.graph.cards;
        let mut r: Vec<CardRow> = Vec::new();
        assert(card_row_views(r@) =~= before.card_rows().take(0));
        assert(before.with_settled_cards(all.take(0)) == before);
        let mut i: usize = 0;
        while i < self.snapshot.cards.len()
            invariant
                i <= self.snapshot.cards@.len(),
                before == old(self)@,
                all == before.graph.cards,
                all.len() == self.snapshot.cards@.len(),
                self.backend == old(self).backend,
                self.meter_plan == old(self).meter_plan,
                self@ == before.with_settled_cards(all.take(i as int)),
                self@.graph == before.graph,
                card_row_views(r@) == before.card_rows().take(i as int),
            decreases self.snapshot.cards@.len() - i,
        {
            let ghost made = r@;
            let card = &self.snapshot.cards[i];
            let active = app::settle_profile(&mut self.profile_overrides, card);
            let row = card_row(card, active);
            proof {
                assert(all[i as int] == card@);
                assert(all.take(i + 1).drop_last() =~= all.take(i as int));
                assert(all.take(i + 1).last() == card@);
            }
            r.push(row);
            proof {
                assert(row@ == before.card_rows()[i as int]);
                assert(card_row_views(r@) =~= card_row_views(made).push(row@));
                assert(before.card_rows().take(i + 1) =~= before.card_rows().take(i as int).push(
                    before.card_rows()[i as int],
                ));
            }
            i += 1;
        }
        assert(all.take(i as int) =~= all);
        assert(before.card_rows().take(i as int) =~= before.card_rows());
        r
    }
}

/// The level of one channel, as a node's row shows it.
#[derive(Debug, Clone, Copy)]
pub struct MeterChannel {
    pub label: &'static str,
    pub peak: u32,
    pub rms: u32,
}

/// The value of a [`MeterChannel`].
#[verifier::ext_equal]
pub struct ChannelView {
    pub label: Seq<char>,
    pub peak: u32,
    pub rms: u32,
}

impl View for MeterChannel {
    type V = ChannelView;

    open spec fn view(&self) -> ChannelView {
        ChannelView { label: self.label@, peak: self.peak, rms: self.rms }
    }
}

/// The values of channels.
pub open spec fn channel_views(channels: Seq<MeterChannel>) -> Seq<ChannelView> {
    channels.map_values(|c: MeterChannel| c@)
}

/// The channels that a node's meter shows: one that stands for all, or left and right. Channels
/// beyond these are not shown, and without levels both are at zero.
pub open spec fn shown_channels(levels: Option<LevelsView>) -> Seq<ChannelView> {
    let (peaks, rms) = match levels {
        Some(levels) => (levels.peaks, levels.rms),
        None => (Seq::empty(), Seq::empty()),
    };
    let channel = |label: Seq<char>, i: int|
        ChannelView {
            label,
            peak: levels::entry_or_zero(peaks, i),
            rms: levels::entry_or_zero(rms, i),
        };
    if levels is Some && peaks.len() <= 1 && rms.len() <= 1 {
        seq![channel("M"@, 0)]
    } else {
        seq![channel("L"@, 0), channel("R"@, 1)]
    }
}

/// The channels that a node's meter shows.
pub fn activity_channels(levels: Option<&NodeLevels>) -> (r: Vec<MeterChannel>)
    ensures
        channel_views(r@) == shown_channels(
            match levels {
                Some(levels) => Some(levels@),
                None => None,
            },
        ),
{
    let mut r: Vec<MeterChannel> = Vec::new();
    match levels {
        Some(l) => {
            if l.channel_count() <= 1 {
                r.push(MeterChannel { label: "M", peak: l.peak(0), rms: l.rms(0) });
            } else {
                r.push(MeterChannel { label: "L", peak: l.peak(0), rms: l.rms(0) });
                r.push(MeterChannel { label: "R", peak: l.peak(1), rms: l.rms(1) });
            }
            assert(channel_views(r@) =~= shown_channels(Some(l@)));
        },
        None => {
            r.push(MeterChannel { label: "L", peak: 0, rms: 0 });
            r.push(MeterChannel { label: "R", peak: 0, rms: 0 });
            assert(channel_views(r@) =~= shown_channels(None));
        },
    }
    r
}

/// What the spectrum select says of its source. A node that is gone has given way to the default
/// output, and the select says so.
pub open spec fn trigger_label(source: SpectrumSource, resolved: Option<NodeView>) -> Seq<char> {
    match (source, resolved) {
        (SpectrumSource::DefaultOutput, Some(node)) => "Default → "@ + node.description,
        (SpectrumSource::DefaultOutput, None) => "Default Output"@,
        (SpectrumSource::Node(id), Some(node)) => if node.id == id {
            node.description
        } else {
            "Default Output"@
        },
        (SpectrumSource::Node(_), None) => "Unavailable"@,
    }
}

/// Says what the spectrogram listens to.
pub fn spectrum_trigger_label(source: SpectrumSource, resolved: Option<&AudioNode>) -> (r: String)
    ensures
        r@ == trigger_label(source, model::opt_node(resolved)),
{
    match (source, resolved) {
        (SpectrumSource::DefaultOutput, Some(node)) => text::join2(
            "Default → ",
            node.description.as_str(),
        ),
        (SpectrumSource::DefaultOutput, None) => "Default Output".to_owned(),
        (SpectrumSource::Node(id), Some(node)) => if node.id == id {
            node.description.as_str().to_owned()
        } else {
            "Default Output".to_owned()
        },
        (SpectrumSource::Node(_), None) => "Unavailable".to_owned(),
    }
}

/// What the spectrogram's card says.
#[derive(Debug, Clone)]
pub struct SpectrumCard {
    pub status: String,
    pub subtitle: String,
    pub trigger: String,
}

/// The value of a [`SpectrumCard`].
#[verifier::ext_equal]
pub struct SpectrumCardView {
    pub status: Seq<char>,
    pub subtitle: Seq<char>,
    pub trigger: Seq<char>,
}

impl View for SpectrumCard {
    type V = SpectrumCardView;

    open spec fn view(&self) -> SpectrumCardView {
        SpectrumCardView {
            status: self.status@,
            subtitle: self.subtitle@,
            trigger: self.trigger@,
        }
    }
}

/// What the spectrogram's card says, for the node that it listens to and what that node's meter
/// published.
pub open spec fn spectrum_card_of(
    node: Option<NodeView>,
    spectrum: Option<SpectrumView>,
    source: SpectrumSource,
) -> SpectrumCardView {
    SpectrumCardView {
        status: match (node, spectrum) {
            (Some(_), Some(spectrum)) => if spectrum.columns.len() > 0 {
                text::decimal(spectrum.sample_rate as nat) + " Hz"@
            } else {
                "Listening"@
            },
            (Some(_), None) => "Listening"@,
            (None, _) => "No source selected"@,
        },
        subtitle: match node {
            Some(node) => node.description,
            None => "Pick a source from the dropdown"@,
        },
        trigger: trigger_label(source, node),
    }
}

/// The value of an optional borrowed spectrum.
pub open spec fn opt_spectrum(spectrum: Option<&SpectrumSnapshot>) -> Option<SpectrumView> {
    match spectrum {
        Some(spectrum) => Some(spectrum@),
        None => None,
    }
}

/// Makes the spectrogram's card.
pub fn spectrum_card(
    node: Option<&AudioNode>,
    spectrum: Option<&SpectrumSnapshot>,
    source: SpectrumSource,
) -> (r: SpectrumCard)
    ensures
        r@ == spectrum_card_of(model::opt_node(node), opt_spectrum(spectrum), source),
{
    let status = match (node, spectrum) {
        (Some(_), Some(spectrum)) => if spectrum.columns.len() > 0 {
            let rate = text::to_decimal(spectrum.sample_rate as u64);
            text::join2(rate.as_str(), " Hz")
        } else {
            "Listening".to_owned()
        },
        (Some(_), None) => "Listening".to_owned(),
        (None, _) => "No source selected".to_owned(),
    };
    let subtitle = match node {
        Some(node) => node.description.as_str().to_owned(),
        None => "Pick a source from the dropdown".to_owned(),
    };
    SpectrumCard { status, subtitle, trigger: spectrum_trigger_label(source, node) }
}

/// A number with the word that goes with it.
pub open spec fn counted(n: nat, one: Seq<char>, many: Seq<char>) -> Seq<char> {
    text::decimal(n) + " "@ + if n == 1 {
        one
    } else {
        many
    }
}

/// Writes a number with the word that goes with it.
pub fn plural(n: usize, one: &str, many: &str) -> (r: String)
    ensures
        r@ == counted(n as nat, one@, many@),
{
    let number = text::to_decimal(n as u64);
    let word = if n == 1 {
        one
    } else {
        many
    };
    text::join3(number.as_str(), " ", word)
}

/// What the status bar says: what there is, and how the server is.
pub open spec fn status_of(graph: SnapshotView, meters: nat) -> (Seq<char>, Seq<char>) {
    (
        counted(graph.nodes.len(), "node"@, "nodes"@) + " · "@ + counted(
            graph.cards.len(),
            "card"@,
            "cards"@,
        ) + " · "@ + counted(meters, "meter"@, "meters"@),
        match graph.error {
            Some(error) => error,
            None => "Ready"@,
        },
    )
}

/// Makes the status bar.
pub fn status_bar(snapshot: &AudioSnapshot, meter_count: usize) -> (r: (String, String))
    ensures
        (r.0@, r.1@) == status_of(snapshot@, meter_count as nat),
{
    let nodes = plural(snapshot.nodes.len(), "node", "nodes");
    let cards = plural(snapshot.cards.len(), "card", "cards");
    let meters = plural(meter_count, "meter", "meters");
    let front = text::join3(nodes.as_str(), " · ", cards.as_str());
    let summary = text::join3(front.as_str(), " · ", meters.as_str());
    let message = match &snapshot.error {
        Some(error) => error.as_str().to_owned(),
        None => "Ready".to_owned(),
    };
    (summary, message)
}

/// What the header calls the server.
pub open spec fn server_text(graph: SnapshotView) -> Seq<char> {
    match graph.server_name {
        Some(name) => name,
        None => "PipeWire"@,
    }
}

/// What the header calls the server.
pub fn server_label(snapshot: &AudioSnapshot) -> (r: &str)
    ensures
        r@ == server_text(snapshot@),
{
    match &snapshot.server_name {
        Some(name) => name.as_str(),
        None => "PipeWire",
    }
}

/// Making a row drops what the server has confirmed, and that changes neither this row nor that of
/// another node.
pub proof fn lemma_making_a_row_is_invisible(panel: AppView, node: NodeView, other: NodeView)
    ensures
        panel.with_settled(node).row_of(node) == panel.row_of(node),
        other.id != node.id ==> panel.with_settled(node).row_of(other) == panel.row_of(other),
{
}

} // verus!
