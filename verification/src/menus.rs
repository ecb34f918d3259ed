//! The menus of the panel's selects: profiles of a card, target devices of a stream, sources of the
//! spectrogram.

use vstd::prelude::*;

use crate::app;
use crate::app::{
    AppView, SpectrumSource, VolumeApp, SPECTRUM_DEFAULT_VALUE, TARGET_DEFAULT_VALUE,
};
use crate::backend::AudioBackend;
use crate::keys;
use crate::model;
use crate::model::{
    AudioCard, AudioClass, AudioNode, AudioProfile, AudioSnapshot, CardView, ClassView, Direction,
    NodeView, ProfileAvailability, ProfileView, SnapshotView, Tab,
};
use crate::text;

verus! {

/// An open menu: the key of its select, and the value and label of each option.
#[derive(Debug, Clone)]
pub struct SelectMenu {
    pub key: String,
    pub options: Vec<(String, String)>,
}

/// The value of a [`SelectMenu`].
#[verifier::ext_equal]
pub struct MenuView {
    pub key: Seq<char>,
    pub options: Seq<(Seq<char>, Seq<char>)>,
}

impl View for SelectMenu {
    type V = MenuView;

    open spec fn view(&self) -> MenuView {
        MenuView { key: self.key@, options: text::pair_views(self.options@) }
    }
}

/// The value of an optional menu.
pub open spec fn opt_menu(menu: Option<SelectMenu>) -> Option<MenuView> {
    match menu {
        Some(menu) => Some(menu@),
        None => None,
    }
}

/// The option of a profile. A profile that cannot be used says so.
pub open spec fn profile_option(profile: ProfileView) -> (Seq<char>, Seq<char>) {
    (
        text::decimal(profile.index as nat),
        if profile.available == ProfileAvailability::No {
            profile.description + " · unavailable"@
        } else {
            profile.description
        },
    )
}

/// The options of a card's profile menu.
pub open spec fn profile_options(profiles: Seq<ProfileView>) -> Seq<(Seq<char>, Seq<char>)> {
    profiles.map_values(|p: ProfileView| profile_option(p))
}

/// The devices of a direction.
pub open spec fn devices_of(graph: SnapshotView, direction: Direction) -> Seq<NodeView> {
    graph.nodes.filter(|n: NodeView| n.is_device(direction))
}

/// What the option for the default device says: where a stream would go with it.
pub open spec fn default_label(graph: SnapshotView, direction: Direction) -> Seq<char> {
    match graph.default_device(direction) {
        Some(device) => "Default — "@ + device.description,
        None => "Default — automatic"@,
    }
}

/// The options of a stream's target menu: the default device, and every device of the stream's
/// direction.
pub open spec fn target_options(graph: SnapshotView, direction: Direction) -> Seq<
    (Seq<char>, Seq<char>),
> {
    seq![(TARGET_DEFAULT_VALUE@, default_label(graph, direction))] + devices_of(
        graph,
        direction,
    ).map_values(|n: NodeView| (text::decimal(n.serial as nat), n.description))
}

/// The place of a class among the sources of the spectrogram: outputs, what plays on them, inputs,
/// and what records from them.
pub open spec fn class_rank(class: ClassView) -> int {
    match class {
        ClassView::Device { direction: Direction::Output } => 0,
        ClassView::Stream { direction: Direction::Output } => 1,
        ClassView::Device { direction: Direction::Input } => 2,
        ClassView::Stream { direction: Direction::Input } => 3,
        _ => 4,
    }
}

/// What the sources of a class are called.
pub open spec fn class_title(class: ClassView) -> Seq<char> {
    match class {
        ClassView::Device { direction: Direction::Output } => "Output"@,
        ClassView::Stream { direction: Direction::Output } => "Playback"@,
        ClassView::Device { direction: Direction::Input } => "Input"@,
        ClassView::Stream { direction: Direction::Input } => "Recording"@,
        _ => "Other"@,
    }
}

impl NodeView {
    /// Whether the node is a device or a stream.
    pub open spec fn can_be_source(self) -> bool {
        self.class is Device || self.class is Stream
    }

    /// What the node is called: by its application, by what it plays, or by its description.
    pub open spec fn title(self) -> Seq<char> {
        match (self.application, self.media_name) {
            (Some(application), _) => application,
            (None, Some(media_name)) => media_name,
            (None, None) => self.description,
        }
    }

    /// Whether the node is listed before another among the sources of the spectrogram: by its
    /// class, and within a class by its description.
    pub open spec fn goes_before(self, other: NodeView) -> bool {
        class_rank(self.class) < class_rank(other.class) || (class_rank(self.class) == class_rank(
            other.class,
        ) && text::text_before(self.description, other.description))
    }
}

/// A list in order with one more node, behind those that it does not go before.
pub open spec fn placed(list: Seq<NodeView>, node: NodeView) -> Seq<NodeView> {
    match model::first_where(list, |other: NodeView| node.goes_before(other)) {
        Some(i) => list.insert(i, node),
        None => list.push(node),
    }
}

/// Nodes in the order of the sources of the spectrogram. Those with the same place keep their order.
pub open spec fn in_order(nodes: Seq<NodeView>) -> Seq<NodeView>
    decreases nodes.len(),
{
    if nodes.len() == 0 {
        Seq::empty()
    } else {
        placed(in_order(nodes.drop_last()), nodes.last())
    }
}

/// The option of a source of the spectrogram.
pub open spec fn source_option(node: NodeView) -> (Seq<char>, Seq<char>) {
    (text::decimal(node.id as nat), class_title(node.class) + " · "@ + node.title())
}

/// The options of the spectrum menu: the default output, and every device and stream.
pub open spec fn source_options(graph: SnapshotView) -> Seq<(Seq<char>, Seq<char>)> {
    seq![(SPECTRUM_DEFAULT_VALUE@, "Default Output"@)] + in_order(
        graph.nodes.filter(|n: NodeView| n.can_be_source()),
    ).map_values(|n: NodeView| source_option(n))
}

impl AppView {
    /// The open profile menu. Only the configuration tab shows one.
    pub open spec fn profile_menu(self) -> Option<MenuView> {
        match self.profile_dropdown_open {
            Some(id) => match model::card_position(self.graph.cards, id) {
                Some(i) => if self.active_tab == Tab::Configuration {
                    Some(
                        MenuView {
                            key: keys::key_of("profile:"@, id),
                            options: profile_options(self.graph.cards[i].profiles),
                        },
                    )
                } else {
                    None
                },
                None => None,
            },
            None => None,
        }
    }

    /// The open target menu. Only the tabs with streams show one.
    pub open spec fn target_menu(self) -> Option<MenuView> {
        match self.target_dropdown_open {
            Some(id) => match self.graph.node_with_id(id) {
                Some(stream) => match stream.class {
                    ClassView::Stream { direction } => if self.active_tab == Tab::Playback
                        || self.active_tab == Tab::Recording {
                        Some(
                            MenuView {
                                key: keys::key_of("target:"@, id),
                                options: target_options(self.graph, direction),
                            },
                        )
                    } else {
                        None
                    },
                    _ => None,
                },
                None => None,
            },
            None => None,
        }
    }

    /// The open spectrum menu. Every tab shows it.
    pub open spec fn spectrum_menu(self) -> Option<MenuView> {
        if self.spectrum_dropdown_open {
            Some(MenuView { key: "spectrum"@, options: source_options(self.graph) })
        } else {
            None
        }
    }
}

fn option_for_profile(profile: &AudioProfile) -> (r: (String, String))
    ensures
        (r.0@, r.1@) == profile_option(profile@),
{
    let label = match profile.available {
        ProfileAvailability::No => text::join2(profile.description.as_str(), " · unavailable"),
        _ => profile.description.as_str().to_owned(),
    };
    (text::to_decimal(profile.index as u64), label)
}

fn options_for_profiles(profiles: &Vec<AudioProfile>) -> (r: Vec<(String, String)>)
    ensures
        text::pair_views(r@) == profile_options(model::profile_views(profiles@)),
{
    let ghost all = model::profile_views(profiles@);
    let mut r: Vec<(String, String)> = Vec::new();
    let mut i: usize = 0;
    while i < profiles.len()
        invariant
            i <= profiles@.len(),
            all == model::profile_views(profiles@),
            text::pair_views(r@) =~= profile_options(all).take(i as int),
        decreases profiles@.len() - i,
    {
        let ghost before = r@;
        let option = option_for_profile(&profiles[i]);
        r.push(option);
        assert(text::pair_views(r@) =~= text::pair_views(before).push(profile_options(all)[i as int]));
        i += 1;
    }
    assert(text::pair_views(r@) =~= profile_options(all));
    r
}

/// The options of a stream's target menu.
pub fn target_device_options(snapshot: &AudioSnapshot, direction: Direction) -> (r: Vec<
    (String, String),
>)
    ensures
        text::pair_views(r@) == target_options(snapshot@, direction),
{
    let ghost keep = |n: NodeView| n.is_device(direction);
    let ghost option = |n: NodeView| (text::decimal(n.serial as nat), n.description);
    let ghost all = snapshot@.nodes;
    let ghost first = (TARGET_DEFAULT_VALUE@, default_label(snapshot@, direction));
    let label = match snapshot.default_device(direction) {
        Some(device) => text::join2("Default — ", device.description.as_str()),
        None => "Default — automatic".to_owned(),
    };
    let mut r: Vec<(String, String)> = Vec::new();
    r.push((TARGET_DEFAULT_VALUE.to_owned(), label));
    proof {
        reveal(Seq::filter);
        assert(all.take(0).filter(keep) =~= Seq::empty());
        assert(text::pair_views(r@) =~= seq![first] + all.take(0).filter(keep).map_values(option));
    }
    let mut i: usize = 0;
    while i < snapshot.nodes.len()
        invariant
            i <= snapshot.nodes@.len(),
            all == snapshot@.nodes,
            all.len() == snapshot.nodes@.len(),
            keep == (|n: NodeView| n.is_device(direction)),
            option == (|n: NodeView| (text::decimal(n.serial as nat), n.description)),
            text::pair_views(r@) == seq![first] + all.take(i as int).filter(keep).map_values(
                option,
            ),
        decreases snapshot.nodes@.len() - i,
    {
        let node = &snapshot.nodes[i];
        let ghost before = text::pair_views(r@);
        let ghost kept = all.take(i as int).filter(keep);
        proof {
            reveal(Seq::filter);
            assert(all.take(i + 1).drop_last() =~= all.take(i as int));
            assert(all.take(i + 1).last() == node@);
        }
        if node.is_device(direction) {
            r.push((text::to_decimal(node.serial), node.description.as_str().to_owned()));
            proof {
                assert(kept.push(node@).map_values(option) =~= kept.map_values(option).push(
                    option(node@),
                ));
                assert(text::pair_views(r@) =~= before.push(option(node@)));
                assert(text::pair_views(r@) =~= seq![first] + kept.push(node@).map_values(option));
            }
        }
        i += 1;
    }
    assert(all.take(i as int) =~= all);
    r
}

fn rank(class: &AudioClass) -> (r: u8)
    ensures
        r == class_rank(class@),
{
    match class {
        AudioClass::Device { direction: Direction::Output } => 0,
        AudioClass::Stream { direction: Direction::Output } => 1,
        AudioClass::Device { direction: Direction::Input } => 2,
        AudioClass::Stream { direction: Direction::Input } => 3,
        _ => 4,
    }
}

fn class_name(class: &AudioClass) -> (r: &'static str)
    ensures
        r@ == class_title(class@),
{
    match class {
        AudioClass::Device { direction: Direction::Output } => "Output",
        AudioClass::Stream { direction: Direction::Output } => "Playback",
        AudioClass::Device { direction: Direction::Input } => "Input",
        AudioClass::Stream { direction: Direction::Input } => "Recording",
        _ => "Other",
    }
}

impl AudioNode {
    /// What the node is called.
    pub fn title(&self) -> (r: &str)
        ensures
            r@ == self@.title(),
    {
        match (&self.application, &self.media_name) {
            (Some(application), _) => application.as_str(),
            (None, Some(media_name)) => media_name.as_str(),
            (None, None) => self.description.as_str(),
        }
    }

    fn goes_before(&self, other: &AudioNode) -> (r: bool)
        ensures
            r == self@.goes_before(other@),
    {
        let mine: u8 = rank(&self.class);
        let theirs: u8 = rank(&other.class);
        mine < theirs || (mine == theirs && text::is_before(
            self.description.as_str(),
            other.description.as_str(),
        ))
    }
}

/// Puts a node in its place among nodes in order.
fn place<'a>(list: &mut Vec<&'a AudioNode>, node: &'a AudioNode)
    ensures
        model::node_ref_views(final(list)@) == placed(model::node_ref_views(old(list)@), node@),
{
    let ghost all = model::node_ref_views(list@);
    let ghost behind = |other: NodeView| node@.goes_before(other);
    let mut i: usize = 0;
    while i < list.len()
        invariant
            i <= list@.len(),
            all == model::node_ref_views(list@),
            list@ == old(list)@,
            behind == (|other: NodeView| node@.goes_before(other)),
            forall|j: int| 0 <= j < i ==> !behind(#[trigger] all[j]),
        decreases list@.len() - i,
    {
        if node.goes_before(list[i]) {
            proof {
                assert(behind(all[i as int]));
                model::lemma_first_where_is(all, behind, i as int);
            }
            list.insert(i, node);
            assert(model::node_ref_views(list@) =~= all.insert(i as int, node@));
            return ;
        }
        i += 1;
    }
    proof {
        model::lemma_first_where(all, behind);
    }
    list.push(node);
    assert(model::node_ref_views(list@) =~= all.push(node@));
}

/// The devices and streams of a graph, in the order of the spectrum menu.
fn sources(snapshot: &AudioSnapshot) -> (r: Vec<&AudioNode>)
    ensures
        model::node_ref_views(r@) == in_order(
            snapshot@.nodes.filter(|n: NodeView| n.can_be_source()),
        ),
{
    let ghost keep = |n: NodeView| n.can_be_source();
    let ghost all = snapshot@.nodes;
    let mut r: Vec<&AudioNode> = Vec::new();
    proof {
        reveal(Seq::filter);
        assert(all.take(0).filter(keep) =~= Seq::empty());
        assert(model::node_ref_views(r@) =~= Seq::empty());
    }
    let mut i: usize = 0;
    while i < snapshot.nodes.len()
        invariant
            i <= snapshot.nodes@.len(),
            all == snapshot@.nodes,
            all.len() == snapshot.nodes@.len(),
            keep == (|n: NodeView| n.can_be_source()),
            model::node_ref_views(r@) == in_order(all.take(i as int).filter(keep)),
        decreases snapshot.nodes@.len() - i,
    {
        let node = &snapshot.nodes[i];
        let ghost kept = all.take(i as int).filter(keep);
        proof {
            reveal(Seq::filter);
            assert(all.take(i + 1).drop_last() =~= all.take(i as int));
            assert(all.take(i + 1).last() == node@);
            assert(kept.push(node@).drop_last() =~= kept);
        }
        match &node.class {
            AudioClass::Device { .. } | AudioClass::Stream { .. } => {
                place(&mut r, node);
            },
            _ => {},
        }
        i += 1;
    }
    assert(all.take(i as int) =~= all);
    r
}

/// The options of the spectrum menu.
pub fn spectrum_source_options(snapshot: &AudioSnapshot) -> (r: Vec<(String, String)>)
    ensures
        text::pair_views(r@) == source_options(snapshot@),
{
    let nodes = sources(snapshot);
    let ghost all = model::node_ref_views(nodes@);
    let ghost first = (SPECTRUM_DEFAULT_VALUE@, "Default Output"@);
    let mut r: Vec<(String, String)> = Vec::new();
    r.push((SPECTRUM_DEFAULT_VALUE.to_owned(), "Default Output".to_owned()));
    let ghost options = source_options(snapshot@);
    assert(options =~= seq![first] + all.map_values(|n: NodeView| source_option(n)));
    assert(text::pair_views(r@) =~= options.take(1));
    let mut i: usize = 0;
    while i < nodes.len()
        invariant
            i <= nodes@.len(),
            all == model::node_ref_views(nodes@),
            options == seq![first] + all.map_values(|n: NodeView| source_option(n)),
            text::pair_views(r@) =~= options.take(1 + i as int),
        decreases nodes@.len() - i,
    {
        let node = nodes[i];
        let ghost before = r@;
        assert(all[i as int] == node@);
        let label = text::join3(class_name(&node.class), " · ", node.title());
        r.push((text::to_decimal(node.id as u64), label));
        proof {
            assert(options[1 + i as int] == source_option(node@));
            assert(text::pair_views(r@) =~= text::pair_views(before).push(source_option(node@)));
            assert(options.take(2 + i as int) =~= options.take(1 + i as int).push(
                source_option(node@),
            ));
        }
        i += 1;
    }
    assert(options.take(options.len() as int) =~= options);
    r
}

impl<B: AudioBackend> VolumeApp<B> {
    /// The open profile menu.
    pub fn profile_menu(&self) -> (r: Option<SelectMenu>)
        ensures
            opt_menu(r) == self@.profile_menu(),
    {
        if self.active_tab != Tab::Configuration {
            return None;
        }
        match self.profile_dropdown_open {
            Some(id) => match self.snapshot.card_index(id) {
                Some(i) => Some(
                    SelectMenu {
                        key: keys::indexed("profile:", id),
                        options: options_for_profiles(&self.snapshot.cards[i].profiles),
                    },
                ),
                None => None,
            },
            None => None,
        }
    }

    /// The open target menu.
    pub fn target_menu(&self) -> (r: Option<SelectMenu>)
        ensures
            opt_menu(r) == self@.target_menu(),
    {
        if self.active_tab != Tab::Playback && self.active_tab != Tab::Recording {
            return None;
        }
        match self.target_dropdown_open {
            Some(id) => match self.snapshot.node_with_id(id) {
                Some(stream) => match &stream.class {
                    AudioClass::Stream { direction } => Some(
                        SelectMenu {
                            key: keys::indexed("target:", id),
                            options: target_device_options(&self.snapshot, *direction),
                        },
                    ),
                    _ => None,
                },
                None => None,
            },
            None => None,
        }
    }

    /// The open spectrum menu.
    pub fn spectrum_menu(&self) -> (r: Option<SelectMenu>)
        ensures
            opt_menu(r) == self@.spectrum_menu(),
    {
        if self.spectrum_dropdown_open {
            Some(
                SelectMenu {
                    key: "spectrum".to_owned(),
                    options: spectrum_source_options(&self.snapshot),
                },
            )
        } else {
            None
        }
    }
}

proof fn lemma_goes_before(a: NodeView, b: NodeView, c: NodeView)
    ensures
        !(a.goes_before(b) && b.goes_before(a)),
        a.goes_before(b) && b.goes_before(c) ==> a.goes_before(c),
        tied(a, b) ==> a.goes_before(c) == b.goes_before(c) && c.goes_before(a) == c.goes_before(b),
{
    text::lemma_text_before_total(a.description, b.description);
    if text::text_before(a.description, b.description) && text::text_before(
        b.description,
        c.description,
    ) {
        text::lemma_text_before_transitive(a.description, b.description, c.description);
    }
}

/// Whether two nodes have the same place among the sources of the spectrogram.
pub open spec fn tied(a: NodeView, b: NodeView) -> bool {
    !a.goes_before(b) && !b.goes_before(a)
}

/// The sources are listed in order: none stands behind one that it goes before.
pub proof fn lemma_sources_are_in_order(nodes: Seq<NodeView>)
    ensures
        forall|i: int, j: int|
            0 <= i < j < in_order(nodes).len() ==> !(#[trigger] in_order(nodes)[j]).goes_before(
                #[trigger] in_order(nodes)[i],
            ),
    decreases nodes.len(),
{
    if nodes.len() > 0 {
        let list = in_order(nodes.drop_last());
        let node = nodes.last();
        let behind = |other: NodeView| node.goes_before(other);
        let r = in_order(nodes);
        lemma_sources_are_in_order(nodes.drop_last());
        model::lemma_first_where(list, behind);
        let at = match model::first_where(list, behind) {
            Some(i) => i,
            None => list.len() as int,
        };
        assert(r =~= list.insert(at, node));
        assert forall|i: int, j: int| 0 <= i < j < r.len() implies !(#[trigger] r[j]).goes_before(
            #[trigger] r[i],
        ) by {
            if i == at {
                let other = list[j - 1];
                lemma_goes_before(other, node, list[at]);
                lemma_goes_before(node, list[at], other);
                assert(behind(list[at]));
                if j - 1 > at {
                    assert(!list[j - 1].goes_before(list[at]));
                }
            } else if j == at {
                assert(!behind(list[i]));
            }
        }
    }
}

/// Every device and stream is listed, and nothing else.
pub proof fn lemma_no_source_is_lost(nodes: Seq<NodeView>)
    ensures
        in_order(nodes).to_multiset() == nodes.to_multiset(),
    decreases nodes.len(),
{
    broadcast use vstd::seq_lib::group_to_multiset_ensures;

    if nodes.len() > 0 {
        let list = in_order(nodes.drop_last());
        let node = nodes.last();
        let behind = |other: NodeView| node.goes_before(other);
        lemma_no_source_is_lost(nodes.drop_last());
        model::lemma_first_where(list, behind);
        assert(nodes =~= nodes.drop_last().push(node));
        match model::first_where(list, behind) {
            Some(i) => {
                vstd::seq_lib::to_multiset_insert(list, i, node);
            },
            None => {},
        }
    }
}

/// Sources with the same place are listed in the order of the graph.
pub proof fn lemma_ties_keep_their_order(nodes: Seq<NodeView>, like: NodeView)
    ensures
        in_order(nodes).filter(|n: NodeView| tied(n, like)) == nodes.filter(
            |n: NodeView| tied(n, like),
        ),
    decreases nodes.len(),
{
    let same = |n: NodeView| tied(n, like);
    reveal(Seq::filter);
    if nodes.len() > 0 {
        let list = in_order(nodes.drop_last());
        let node = nodes.last();
        let behind = |other: NodeView| node.goes_before(other);
        lemma_ties_keep_their_order(nodes.drop_last(), like);
        lemma_sources_are_in_order(nodes.drop_last());
        model::lemma_first_where(list, behind);
        let at = match model::first_where(list, behind) {
            Some(i) => i,
            None => list.len() as int,
        };
        let front = list.take(at);
        let back = list.skip(at);
        assert(list =~= front + back);
        assert(in_order(nodes) =~= front.push(node) + back);
        Seq::filter_distributes_over_add(front, back, same);
        Seq::filter_distributes_over_add(front.push(node), back, same);
        assert(front.push(node).drop_last() =~= front);
        if same(node) {
            assert forall|k: int| 0 <= k < back.len() implies !same(#[trigger] back[k]) by {
                assert(back[k] == list[at + k]);
                assert(behind(list[at]));
                if k > 0 {
                    assert(!list[at + k].goes_before(list[at]));
                }
                lemma_goes_before(back[k], node, list[at]);
                lemma_goes_before(node, like, back[k]);
                lemma_goes_before(back[k], like, list[at]);
                lemma_goes_before(node, back[k], list[at]);
                lemma_goes_before(back[k], like, node);
            }
            lemma_filter_none(back, same);
            assert(back.filter(same) =~= Seq::empty());
            assert(in_order(nodes).filter(same) =~= list.filter(same).push(node));
        } else {
            assert(in_order(nodes).filter(same) =~= list.filter(same));
        }
    }
}

proof fn lemma_filter_none<T>(s: Seq<T>, keep: spec_fn(T) -> bool)
    requires
        forall|k: int| 0 <= k < s.len() ==> !keep(#[trigger] s[k]),
    ensures
        s.filter(keep).len() == 0,
    decreases s.len(),
{
    reveal(Seq::filter);
    if s.len() > 0 {
        lemma_filter_none(s.drop_last(), keep);
        assert(!keep(s[s.len() - 1]));
    }
}

/// Every option of a target menu is read back as what it stands for: the default device, or the
/// device with the serial.
pub proof fn lemma_target_options_are_read_back(graph: SnapshotView, direction: Direction, i: int)
    requires
        0 <= i < target_options(graph, direction).len(),
    ensures
        app::picked_target(target_options(graph, direction)[i].0) == Some(
            if i == 0 {
                None
            } else {
                Some(devices_of(graph, direction)[i - 1].serial)
            },
        ),
{
    if i > 0 {
        let serial = devices_of(graph, direction)[i - 1].serial;
        lemma_serial_is_no_sentinel(serial);
        text::lemma_parsed_decimal(serial as nat, u64::MAX as int);
    }
}

proof fn lemma_serial_is_no_sentinel(n: u64)
    ensures
        text::decimal(n as nat) != TARGET_DEFAULT_VALUE@,
        text::decimal(n as nat) != SPECTRUM_DEFAULT_VALUE@,
{
    reveal_strlit("__aetna_default__");
    reveal_strlit("__aetna_spectrum_default__");
    text::lemma_parsed_decimal(n as nat, u64::MAX as int);
    assert(!text::is_digit(TARGET_DEFAULT_VALUE@[0]));
    assert(!text::is_digit(SPECTRUM_DEFAULT_VALUE@[0]));
}

/// Every option of the spectrum menu is read back as what it stands for: the default output, or the
/// node with the id.
pub proof fn lemma_source_options_are_read_back(graph: SnapshotView, i: int)
    requires
        0 <= i < source_options(graph).len(),
    ensures
        app::picked_source(source_options(graph)[i].0) == Some(
            if i == 0 {
                SpectrumSource::DefaultOutput
            } else {
                SpectrumSource::Node(
                    in_order(graph.nodes.filter(|n: NodeView| n.can_be_source()))[i - 1].id,
                )
            },
        ),
{
    if i > 0 {
        let id = in_order(graph.nodes.filter(|n: NodeView| n.can_be_source()))[i - 1].id;
        lemma_serial_is_no_sentinel(id as u64);
        text::lemma_parsed_decimal(id as nat, u32::MAX as int);
    }
}

/// Every option of a profile menu is read back as the index of the profile.
pub proof fn lemma_profile_options_are_read_back(profiles: Seq<ProfileView>, i: int)
    requires
        0 <= i < profiles.len(),
    ensures
        text::parsed_u32(profile_options(profiles)[i].0) == Some(profiles[i].index),
{
    text::lemma_parsed_decimal(profiles[i].index as nat, u32::MAX as int);
}

/// The menus of rows exclude each other: a profile menu and a target menu are never shown together.
pub proof fn lemma_row_menus_exclude_each_other(panel: AppView)
    ensures
        panel.profile_menu() is None || panel.target_menu() is None,
{
}

} // verus!
