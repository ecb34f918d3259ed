//! One frame of the panel: everything that it shows at a moment.

use vstd::prelude::*;

use crate::app;
use crate::app::{AppView, VolumeApp};
use crate::backend::AudioBackend;
use crate::keys;
use crate::levels::{SpectrumSnapshot, SpectrumView};
use crate::menus;
use crate::menus::{MenuView, SelectMenu};
use crate::model;
use crate::model::{AudioSnapshot, SnapshotView, Tab};
use crate::panels;
use crate::panels::{
    CardRow, CardRowView, NodeRow, RowView, SpectrumCard, SpectrumCardView, NO_CARDS,
};
use crate::text;
use crate::widgets::ChoiceView;

verus! {

/// The rows of the active tab.
#[derive(Debug, Clone)]
pub enum Content {
    Nodes(Vec<NodeRow>),
    Cards(Vec<CardRow>),
}

/// The value of a [`Content`].
#[verifier::ext_equal]
pub enum ContentView {
    Nodes(Seq<RowView>),
    Cards(Seq<CardRowView>),
}

impl View for Content {
    type V = ContentView;

    open spec fn view(&self) -> ContentView {
        match *self {
            Content::Nodes(rows) => ContentView::Nodes(panels::row_views(rows@)),
            Content::Cards(rows) => ContentView::Cards(panels::card_row_views(rows@)),
        }
    }
}

/// One frame of the panel.
#[derive(Debug)]
pub struct Frame {
    /// What the header calls the server.
    pub server: String,
    pub active_tab: Tab,
    pub content: Content,
    /// What the tab says when it has no rows.
    pub empty: Option<String>,
    pub spectrum_card: SpectrumCard,
    pub spectrum: Option<SpectrumSnapshot>,
    /// The two texts of the status bar.
    pub status: (String, String),
    /// The open menus.
    pub menus: Vec<SelectMenu>,
}

/// The value of a [`Frame`].
#[verifier::ext_equal]
pub struct FrameView {
    pub server: Seq<char>,
    pub active_tab: Tab,
    pub content: ContentView,
    pub empty: Option<Seq<char>>,
    pub spectrum_card: SpectrumCardView,
    pub spectrum: Option<SpectrumView>,
    pub status: (Seq<char>, Seq<char>),
    pub menus: Seq<MenuView>,
}

/// The values of menus.
pub open spec fn menu_views(menus: Seq<SelectMenu>) -> Seq<MenuView> {
    menus.map_values(|m: SelectMenu| m@)
}

/// The value of an optional spectrum.
pub open spec fn owned_spectrum(spectrum: Option<SpectrumSnapshot>) -> Option<SpectrumView> {
    match spectrum {
        Some(spectrum) => Some(spectrum@),
        None => None,
    }
}

impl View for Frame {
    type V = FrameView;

    open spec fn view(&self) -> FrameView {
        FrameView {
            server: self.server@,
            active_tab: self.active_tab,
            content: self.content@,
            empty: text::opt_text(self.empty),
            spectrum_card: self.spectrum_card@,
            spectrum: owned_spectrum(self.spectrum),
            status: (self.status.0@, self.status.1@),
            menus: menu_views(self.menus@),
        }
    }
}

/// A list with one more menu, when it is open.
pub open spec fn and_menu(menus: Seq<MenuView>, menu: Option<MenuView>) -> Seq<MenuView> {
    match menu {
        Some(menu) => menus.push(menu),
        None => menus,
    }
}

impl AppView {
    /// The rows of the active tab.
    pub open spec fn content(self) -> ContentView {
        if self.active_tab == Tab::Configuration {
            ContentView::Cards(self.card_rows())
        } else {
            ContentView::Nodes(self.rows_of(self.graph.nodes_for_tab(self.active_tab)))
        }
    }

    /// What the active tab says when it has no rows.
    pub open spec fn empty_note(self) -> Option<Seq<char>> {
        match self.content() {
            ContentView::Cards(rows) => if rows.len() == 0 {
                Some(NO_CARDS@)
            } else {
                None
            },
            ContentView::Nodes(rows) => if rows.len() == 0 {
                Some(panels::empty_text(self.active_tab))
            } else {
                None
            },
        }
    }

    /// The spectrum of the node that the spectrogram listens to.
    pub open spec fn shown_spectrum(self) -> Option<SpectrumView> {
        match app::spectrum_node_in(self.spectrum_source, self.graph) {
            Some(node) => if self.levels.spectra.contains_key(node.id) {
                Some(self.levels.spectra[node.id])
            } else {
                None
            },
            None => None,
        }
    }

    /// The open menus, in the order in which they are laid over the panel.
    pub open spec fn open_menus(self) -> Seq<MenuView> {
        and_menu(
            and_menu(and_menu(Seq::empty(), self.profile_menu()), self.target_menu()),
            self.spectrum_menu(),
        )
    }

    /// One frame of the panel.
    pub open spec fn frame(self) -> FrameView {
        FrameView {
            server: panels::server_text(self.graph),
            active_tab: self.active_tab,
            content: self.content(),
            empty: self.empty_note(),
            spectrum_card: panels::spectrum_card_of(
                app::spectrum_node_in(self.spectrum_source, self.graph),
                self.shown_spectrum(),
                self.spectrum_source,
            ),
            spectrum: self.shown_spectrum(),
            status: panels::status_of(self.graph, self.levels.meters.len()),
            menus: self.open_menus(),
        }
    }

    /// The panel once a frame is made: what the server has confirmed of the shown rows is dropped.
    pub open spec fn after_frame(self) -> AppView {
        if self.active_tab == Tab::Configuration {
            self.with_settled_cards(self.graph.cards)
        } else {
            self.with_all_settled(self.graph.nodes_for_tab(self.active_tab))
        }
    }
}

impl<B: AudioBackend> VolumeApp<B> {
    /// The open menus.
    pub fn open_menus(&self) -> (r: Vec<SelectMenu>)
        ensures
            menu_views(r@) == self@.open_menus(),
    {
        let mut r: Vec<SelectMenu> = Vec::new();
        assert(menu_views(r@) =~= Seq::empty());
        if let Some(menu) = self.profile_menu() {
            r.push(menu);
        }
        assert(menu_views(r@) =~= and_menu(Seq::empty(), self@.profile_menu()));
        let ghost before = r@;
        if let Some(menu) = self.target_menu() {
            r.push(menu);
        }
        assert(menu_views(r@) =~= and_menu(menu_views(before), self@.target_menu()));
        let ghost before = r@;
        if let Some(menu) = self.spectrum_menu() {
            r.push(menu);
        }
        assert(menu_views(r@) =~= and_menu(menu_views(before), self@.spectrum_menu()));
        r
    }

    /// Makes a frame of what the panel shows now.
    pub fn frame(&mut self) -> (r: Frame)
        ensures
            r@ == old(self)@.frame(),
            final(self)@ == old(self)@.after_frame(),
            final(self).backend == old(self).backend,
            final(self).meter_plan == old(self).meter_plan,
    {
        let ghost panel = self@;
        let menus = self.open_menus();
        let server = panels::server_label(&self.snapshot).to_owned();
        let status = panels::status_bar(&self.snapshot, self.levels.active_meter_count());
        let node = self.spectrum_source_node(&self.snapshot);
        let spectrum = match node {
            Some(node) => self.levels.spectrum_for(node.id),
            None => None,
        };
        let spectrum_card = panels::spectrum_card(node, spectrum.as_ref(), self.spectrum_source);
        assert(owned_spectrum(spectrum) == panel.shown_spectrum());
        let active_tab = self.active_tab;
        let (content, empty) = if active_tab == Tab::Configuration {
            let rows = self.card_rows();
            let empty = if rows.len() == 0 {
                Some(NO_CARDS.to_owned())
            } else {
                None
            };
            assert(panels::card_row_views(rows@).len() == rows@.len());
            (Content::Cards(rows), empty)
        } else {
            let rows = self.node_rows();
            let empty = if rows.len() == 0 {
                Some(panels::empty_state(active_tab))
            } else {
                None
            };
            assert(panels::row_views(rows@).len() == rows@.len());
            (Content::Nodes(rows), empty)
        };
        Frame { server, active_tab, content, empty, spectrum_card, spectrum, status, menus }
    }

    /// Takes over a graph, and makes a frame of it.
    pub fn build_with(&mut self, snapshot: AudioSnapshot) -> (r: Frame)
        ensures
            r@ == old(self)@.synced(snapshot@).frame(),
            final(self)@ == old(self)@.synced(snapshot@).after_frame(),
            final(self).backend == old(self).backend,
            final(self).meter_plan.leads_from(
                old(self)@.levels,
                snapshot@.nodes_for_tab(old(self)@.active_tab),
                app::spectrum_node_in(old(self)@.spectrum_source, snapshot@),
            ),
    {
        self.sync_with(snapshot);
        self.frame()
    }

    /// Takes over the graph that the server shows now, and makes a frame of it.
    pub fn build(&mut self) -> (r: Frame)
        ensures
            exists|snapshot: AudioSnapshot| #[trigger]
                call_ensures(B::refresh, (&old(self).backend,), snapshot) && r@
                    == old(self)@.synced(snapshot@).frame() && final(self)@ == old(self)@.synced(
                    snapshot@,
                ).after_frame() && final(self).meter_plan.leads_from(
                    old(self)@.levels,
                    snapshot@.nodes_for_tab(old(self)@.active_tab),
                    app::spectrum_node_in(old(self)@.spectrum_source, snapshot@),
                ),
            final(self).backend == old(self).backend,
    {
        let snapshot = self.backend.refresh();
        self.build_with(snapshot)
    }
}

/// A menu that is toggled is laid over the panel where its select is shown, and goes away when it
/// is toggled again: that of a card, that of a stream, and that of the spectrogram.
pub proof fn lemma_toggled_menu_shows(panel: AppView, id: u32)
    ensures
        ({
            let toggle = Some(ChoiceView::Toggle);
            let open = panel.after_profile_choice(id, toggle).0;
            panel.active_tab == Tab::Configuration && panel.profile_dropdown_open is None
                && model::card_position(panel.graph.cards, id) is Some ==> {
                &&& panel.profile_menu() is None
                &&& open.profile_menu() matches Some(menu)
                &&& menu.key == keys::key_of("profile:"@, id)
                &&& open.open_menus().contains(menu)
                &&& open.after_profile_choice(id, toggle).0 == panel
            }
        }),
        ({
            let toggle = Some(ChoiceView::Toggle);
            let open = panel.after_target_choice(id, toggle).0;
            (panel.active_tab == Tab::Playback || panel.active_tab == Tab::Recording)
                && panel.target_dropdown_open is None && (panel.graph.node_with_id(
                id,
            ) matches Some(node) && node.class is Stream) ==> {
                &&& panel.target_menu() is None
                &&& open.target_menu() matches Some(menu)
                &&& menu.key == keys::key_of("target:"@, id)
                &&& open.open_menus().contains(menu)
                &&& open.after_target_choice(id, toggle).0 == panel
            }
        }),
        ({
            let toggle = Some(ChoiceView::Toggle);
            let open = panel.after_spectrum_choice(toggle);
            panel.spectrum_menu() is None ==> {
                &&& open.spectrum_menu() matches Some(menu)
                &&& menu.key == "spectrum"@
                &&& open.open_menus().contains(menu)
                &&& open.after_spectrum_choice(toggle) == panel
            }
        }),
{
    let toggle = Some(ChoiceView::Toggle);
    lemma_menu_is_listed(panel.after_profile_choice(id, toggle).0);
    lemma_menu_is_listed(panel.after_target_choice(id, toggle).0);
    lemma_menu_is_listed(panel.after_spectrum_choice(toggle));
}

proof fn lemma_menu_is_listed(panel: AppView)
    ensures
        panel.profile_menu() matches Some(menu) ==> panel.open_menus().contains(menu),
        panel.target_menu() matches Some(menu) ==> panel.open_menus().contains(menu),
        panel.spectrum_menu() matches Some(menu) ==> panel.open_menus().contains(menu),
{
    let first = and_menu(Seq::empty(), panel.profile_menu());
    let second = and_menu(first, panel.target_menu());
    let all = panel.open_menus();
    if let Some(menu) = panel.profile_menu() {
        assert(all[0] == menu);
    }
    if let Some(menu) = panel.target_menu() {
        assert(all[first.len() as int] == menu);
    }
    if let Some(menu) = panel.spectrum_menu() {
        assert(all[second.len() as int] == menu);
    }
}

/// No more than two menus are open at a time: one of a row, and that of the spectrogram.
pub proof fn lemma_at_most_two_menus(panel: AppView)
    ensures
        panel.open_menus().len() <= 2,
{
    menus::lemma_row_menus_exclude_each_other(panel);
}

} // verus!
