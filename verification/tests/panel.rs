use damascene_volume::app::{SpectrumSource, VolumeApp, SPECTRUM_DEFAULT_VALUE};
use damascene_volume::backend::DemoBackend;
use damascene_volume::frame::Content;
use damascene_volume::levels::{NodeLevels, SpectrumSnapshot};
use damascene_volume::menus::{spectrum_source_options, target_device_options};
use damascene_volume::model::{
    AudioCard, AudioClass, AudioNode, AudioProfile, AudioSnapshot, Direction, ProfileAvailability,
    Tab, Volume,
};
use damascene_volume::panels::{
    activity_channels, card_row, empty_state, id_label, percent_label, plural, server_label,
    spectrum_card, spectrum_trigger_label, status_bar, tab_subtitle, DefaultSlot, RowRoute,
};
use damascene_volume::probe::{count_buffer, peer_summary, probe_settings, ProbeSettings};
use damascene_volume::waterfall::{waterfall_cells, Cell, WATERFALL_CELLS};

fn node(id: u32, class: AudioClass, description: &str) -> AudioNode {
    AudioNode {
        id,
        serial: 7000 + id as u64,
        class,
        name: format!("node-{id}"),
        description: description.into(),
        application: None,
        media_name: None,
        target: None,
        volume: None,
        media_role: None,
    }
}

fn device(id: u32, direction: Direction, description: &str) -> AudioNode {
    node(id, AudioClass::Device { direction }, description)
}

fn stream(id: u32, direction: Direction, description: &str) -> AudioNode {
    node(id, AudioClass::Stream { direction }, description)
}

fn profile(index: u32, description: &str, available: ProfileAvailability) -> AudioProfile {
    AudioProfile {
        index,
        name: format!("profile-{index}"),
        description: description.into(),
        available,
    }
}

fn card(id: u32, profiles: Vec<AudioProfile>, active_profile: Option<u32>) -> AudioCard {
    AudioCard {
        id,
        name: format!("card-{id}"),
        description: format!("Card {id}"),
        active_profile,
        profiles,
    }
}

fn graph() -> AudioSnapshot {
    let mut graph = AudioSnapshot::default();
    graph.nodes.push(stream(1, Direction::Input, "Recorder"));
    graph.nodes.push(device(2, Direction::Output, "Speakers"));
    graph.nodes.push(device(3, Direction::Output, "HDMI"));
    graph.nodes.push(stream(4, Direction::Output, "Firefox"));
    graph.nodes.push(device(5, Direction::Input, "Mic"));
    graph.nodes.push(node(6, AudioClass::Card, "Card"));
    graph.nodes.push(device(7, Direction::Output, "HDMI"));
    graph.nodes[3].application = Some("Firefox".into());
    graph.nodes[4].media_name = Some("Voice".into());
    graph.default_sink_name = Some("node-2".into());
    graph
}

fn pairs(options: &[(String, String)]) -> Vec<(&str, &str)> {
    options
        .iter()
        .map(|(v, l)| (v.as_str(), l.as_str()))
        .collect()
}

#[test]
fn spectrum_sources_are_grouped_and_sorted() {
    assert_eq!(
        pairs(&spectrum_source_options(&graph())),
        vec![
            (SPECTRUM_DEFAULT_VALUE, "Default Output"),
            ("3", "Output · HDMI"),
            ("7", "Output · HDMI"),
            ("2", "Output · Speakers"),
            ("4", "Playback · Firefox"),
            ("5", "Input · Voice"),
            ("1", "Recording · Recorder"),
        ]
    );
}

#[test]
fn targets_are_the_devices_of_a_direction() {
    assert_eq!(
        pairs(&target_device_options(&graph(), Direction::Output)),
        vec![
            ("__aetna_default__", "Default — Speakers"),
            ("7002", "Speakers"),
            ("7003", "HDMI"),
            ("7007", "HDMI"),
        ]
    );
    assert_eq!(
        pairs(&target_device_options(&graph(), Direction::Input)),
        vec![("__aetna_default__", "Default — automatic"), ("7005", "Mic")]
    );
}

#[test]
fn menus_show_on_their_tabs() {
    let mut app = VolumeApp::with_snapshot(DemoBackend, {
        let mut g = graph();
        g.cards.push(card(
            9,
            vec![
                profile(0, "Off", ProfileAvailability::Unknown),
                profile(1, "Stereo", ProfileAvailability::No),
            ],
            Some(0),
        ));
        g
    });
    app.profile_dropdown_open = Some(9);
    app.target_dropdown_open = Some(4);
    app.spectrum_dropdown_open = true;
    for tab in Tab::ALL {
        app.active_tab = tab;
        let keys: Vec<String> = app.open_menus().into_iter().map(|m| m.key).collect();
        let expected = match tab {
            Tab::Playback | Tab::Recording => vec!["target:4", "spectrum"],
            Tab::Configuration => vec!["profile:9", "spectrum"],
            _ => vec!["spectrum"],
        };
        assert_eq!(keys, expected);
    }
    let menu = app.profile_menu().expect("open on the configuration tab");
    assert_eq!(pairs(&menu.options), vec![("0", "Off"), ("1", "Stereo · unavailable")]);
    // A menu of something that is gone, or of a device, does not show.
    app.active_tab = Tab::Playback;
    app.target_dropdown_open = Some(99);
    assert!(app.target_menu().is_none());
    app.target_dropdown_open = Some(2);
    assert!(app.target_menu().is_none());
}

#[test]
fn node_rows_show_what_is_set() {
    let mut g = graph();
    g.nodes[3].volume = Some(Volume {
        hundredths: 82,
        muted: false,
    });
    g.nodes[3].target = Some("7003".into());
    let mut app = VolumeApp::with_snapshot(DemoBackend, g.clone());
    app.volume_overrides.insert(4, 20);
    app.mute_overrides.insert(4, false);
    app.levels.publish_levels(
        4,
        NodeLevels {
            peaks: vec![3],
            rms: vec![1],
        },
    );
    let rows = app.node_rows();
    assert_eq!(rows.len(), 1);
    assert_eq!((rows[0].id, rows[0].title.as_str()), (4, "Firefox"));
    assert_eq!((rows[0].volume, rows[0].muted), (20, false));
    assert_eq!(rows[0].levels.as_ref().map(|l| l.peaks.clone()), Some(vec![3]));
    assert_eq!(rows[0].default_slot, DefaultSlot::Nothing);
    match &rows[0].route {
        RowRoute::Select { label, pinned } => assert_eq!((label.as_str(), *pinned), ("HDMI", true)),
        other => panic!("{other:?}"),
    }
    // The mute state is confirmed, the volume is not.
    assert!(app.mute_overrides.is_empty());
    assert_eq!(app.volume_overrides.len(), 1);

    app.active_tab = Tab::Outputs;
    let rows = app.node_rows();
    let slots: Vec<DefaultSlot> = rows.iter().map(|r| r.default_slot).collect();
    assert_eq!(
        slots,
        vec![DefaultSlot::Indicator, DefaultSlot::SetDefault, DefaultSlot::SetDefault]
    );
    match &rows[0].route {
        RowRoute::Caption { caption } => assert_eq!(caption, "#2  No route"),
        other => panic!("{other:?}"),
    }
}

#[test]
fn card_rows_name_the_active_profile() {
    let profiles = vec![
        profile(0, "Off", ProfileAvailability::Unknown),
        profile(4, "Stereo", ProfileAvailability::Yes),
    ];
    let row = card_row(&card(9, profiles.clone(), None), Some(4));
    assert_eq!((row.title.as_str(), row.caption.as_str()), ("Card 9", "#9  card-9"));
    assert_eq!(row.profile.as_deref(), Some("Stereo"));
    let row = card_row(&card(9, profiles.clone(), None), Some(1));
    assert_eq!(row.profile.as_deref(), Some("No active profile"));
    let row = card_row(&card(9, profiles.clone(), None), None);
    assert_eq!(row.profile.as_deref(), Some("No active profile"));
    assert_eq!(card_row(&card(9, vec![], None), Some(4)).profile, None);

    let mut g = graph();
    g.cards.push(card(9, profiles, Some(0)));
    let mut app = VolumeApp::with_snapshot(DemoBackend, g);
    app.profile_overrides.insert(9, 4);
    assert_eq!(app.card_rows()[0].profile.as_deref(), Some("Stereo"));
    assert_eq!(app.profile_overrides.len(), 1);
    app.profile_overrides.insert(9, 0);
    assert_eq!(app.card_rows()[0].profile.as_deref(), Some("Off"));
    assert!(app.profile_overrides.is_empty());
}

#[test]
fn meters_show_one_or_two_channels() {
    let label = |levels: Option<&NodeLevels>| -> Vec<(&'static str, u32, u32)> {
        activity_channels(levels)
            .iter()
            .map(|c| (c.label, c.peak, c.rms))
            .collect()
    };
    let many = NodeLevels {
        peaks: vec![1, 2, 3],
        rms: vec![4, 5, 6],
    };
    assert_eq!(label(Some(&many)), vec![("L", 1, 4), ("R", 2, 5)]);
    let mono = NodeLevels {
        peaks: vec![1],
        rms: vec![],
    };
    assert_eq!(label(Some(&mono)), vec![("M", 1, 0)]);
    let none = NodeLevels {
        peaks: vec![],
        rms: vec![],
    };
    assert_eq!(label(Some(&none)), vec![("M", 0, 0)]);
    assert_eq!(label(None), vec![("L", 0, 0), ("R", 0, 0)]);
}

#[test]
fn the_spectrum_card_says_what_it_listens_to() {
    let speakers = device(2, Direction::Output, "Speakers");
    let default = SpectrumSource::DefaultOutput;
    assert_eq!(spectrum_trigger_label(default, Some(&speakers)), "Default → Speakers");
    assert_eq!(spectrum_trigger_label(default, None), "Default Output");
    assert_eq!(spectrum_trigger_label(SpectrumSource::Node(2), Some(&speakers)), "Speakers");
    // The pinned node is gone and the default output stands in for it.
    assert_eq!(
        spectrum_trigger_label(SpectrumSource::Node(8), Some(&speakers)),
        "Default Output"
    );
    assert_eq!(spectrum_trigger_label(SpectrumSource::Node(8), None), "Unavailable");

    let mut spectrum = SpectrumSnapshot::default();
    let card = spectrum_card(Some(&speakers), Some(&spectrum), default);
    assert_eq!((card.status.as_str(), card.subtitle.as_str()), ("Listening", "Speakers"));
    spectrum.columns.push(vec![0]);
    assert_eq!(spectrum_card(Some(&speakers), Some(&spectrum), default).status, "48000 Hz");
    assert_eq!(spectrum_card(Some(&speakers), None, default).status, "Listening");
    let card = spectrum_card(None, Some(&spectrum), default);
    assert_eq!(card.status, "No source selected");
    assert_eq!(card.subtitle, "Pick a source from the dropdown");
    assert_eq!(card.trigger, "Default Output");
}

#[test]
fn texts_of_the_panel() {
    assert_eq!(plural(1, "node", "nodes"), "1 node");
    assert_eq!(plural(0, "node", "nodes"), "0 nodes");
    assert_eq!(id_label(42), "#42");
    assert_eq!(percent_label(150), "150%");
    assert_eq!(empty_state(Tab::Outputs), "No Output Devices streams or devices yet.");
    assert_eq!(tab_subtitle(Tab::Configuration), "Cards, profiles, and ports.");
    let mut g = graph();
    assert_eq!(server_label(&g), "PipeWire");
    g.server_name = Some("Other".into());
    assert_eq!(server_label(&g), "Other");
    assert_eq!(
        status_bar(&g, 1),
        ("7 nodes · 0 cards · 1 meter".into(), "Ready".into())
    );
    g.error = Some("gone".into());
    assert_eq!(status_bar(&g, 2).1, "gone");
}

#[test]
fn frames_show_the_active_tab() {
    let mut app = VolumeApp::new(DemoBackend);
    let frame = app.build();
    assert_eq!(frame.active_tab, Tab::Playback);
    match &frame.content {
        Content::Nodes(rows) => assert!(!rows.is_empty()),
        other => panic!("{other:?}"),
    }
    assert!(frame.empty.is_none() && frame.menus.is_empty());
    assert!(frame.spectrum.is_none());
    let empty = AudioSnapshot::default();
    let frame = app.build_with(empty.clone());
    assert_eq!(frame.empty.as_deref(), Some("No Playback streams or devices yet."));
    app.active_tab = Tab::Configuration;
    let frame = app.build_with(empty);
    assert!(matches!(frame.content, Content::Cards(_)));
    assert_eq!(frame.empty.as_deref(), Some("No PipeWire cards discovered yet."));
    assert_eq!(frame.status.0, "0 nodes · 0 cards · 0 meters");
}

#[test]
fn the_newest_column_stands_at_the_right() {
    let cells = waterfall_cells(None);
    assert_eq!(cells.len(), WATERFALL_CELLS);
    assert!(cells.iter().all(|c| c.value == 0));
    assert_eq!(cells[0], Cell { value: 0, grid: true, edge: false });
    assert_eq!(cells[257], Cell { value: 0, grid: false, edge: false });
    assert_eq!(cells[256 + 255], Cell { value: 0, grid: false, edge: true });

    let mut spectrum = SpectrumSnapshot::default();
    spectrum.columns.push(vec![5; 72]);
    let mut last = vec![0; 72];
    last[0] = 1;
    last[71] = 2;
    spectrum.columns.push(last);
    let cells = waterfall_cells(Some(&spectrum));
    assert_eq!(cells[255].value, 2);
    assert_eq!(cells[95 * 256 + 255].value, 1);
    assert_eq!(cells[254].value, 5);
    assert_eq!(cells[253].value, 0);
    // Without bands there is one; a short column is filled up.
    spectrum.bins = 0;
    assert_eq!(waterfall_cells(Some(&spectrum))[255].value, 1);
    spectrum.bins = 1000;
    assert_eq!(waterfall_cells(Some(&spectrum))[255].value, 0);
}

#[test]
fn probes_read_their_settings() {
    assert_eq!(
        probe_settings(None, None, None),
        ProbeSettings {
            target: None,
            buffers: 60,
            capture_sink: true
        }
    );
    assert_eq!(
        probe_settings(Some("42"), Some("5"), Some("false")),
        ProbeSettings {
            target: Some(42),
            buffers: 5,
            capture_sink: false
        }
    );
    let odd = probe_settings(Some("x"), Some("-1"), Some("no"));
    assert_eq!((odd.target, odd.buffers, odd.capture_sink), (None, 60, true));
    assert!(!probe_settings(None, None, Some("0")).capture_sink);
    let mut seen = 0;
    assert!(!count_buffer(&mut seen, 2));
    assert!(count_buffer(&mut seen, 2));
    assert_eq!(seen, 2);
}

#[test]
fn probes_list_peers() {
    let mut g = graph();
    assert_eq!(peer_summary(&g, 4), "");
    g.peers.insert(4, vec![2]);
    assert_eq!(peer_summary(&g, 4), " peers=[#2]");
    g.peers.insert(4, vec![2, 99, 3]);
    assert_eq!(peer_summary(&g, 4), " peers=[#2, #99?, #3]");
    g.peers.insert(4, vec![]);
    assert_eq!(peer_summary(&g, 4), " peers=[]");
}
