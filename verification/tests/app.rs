use damascene_core::select_option_key;
use damascene_volume::app::{
    default_output_node, resolve_stream_target, EventKind, SliderKey, SpectrumSource, UiEvent,
    VolumeApp, SPECTRUM_DEFAULT_VALUE, TARGET_DEFAULT_VALUE,
};
use damascene_volume::backend::{AudioBackend, BackendCommand, DemoBackend};
use damascene_volume::keys::{
    card_id_for_profile_select, is_spectrum_select_key, node_id_from_key,
    stream_id_for_target_select,
};
use damascene_volume::model::{
    AudioCard, AudioClass, AudioNode, AudioSnapshot, Direction, Tab, Volume,
};
use damascene_volume::routing::format_target_label;
use std::cell::RefCell;

fn target_label_for_stream(
    snapshot: &AudioSnapshot,
    node: &AudioNode,
    app: &mut VolumeApp<DemoBackend>,
) -> String {
    format_target_label(&resolve_stream_target(snapshot, node, app))
}

fn fixture_app() -> VolumeApp<DemoBackend> {
    VolumeApp::new(DemoBackend)
}

fn node(id: u32, serial: u64, class: AudioClass, name: &str, description: &str) -> AudioNode {
    AudioNode {
        id,
        serial,
        class,
        name: name.into(),
        description: description.into(),
        application: None,
        media_name: None,
        target: None,
        media_role: None,
        volume: None,
    }
}

fn output_device(id: u32, serial: u64, name: &str, description: &str) -> AudioNode {
    let class = AudioClass::Device {
        direction: Direction::Output,
    };
    node(id, serial, class, name, description)
}

/// One output stream, one output device.
fn fixture_snapshot(stream_target: Option<&str>, peer_ids: Vec<u32>) -> AudioSnapshot {
    let mut snap = AudioSnapshot::default();
    let mut stream = node(
        100,
        7100,
        AudioClass::Stream {
            direction: Direction::Output,
        },
        "firefox",
        "Firefox",
    );
    stream.target = stream_target.map(str::to_string);
    snap.nodes.push(stream);
    snap.nodes
        .push(output_device(200, 7200, "alsa_output.physical", "Physical Speakers"));
    if !peer_ids.is_empty() {
        snap.peers.insert(100, peer_ids);
    }
    snap
}

fn profile_click_event(card_id: u32, suffix: &str) -> UiEvent {
    let key = if suffix.is_empty() {
        format!("profile:{card_id}")
    } else {
        format!("profile:{card_id}:{suffix}")
    };
    UiEvent::synthetic_click(&key)
}

#[test]
fn open_dropdown_inserts_popover_layer_at_root() {
    // The main column is one layer, and every open menu one more.
    let mut app = fixture_app().with_active_tab(Tab::Configuration);
    let card_id = app
        .snapshot
        .cards
        .first()
        .map(|c| c.id)
        .expect("DemoBackend exposes at least one card");
    let closed = app.build();
    assert_eq!(1 + closed.menus.len(), 1, "closed: just the main layer");

    // Open the dropdown for the first card.
    let toggle = profile_click_event(card_id, "");
    app.handle_profile_event(&toggle, card_id);
    let opened = app.build();
    assert_eq!(1 + opened.menus.len(), 2, "open: main + popover at the root");
    // The dismiss key of the popover's scrim is the trigger key with a suffix.
    assert_eq!(
        format!("{}:dismiss", opened.menus[0].key),
        format!("profile:{card_id}:dismiss")
    );

    // Toggling again closes.
    app.handle_profile_event(&toggle, card_id);
    assert_eq!(1 + app.build().menus.len(), 1);
}

#[test]
fn card_id_for_profile_select_decodes_per_card_key() {
    assert_eq!(card_id_for_profile_select("profile:7"), Some(7));
    assert_eq!(card_id_for_profile_select("profile:7:dismiss"), Some(7));
    assert_eq!(card_id_for_profile_select("profile:7:option:3"), Some(7));
    // Unrelated keys (other widget routes) don't match.
    assert_eq!(card_id_for_profile_select("mute:7"), None);
    assert_eq!(card_id_for_profile_select("profile:abc"), None);
}

#[test]
fn spectrum_select_key_matcher_covers_trigger_and_routed_suffixes() {
    assert!(is_spectrum_select_key("spectrum"));
    assert!(is_spectrum_select_key("spectrum:dismiss"));
    assert!(is_spectrum_select_key("spectrum:option:42"));
    assert!(is_spectrum_select_key(&format!(
        "spectrum:option:{SPECTRUM_DEFAULT_VALUE}"
    )));
    assert!(!is_spectrum_select_key("target:42"));
    assert!(!is_spectrum_select_key("spectrumless:5"));
}

#[test]
fn pinned_node_id_falls_back_to_default_when_node_disappears() {
    let mut app = fixture_app();
    app.spectrum_source = SpectrumSource::Node(99_999);
    let snapshot = app.snapshot.clone();
    let resolved = app.spectrum_source_node(&snapshot);
    let default = default_output_node(&snapshot);
    assert!(default.is_some(), "DemoBackend exposes a default output");
    assert_eq!(
        resolved.map(|n| n.id),
        default.map(|n| n.id),
        "stale pin falls through to the default-output resolver",
    );
}

#[test]
fn spectrum_event_default_pick_resets_source() {
    let mut app = fixture_app();
    let pick_node = UiEvent::synthetic_click(&select_option_key("spectrum", &42u32));
    app.handle_spectrum_event(&pick_node);
    assert_eq!(app.spectrum_source, SpectrumSource::Node(42));

    let pick_default =
        UiEvent::synthetic_click(&select_option_key("spectrum", &SPECTRUM_DEFAULT_VALUE));
    app.handle_spectrum_event(&pick_default);
    assert_eq!(app.spectrum_source, SpectrumSource::DefaultOutput);
}

#[test]
fn stream_id_for_target_select_decodes_per_stream_key() {
    assert_eq!(stream_id_for_target_select("target:42"), Some(42));
    assert_eq!(stream_id_for_target_select("target:42:dismiss"), Some(42));
    assert_eq!(
        stream_id_for_target_select("target:42:option:alsa_output.foo"),
        Some(42),
    );
    assert_eq!(stream_id_for_target_select("profile:42"), None);
    assert_eq!(stream_id_for_target_select("target:abc"), None);
}

#[test]
fn live_peer_resolves_when_no_metadata_pin() {
    let snap = fixture_snapshot(None, vec![200]);
    let mut app = fixture_app();
    let stream = &snap.nodes[0];
    let resolved = resolve_stream_target(&snap, stream, &mut app);
    assert_eq!(resolved.device.map(|n| n.id), Some(200));
    assert!(resolved.following, "no metadata pin → following default");
    assert_eq!(
        target_label_for_stream(&snap, stream, &mut app),
        "Physical Speakers"
    );
}

#[test]
fn live_peer_takes_priority_over_metadata_pin() {
    let mut snap = fixture_snapshot(Some("9999"), vec![200]);
    snap.nodes
        .push(output_device(300, 9999, "alsa_output.other", "Other Output"));
    let mut app = fixture_app();
    let resolved = resolve_stream_target(&snap, &snap.nodes[0], &mut app);
    assert_eq!(resolved.device.map(|n| n.id), Some(200));
}

#[test]
fn metadata_pin_used_when_no_live_peer() {
    let snap = fixture_snapshot(Some("7200"), vec![]);
    let mut app = fixture_app();
    let resolved = resolve_stream_target(&snap, &snap.nodes[0], &mut app);
    assert_eq!(resolved.device.map(|n| n.id), Some(200));
}

#[test]
fn default_override_is_not_dropped_by_live_peer_alone() {
    let snap = fixture_snapshot(None, vec![200]);
    let mut app = fixture_app();
    app.target_overrides.insert(100, None);
    let resolved = resolve_stream_target(&snap, &snap.nodes[0], &mut app);
    assert_eq!(resolved.device.map(|n| n.id), Some(200));
    // Satisfied by the metadata pin, which is empty, so it is dropped.
    assert!(!app.target_overrides.contains_key(&100));
}

#[test]
fn explicit_override_overrides_live_peer_until_reconciled() {
    let mut snap = fixture_snapshot(None, vec![200]);
    snap.nodes
        .push(output_device(300, 9300, "alsa_output.headphones", "Headphones"));
    let mut app = fixture_app();
    app.target_overrides.insert(100, Some(9300));
    let resolved = resolve_stream_target(&snap, &snap.nodes[0], &mut app);
    assert_eq!(resolved.device.map(|n| n.id), Some(300));
    // Not satisfied yet, so it persists.
    assert!(app.target_overrides.contains_key(&100));
}

#[test]
fn pinned_stream_is_marked_following_false() {
    let mut snap = fixture_snapshot(Some("7200"), vec![200]);
    snap.default_sink_name = Some("alsa_output.physical".into());
    let mut app = fixture_app();
    let stream = &snap.nodes[0];
    let resolved = resolve_stream_target(&snap, stream, &mut app);
    assert!(!resolved.following, "metadata pin → not following default");
    assert!(
        !resolved.tracks_default,
        "pinned streams never carry the 'default →' tag, even when pinned to the default device"
    );
    assert_eq!(
        target_label_for_stream(&snap, stream, &mut app),
        "Physical Speakers"
    );
}

#[test]
fn following_with_no_live_peer_falls_back_to_system_default() {
    let mut snap = fixture_snapshot(None, vec![]);
    snap.default_sink_name = Some("alsa_output.physical".into());
    let mut app = fixture_app();
    let stream = &snap.nodes[0];
    let resolved = resolve_stream_target(&snap, stream, &mut app);
    assert!(resolved.following);
    assert!(
        resolved.tracks_default,
        "resolved device IS the system default → label gets the 'default →' tag"
    );
    assert_eq!(resolved.device.map(|n| n.id), Some(200));
    assert_eq!(
        target_label_for_stream(&snap, stream, &mut app),
        "default → Physical Speakers"
    );
}

#[test]
fn following_with_no_peer_and_no_default_renders_bare_default() {
    let snap = fixture_snapshot(None, vec![]);
    let mut app = fixture_app();
    let stream = &snap.nodes[0];
    let resolved = resolve_stream_target(&snap, stream, &mut app);
    assert!(resolved.following);
    assert!(resolved.device.is_none());
    assert_eq!(target_label_for_stream(&snap, stream, &mut app), "Default");
}

#[test]
fn following_diverged_stream_does_not_get_default_tag() {
    let mut snap = fixture_snapshot(None, vec![200]);
    snap.default_sink_name = Some("loopback_sink".into());
    snap.nodes
        .push(output_device(400, 7400, "loopback_sink", "my-sink"));
    let mut app = fixture_app();
    let resolved = resolve_stream_target(&snap, &snap.nodes[0], &mut app);
    assert!(resolved.following, "no pin → following");
    assert!(
        !resolved.tracks_default,
        "peer (Physical Speakers) ≠ default (my-sink) → no 'default →' tag"
    );
    assert_eq!(
        target_label_for_stream(&snap, &snap.nodes[0], &mut app),
        "Physical Speakers"
    );
}

#[test]
fn following_label_shows_live_peer_when_it_diverges_from_default() {
    let mut snap = fixture_snapshot(None, vec![200]);
    snap.default_sink_name = Some("loopback_sink".into());
    snap.nodes
        .push(output_device(400, 7400, "loopback_sink", "my-sink"));
    let mut app = fixture_app();
    let stream = &snap.nodes[0];
    let resolved = resolve_stream_target(&snap, stream, &mut app);
    assert!(resolved.following);
    assert_eq!(
        resolved.device.map(|n| n.id),
        Some(200),
        "live peer (Physical Speakers) wins over the configured default (my-sink)"
    );
    assert_eq!(
        target_label_for_stream(&snap, stream, &mut app),
        "Physical Speakers"
    );
}

#[test]
fn input_streams_follow_default_source_not_sink() {
    let mut snap = AudioSnapshot {
        default_sink_name: Some("not_a_real_source".into()),
        default_source_name: Some("alsa_input.mic".into()),
        ..AudioSnapshot::default()
    };
    snap.nodes.push(node(
        50,
        5050,
        AudioClass::Stream {
            direction: Direction::Input,
        },
        "obs-capture",
        "OBS Studio",
    ));
    snap.nodes.push(node(
        60,
        6060,
        AudioClass::Device {
            direction: Direction::Input,
        },
        "alsa_input.mic",
        "Studio Mic",
    ));
    let mut app = fixture_app();
    let resolved = resolve_stream_target(&snap, &snap.nodes[0], &mut app);
    assert!(
        resolved.tracks_default,
        "resolved device IS the default source → 'default →' tag applies"
    );
    assert_eq!(resolved.device.map(|n| n.id), Some(60));
    assert_eq!(
        target_label_for_stream(&snap, &snap.nodes[0], &mut app),
        "default → Studio Mic"
    );
}

/// A server that notes what it is asked for.
struct Recorder {
    graph: AudioSnapshot,
    asked: RefCell<Vec<String>>,
}

impl AudioBackend for Recorder {
    fn refresh(&self) -> AudioSnapshot {
        self.graph.clone()
    }

    fn set_mute(&self, node_id: u32, muted: bool) {
        self.asked.borrow_mut().push(format!("mute {node_id} {muted}"));
    }

    fn set_volume(&self, node_id: u32, percent: u32) {
        self.asked.borrow_mut().push(format!("volume {node_id} {percent}"));
    }

    fn set_default_sink(&self, node_name: &str) {
        self.asked.borrow_mut().push(format!("sink {node_name}"));
    }

    fn set_default_source(&self, node_name: &str) {
        self.asked.borrow_mut().push(format!("source {node_name}"));
    }

    fn set_card_profile(&self, card_id: u32, profile_index: u32) {
        self.asked.borrow_mut().push(format!("profile {card_id} {profile_index}"));
    }

    fn set_stream_target(&self, stream_id: u32, target_serial: Option<u64>) {
        self.asked.borrow_mut().push(format!("target {stream_id} {target_serial:?}"));
    }
}

fn recorder(graph: AudioSnapshot) -> Recorder {
    Recorder {
        graph,
        asked: RefCell::new(Vec::new()),
    }
}

fn asked(app: &VolumeApp<Recorder>) -> Vec<String> {
    app.backend.asked.borrow().clone()
}

fn two_devices() -> AudioSnapshot {
    let mut graph = fixture_snapshot(None, vec![]);
    graph.nodes.push(node(
        60,
        6060,
        AudioClass::Device {
            direction: Direction::Input,
        },
        "alsa_input.mic",
        "Studio Mic",
    ));
    graph.nodes[0].volume = Some(Volume {
        hundredths: 82,
        muted: false,
    });
    graph.cards.push(AudioCard {
        id: 9,
        name: "alsa_card.usb".into(),
        description: "USB".into(),
        active_profile: Some(1),
        profiles: vec![],
    });
    graph
}

fn event(kind: EventKind, key: &str) -> UiEvent {
    UiEvent {
        kind,
        key: Some(key.into()),
        pointer_percent: None,
        slider_key: None,
    }
}

fn slider_key(key: &str, slider_key: SliderKey) -> UiEvent {
    UiEvent {
        kind: EventKind::KeyDown,
        key: Some(key.into()),
        pointer_percent: None,
        slider_key: Some(slider_key),
    }
}

#[test]
fn events_ask_the_server() {
    let mut app = VolumeApp::new(recorder(two_devices()));
    app.on_event(&UiEvent::synthetic_click("mute:100"));
    app.on_event(&UiEvent::synthetic_click("mute:100"));
    app.on_event(&UiEvent::synthetic_click("default:200"));
    app.on_event(&UiEvent::synthetic_click("default:60"));
    app.on_event(&UiEvent::synthetic_click("default:100"));
    app.on_event(&UiEvent::synthetic_click("default:12345"));
    app.on_event(&UiEvent::synthetic_click("profile:9:option:4"));
    app.on_event(&UiEvent::synthetic_click("target:100:option:7200"));
    app.on_event(&UiEvent::synthetic_click(&format!(
        "target:100:option:{TARGET_DEFAULT_VALUE}"
    )));
    let mut drag = event(EventKind::Drag, "volume:100");
    drag.pointer_percent = Some(37);
    app.on_event(&drag);
    assert_eq!(
        asked(&app),
        vec![
            "mute 100 true",
            "mute 100 false",
            "sink alsa_output.physical",
            "source alsa_input.mic",
            "profile 9 4",
            "target 100 Some(7200)",
            "target 100 None",
            "volume 100 37",
        ]
    );
    assert_eq!(app.profile_overrides.get(&9), Some(&4));
    assert_eq!(app.target_overrides.get(&100), Some(&None));
    assert_eq!(app.volume_overrides.get(&100), Some(&37));
}

#[test]
fn tab_clicks_switch_the_tab() {
    let mut app = fixture_app();
    for tab in Tab::ALL {
        app.on_event(&UiEvent::synthetic_click(&format!("tabs:tab:{}", tab.token())));
        assert_eq!(app.active_tab, tab);
    }
    // An unknown token is taken for a click on the row, and ignored.
    app.on_event(&UiEvent::synthetic_click("tabs:tab:nowhere"));
    assert_eq!(app.active_tab, Tab::Configuration);
    // Only activating a tab switches to it.
    app.on_event(&event(EventKind::PointerDown, "tabs:tab:playback"));
    assert_eq!(app.active_tab, Tab::Configuration);
    app.on_event(&event(EventKind::Activate, "tabs:tab:playback"));
    assert_eq!(app.active_tab, Tab::Playback);
}

#[test]
fn slider_keys_step_and_stop_at_the_ends() {
    let mut app = VolumeApp::new(recorder(two_devices()));
    for key in [
        SliderKey::Increase,
        SliderKey::PageDown,
        SliderKey::Home,
        SliderKey::Home,
        SliderKey::Decrease,
        SliderKey::PageUp,
        SliderKey::End,
        SliderKey::Increase,
        SliderKey::PageUp,
        SliderKey::Decrease,
    ] {
        app.on_event(&slider_key("volume:100", key));
    }
    // One percent off what the server reports counts as confirmed, so the second step starts from
    // the reported volume again.
    assert_eq!(
        asked(&app),
        vec![
            "volume 100 83",
            "volume 100 72",
            "volume 100 0",
            "volume 100 10",
            "volume 100 150",
            "volume 100 149",
        ]
    );
    // A key for a node that is not there asks for nothing.
    app.on_event(&slider_key("volume:77", SliderKey::End));
    assert_eq!(asked(&app).len(), 6);
}

#[test]
fn a_volume_beyond_the_limit_steps_down_to_it() {
    let mut graph = two_devices();
    graph.nodes[0].volume = Some(Volume {
        hundredths: 170,
        muted: false,
    });
    let mut app = VolumeApp::new(recorder(graph));
    app.on_event(&slider_key("volume:100", SliderKey::Increase));
    assert_eq!(asked(&app), vec!["volume 100 150"]);
}

#[test]
fn hovering_and_scrolling_change_nothing() {
    let mut app = VolumeApp::new(recorder(two_devices()));
    for key in ["target:100:option:7200", "profile:9:option:4", "mute:100", "volume:100"] {
        app.on_event(&event(EventKind::Other, key));
        app.on_event(&event(EventKind::Drag, key));
        app.on_event(&event(EventKind::KeyDown, key));
    }
    assert!(asked(&app).is_empty());
    assert!(app.target_overrides.is_empty());
    assert!(app.profile_overrides.is_empty());
    assert!(app.mute_overrides.is_empty());
    assert!(app.volume_overrides.is_empty());
}

#[test]
fn events_without_a_key_are_ignored() {
    let mut app = VolumeApp::new(recorder(two_devices()));
    let mut click = UiEvent::synthetic_click("mute:100");
    click.key = None;
    assert!(app.handle_event(&click).is_none());
    assert!(app.handle_event(&UiEvent::synthetic_click("nothing:1")).is_none());
    assert!(asked(&app).is_empty());
}

#[test]
fn refresh_forgets_volumes_and_mutes_only() {
    let mut app = VolumeApp::new(recorder(two_devices()));
    app.volume_overrides.insert(100, 5);
    app.mute_overrides.insert(100, true);
    app.profile_overrides.insert(9, 2);
    app.target_overrides.insert(100, Some(1));
    app.on_event(&UiEvent::synthetic_click("refresh"));
    assert!(app.volume_overrides.is_empty());
    assert!(app.mute_overrides.is_empty());
    assert_eq!(app.profile_overrides.len(), 1);
    assert_eq!(app.target_overrides.len(), 1);
}

#[test]
fn confirmed_volumes_are_dropped() {
    let mut app = fixture_app();
    let mut speaker = output_device(7, 7, "x", "X");
    assert_eq!(app.percent_for(&speaker), 100);
    app.volume_overrides.insert(7, 40);
    assert_eq!(app.percent_for(&speaker), 40);
    speaker.volume = Some(Volume {
        hundredths: 42,
        muted: false,
    });
    assert_eq!(app.percent_for(&speaker), 40);
    speaker.volume = Some(Volume {
        hundredths: 41,
        muted: false,
    });
    assert_eq!(app.percent_for(&speaker), 41);
    assert!(app.volume_overrides.is_empty());
    speaker.volume = Some(Volume {
        hundredths: 5000,
        muted: false,
    });
    assert_eq!(app.percent_for(&speaker), 999);
}

#[test]
fn confirmed_mutes_and_profiles_are_dropped() {
    let mut app = fixture_app();
    let mut speaker = output_device(7, 7, "x", "X");
    assert!(!app.muted_for(&speaker));
    app.mute_overrides.insert(7, true);
    assert!(app.muted_for(&speaker));
    speaker.volume = Some(Volume {
        hundredths: 10,
        muted: true,
    });
    assert!(app.muted_for(&speaker));
    assert!(app.mute_overrides.is_empty());

    let mut card = AudioCard {
        id: 3,
        name: "c".into(),
        description: "C".into(),
        active_profile: None,
        profiles: vec![],
    };
    assert_eq!(app.active_profile_for(&card), None);
    app.profile_overrides.insert(3, 8);
    assert_eq!(app.active_profile_for(&card), Some(8));
    card.active_profile = Some(2);
    assert_eq!(app.active_profile_for(&card), Some(8));
    card.active_profile = Some(8);
    assert_eq!(app.active_profile_for(&card), Some(8));
    assert!(app.profile_overrides.is_empty());
}

#[test]
fn selects_toggle_and_dismiss() {
    let mut app = fixture_app();
    app.on_event(&UiEvent::synthetic_click("target:5"));
    assert_eq!(app.target_dropdown_open, Some(5));
    app.on_event(&UiEvent::synthetic_click("target:6"));
    assert_eq!(app.target_dropdown_open, Some(6));
    app.on_event(&UiEvent::synthetic_click("target:6"));
    assert_eq!(app.target_dropdown_open, None);
    app.on_event(&UiEvent::synthetic_click("target:6"));
    app.on_event(&UiEvent::synthetic_click("target:6:dismiss"));
    assert_eq!(app.target_dropdown_open, None);
    app.on_event(&UiEvent::synthetic_click("profile:1"));
    assert_eq!(app.profile_dropdown_open, Some(1));
    app.on_event(&UiEvent::synthetic_click("profile:1:dismiss"));
    assert_eq!(app.profile_dropdown_open, None);
    app.on_event(&UiEvent::synthetic_click("spectrum"));
    assert!(app.spectrum_dropdown_open);
    app.on_event(&UiEvent::synthetic_click("spectrum:dismiss"));
    assert!(!app.spectrum_dropdown_open);
    // Values that stand for nothing are dropped, and the menu stays.
    app.on_event(&UiEvent::synthetic_click("target:6"));
    app.on_event(&UiEvent::synthetic_click("target:6:option:abc"));
    assert_eq!(app.target_dropdown_open, Some(6));
    app.on_event(&UiEvent::synthetic_click("spectrum"));
    app.on_event(&UiEvent::synthetic_click("spectrum:option:-1"));
    assert!(app.spectrum_dropdown_open);
    app.on_event(&UiEvent::synthetic_click("profile:1"));
    app.on_event(&UiEvent::synthetic_click("profile:1:option:"));
    assert_eq!(app.profile_dropdown_open, Some(1));
    // Keys with a sign lead to a select that does not know them.
    app.on_event(&UiEvent::synthetic_click("profile:+1"));
    assert_eq!(app.profile_dropdown_open, Some(1));
}

#[test]
fn handlers_return_their_commands() {
    let mut app = fixture_app();
    let click = UiEvent::synthetic_click("profile:9:option:4");
    match app.handle_profile_event(&click, 9) {
        Some(BackendCommand::SetCardProfile {
            card_id,
            profile_index,
        }) => assert_eq!((card_id, profile_index), (9, 4)),
        other => panic!("{other:?}"),
    }
    // The same event means nothing to another card's select.
    assert!(app.handle_profile_event(&click, 8).is_none());
    let mut hover = click.clone();
    hover.kind = EventKind::Other;
    assert!(app.handle_profile_event(&hover, 9).is_none());
}

#[test]
fn node_keys_are_read_back() {
    assert_eq!(node_id_from_key("mute:42", "mute:"), Some(42));
    assert_eq!(node_id_from_key("mute:42:x", "mute:"), None);
    assert_eq!(node_id_from_key("mute:4294967296", "mute:"), None);
    assert_eq!(node_id_from_key("mute:", "mute:"), None);
    assert_eq!(node_id_from_key("volume:42", "mute:"), None);
}

#[test]
fn a_pin_written_by_name_is_resolved() {
    let snap = fixture_snapshot(Some(" {\"name\": \"alsa_output.physical\"} "), vec![]);
    let mut app = fixture_app();
    let resolved = resolve_stream_target(&snap, &snap.nodes[0], &mut app);
    assert_eq!(resolved.device.map(|n| n.id), Some(200));
    assert!(!resolved.following);
    // A blank pin is none.
    let snap = fixture_snapshot(Some("   "), vec![]);
    let resolved = resolve_stream_target(&snap, &snap.nodes[0], &mut app);
    assert!(resolved.following);
    // A device has no target.
    let resolved = resolve_stream_target(&snap, &snap.nodes[1], &mut app);
    assert!(!resolved.following && resolved.device.is_none());
}

#[test]
fn a_pin_to_a_missing_device_is_still_a_pin() {
    let mut snap = fixture_snapshot(Some("9999"), vec![200]);
    let mut app = fixture_app();
    let resolved = resolve_stream_target(&snap, &snap.nodes[0], &mut app);
    assert!(!resolved.following);
    assert!(!resolved.tracks_default);
    assert_eq!(resolved.device.map(|n| n.id), Some(200));
    // Neither does it move with the default when it is not linked.
    snap.peers.clear();
    snap.default_sink_name = Some("alsa_output.physical".into());
    let resolved = resolve_stream_target(&snap, &snap.nodes[0], &mut app);
    assert!(!resolved.following && !resolved.tracks_default);
    assert_eq!(format_target_label(&resolved), "Physical Speakers");
    // The pick of the default waits until the pin is gone.
    app.target_overrides.insert(100, None);
    let resolved = resolve_stream_target(&snap, &snap.nodes[0], &mut app);
    assert!(resolved.following && resolved.tracks_default);
    assert!(app.target_overrides.contains_key(&100));
    snap.nodes[0].target = None;
    let resolved = resolve_stream_target(&snap, &snap.nodes[0], &mut app);
    assert!(resolved.following);
    assert!(!app.target_overrides.contains_key(&100));
    // What is neither a serial nor a name is a pin too.
    let snap = fixture_snapshot(Some("{\"name\":\"x\""), vec![]);
    assert!(!resolve_stream_target(&snap, &snap.nodes[0], &mut app).following);
}

#[test]
fn a_confirmed_pick_is_dropped() {
    let snap = fixture_snapshot(Some("7200"), vec![]);
    let mut app = fixture_app();
    app.target_overrides.insert(100, Some(7200));
    app.target_overrides.insert(101, Some(7200));
    resolve_stream_target(&snap, &snap.nodes[0], &mut app);
    assert!(!app.target_overrides.contains_key(&100));
    assert!(app.target_overrides.contains_key(&101));
    // The pick of the default is not confirmed while the stream is pinned.
    app.target_overrides.insert(100, None);
    let resolved = resolve_stream_target(&snap, &snap.nodes[0], &mut app);
    assert!(resolved.following && resolved.device.is_none());
    assert!(app.target_overrides.contains_key(&100));
}

#[test]
fn syncing_meters_the_active_tab() {
    let mut app = VolumeApp::new(recorder(two_devices()));
    // The stream of the playback tab; there is no default output.
    assert_eq!(app.levels.active_meter_count(), 1);
    assert_eq!(app.meter_plan.start.len(), 1);
    assert_eq!(app.meter_plan.start[0].0, 100);
    app.sync_state();
    assert!(app.meter_plan.start.is_empty() && app.meter_plan.stop.is_empty());
    app.active_tab = Tab::Inputs;
    app.sync_state();
    assert_eq!(app.meter_plan.stop, vec![100]);
    assert_eq!(app.meter_plan.start[0].0, 60);
    app.active_tab = Tab::Configuration;
    app.spectrum_source = SpectrumSource::Node(200);
    app.sync_state();
    assert_eq!(app.meter_plan.stop, vec![60]);
    assert_eq!(app.meter_plan.start[0].0, 200);
    assert!(app.levels.shows_spectrum_of(200));
}
