use damascene_volume::backend::globals::{
    audio_card_from_global, audio_node_from_global, is_internal_node, link_from_global, prop,
    prop_u32, Global, GlobalKind,
};
use damascene_volume::backend::peers::rebuild_peers;
use damascene_volume::backend::pods::{
    decode_active_profile_index, decode_enum_profile, decode_props, mute_properties,
    profile_properties, volume_properties, IdValue, PodProperty, PodValue, PropKey,
};
use damascene_volume::backend::registry::{BackendState, BindRequest, Effect};
use damascene_volume::backend::{ask, AudioBackend, BackendCommand, DemoBackend};
use damascene_volume::model::{AudioClass, Direction, ProfileAvailability, Volume};
use std::collections::HashMap;

#[test]
fn rebuild_peers_dedupes_parallel_port_links() {
    let mut links: HashMap<u32, (u32, u32)> = HashMap::new();
    links.insert(500, (10, 20)); // stream→sink, FL
    links.insert(501, (10, 20)); // stream→sink, FR
    let mut peers: HashMap<u32, Vec<u32>> = HashMap::new();
    rebuild_peers(&mut peers, &links);
    assert_eq!(peers.get(&10), Some(&vec![20]));
    assert_eq!(peers.get(&20), Some(&vec![10]));
}

#[test]
fn rebuild_peers_handles_multiple_distinct_edges() {
    let mut links: HashMap<u32, (u32, u32)> = HashMap::new();
    links.insert(500, (10, 20));
    links.insert(501, (10, 30));
    let mut peers: HashMap<u32, Vec<u32>> = HashMap::new();
    rebuild_peers(&mut peers, &links);
    let stream_peers = peers.get(&10).expect("stream has peers");
    assert_eq!(stream_peers.len(), 2);
    assert!(stream_peers.contains(&20));
    assert!(stream_peers.contains(&30));
    assert_eq!(peers.get(&20), Some(&vec![10]));
    assert_eq!(peers.get(&30), Some(&vec![10]));
}

#[test]
fn rebuild_peers_clears_stale_entries() {
    let mut peers: HashMap<u32, Vec<u32>> = HashMap::new();
    peers.insert(10, vec![20]);
    peers.insert(20, vec![10]);
    rebuild_peers(&mut peers, &HashMap::new());
    assert!(peers.is_empty());
}

fn props(pairs: &[(&str, &str)]) -> Vec<(String, String)> {
    pairs
        .iter()
        .map(|(k, v)| (k.to_string(), v.to_string()))
        .collect()
}

fn global(id: u32, kind: GlobalKind, pairs: &[(&str, &str)]) -> Global {
    Global {
        id,
        kind,
        props: Some(props(pairs)),
    }
}

fn sink(id: u32, name: &str) -> Global {
    global(
        id,
        GlobalKind::Node,
        &[
            ("media.class", "Audio/Sink"),
            ("node.name", name),
            ("node.description", "Speakers"),
            ("object.serial", "7000"),
        ],
    )
}

fn stream(id: u32) -> Global {
    global(
        id,
        GlobalKind::Node,
        &[
            ("media.class", "Stream/Output/Audio"),
            ("application.name", "Firefox"),
            ("media.name", "Song"),
            ("node.target", "12"),
        ],
    )
}

fn link(id: u32, out: &str, inp: &str) -> Global {
    global(
        id,
        GlobalKind::Link,
        &[("link.output.node", out), ("link.input.node", inp)],
    )
}

fn default_metadata(id: u32) -> Global {
    global(id, GlobalKind::Metadata, &[("metadata.name", "default")])
}

#[test]
fn nodes_are_read_from_their_announcement() {
    let node = audio_node_from_global(&sink(5, "alsa")).expect("a sink");
    assert_eq!((node.id, node.serial), (5, 7000));
    assert_eq!(
        node.class,
        AudioClass::Device {
            direction: Direction::Output
        }
    );
    assert_eq!(node.name, "alsa");
    assert_eq!(node.description, "Speakers");
    assert_eq!(node.target, None);

    let node = audio_node_from_global(&stream(6)).expect("a stream");
    assert_eq!((node.id, node.serial), (6, 6));
    assert_eq!(node.name, "unnamed");
    assert_eq!(node.description, "Firefox");
    assert_eq!(node.media_name.as_deref(), Some("Song"));
    assert_eq!(node.target.as_deref(), Some("12"));

    for class in ["Video/Source", "Midi/Bridge", ""] {
        let other = global(7, GlobalKind::Node, &[("media.class", class)]);
        assert!(audio_node_from_global(&other).is_none());
    }
    assert!(audio_node_from_global(&global(7, GlobalKind::Node, &[])).is_none());
    let mut bare = sink(5, "alsa");
    bare.props = None;
    assert!(audio_node_from_global(&bare).is_none());
    let mut device = sink(5, "alsa");
    device.kind = GlobalKind::Device;
    assert!(audio_node_from_global(&device).is_none());
}

#[test]
fn internal_nodes_are_hidden() {
    assert!(is_internal_node(&props(&[("node.name", "aetna-volume.meter.7")])));
    assert!(is_internal_node(&props(&[("application.name", "aetna-volume")])));
    assert!(!is_internal_node(&props(&[("node.name", "firefox")])));
    assert!(audio_node_from_global(&sink(5, "aetna-volume.meter.7")).is_none());
    let mut state = BackendState::new();
    assert_eq!(state.on_global(&sink(5, "aetna-volume.meter.7")), None);
    assert!(state.snapshot.nodes.is_empty());
}

#[test]
fn cards_and_links_are_read_from_their_announcement() {
    let card = global(
        9,
        GlobalKind::Device,
        &[("media.class", "Audio/Device"), ("device.name", "alsa_card"), ("device.nick", "USB")],
    );
    let read = audio_card_from_global(&card).expect("a card");
    assert_eq!((read.id, read.name.as_str(), read.description.as_str()), (9, "alsa_card", "USB"));
    let camera = global(9, GlobalKind::Device, &[("media.class", "Video/Device")]);
    assert!(audio_card_from_global(&camera).is_none());
    assert_eq!(link_from_global(&link(1, "10", "20")), Some((10, 20)));
    assert_eq!(link_from_global(&link(1, "10", "x")), None);
    assert_eq!(link_from_global(&sink(1, "a")), None);
    let pairs = props(&[("a", "1"), ("a", "2"), ("b", "x")]);
    assert_eq!(prop(&pairs, "a"), Some("1"));
    assert_eq!(prop(&pairs, "c"), None);
    assert_eq!(prop_u32(&pairs, "a"), Some(1));
    assert_eq!(prop_u32(&pairs, "b"), None);
}

#[test]
fn announcements_ask_for_bindings() {
    let mut state = BackendState::new();
    assert_eq!(state.snapshot.server_name.as_deref(), Some("PipeWire"));
    assert_eq!(state.on_global(&sink(5, "alsa")), Some(BindRequest::Node));
    // Nodes that are not shown are bound too.
    let video = global(6, GlobalKind::Node, &[("media.class", "Video/Source")]);
    assert_eq!(state.on_global(&video), Some(BindRequest::Node));
    assert_eq!(state.on_global(&default_metadata(3)), Some(BindRequest::Metadata));
    state.on_bind(3, BindRequest::Metadata);
    assert_eq!(state.on_global(&default_metadata(4)), None);
    let settings = global(8, GlobalKind::Metadata, &[("metadata.name", "settings")]);
    assert_eq!(state.on_global(&settings), None);
    let card = global(9, GlobalKind::Device, &[("media.class", "Audio/Device")]);
    assert_eq!(state.on_global(&card), Some(BindRequest::Device));
    assert_eq!(state.on_global(&link(10, "1", "2")), None);
    assert_eq!(state.snapshot.nodes.len(), 1);
    assert_eq!(state.snapshot.cards.len(), 1);
}

#[test]
fn a_second_announcement_changes_nothing() {
    let mut state = BackendState::new();
    state.on_global(&sink(5, "alsa"));
    state.snapshot.nodes[0].target = Some("kept".into());
    state.on_global(&sink(5, "other"));
    assert_eq!(state.snapshot.nodes.len(), 1);
    assert_eq!(state.snapshot.nodes[0].name, "alsa");
    assert_eq!(state.snapshot.nodes[0].target.as_deref(), Some("kept"));
}

#[test]
fn links_show_as_peers_until_they_go() {
    let mut state = BackendState::new();
    state.on_global(&link(50, "1", "2"));
    state.on_global(&link(51, "1", "2"));
    assert_eq!(state.snapshot.peers.get(&1), Some(&vec![2]));
    state.on_global_remove(50);
    assert_eq!(state.snapshot.peers.get(&2), Some(&vec![1]));
    state.on_global_remove(51);
    assert!(state.snapshot.peers.is_empty());
}

#[test]
fn removal_leaves_no_trace() {
    let mut state = BackendState::new();
    state.on_global(&sink(5, "alsa"));
    state.on_global(&sink(6, "usb"));
    state.on_bind(5, BindRequest::Node);
    state.on_bind(5, BindRequest::Device);
    state.on_bind(5, BindRequest::Metadata);
    state.on_node_props(5, &volume_properties(30, Some(2)));
    state.on_metadata_property(77, Some("target.object"), Some("9"));
    state.on_global_remove(5);
    state.on_global_remove(77);
    assert_eq!(state.snapshot.nodes.len(), 1);
    assert_eq!(state.snapshot.nodes[0].id, 6);
    assert!(state.bound_nodes.is_empty());
    assert!(state.bound_devices.is_empty());
    assert!(state.channels.is_empty());
    assert!(state.pending_targets.is_empty());
    assert_eq!(state.default_metadata, None);
    // The metadata is bound again when it comes back.
    assert_eq!(state.on_global(&default_metadata(8)), Some(BindRequest::Metadata));
}

#[test]
fn targets_reach_streams_in_either_order() {
    let mut early = BackendState::new();
    early.on_metadata_property(6, Some("target.object"), Some("7000"));
    assert_eq!(early.pending_targets.get(&6).map(String::as_str), Some("7000"));
    early.on_global(&stream(6));
    let mut late = BackendState::new();
    late.on_global(&stream(6));
    late.on_metadata_property(6, Some("target.object"), Some("7000"));
    for state in [early, late] {
        assert_eq!(state.snapshot.nodes[0].target.as_deref(), Some("7000"));
        assert!(state.pending_targets.is_empty());
    }
}

#[test]
fn metadata_properties_change_the_graph() {
    let mut state = BackendState::new();
    state.on_global(&stream(6));
    let json = r#"{"name":"alsa"}"#;
    state.on_metadata_property(0, Some("default.audio.sink"), Some(json));
    state.on_metadata_property(0, Some("default.audio.source"), Some(json));
    assert_eq!(state.snapshot.default_sink_name.as_deref(), Some("alsa"));
    assert_eq!(state.snapshot.default_source_name.as_deref(), Some("alsa"));
    state.on_metadata_property(0, Some("default.audio.sink"), Some("no json"));
    assert_eq!(state.snapshot.default_sink_name, None);
    state.on_metadata_property(0, Some("something.else"), None);
    assert_eq!(state.snapshot.default_source_name.as_deref(), Some("alsa"));
    state.on_metadata_property(0, None, None);
    assert_eq!(state.snapshot.default_source_name, None);

    state.on_metadata_property(6, Some("target.node"), Some("1"));
    assert_eq!(state.snapshot.nodes[0].target.as_deref(), Some("1"));
    state.on_metadata_property(6, Some("unrelated"), Some("2"));
    assert_eq!(state.snapshot.nodes[0].target.as_deref(), Some("1"));
    state.on_metadata_property(6, None, None);
    assert_eq!(state.snapshot.nodes[0].target, None);
    state.on_metadata_property(9, Some("target.object"), Some("3"));
    state.on_metadata_property(9, Some("target.object"), None);
    assert!(state.pending_targets.is_empty());
}

#[test]
fn commands_reach_bound_objects() {
    let mut state = BackendState::new();
    assert!(state.on_command(BackendCommand::SetMute { node_id: 5, muted: true }).is_none());
    assert!(state.on_command(BackendCommand::SetVolume { node_id: 5, percent: 10 }).is_none());
    let profile = BackendCommand::SetCardProfile {
        card_id: 9,
        profile_index: 2,
    };
    assert!(state.on_command(profile.clone()).is_none());
    let pin = BackendCommand::SetStreamTarget {
        stream_id: 6,
        target_serial: Some(7000),
    };
    assert!(state.on_command(pin.clone()).is_none());
    assert!(matches!(state.on_command(BackendCommand::Quit), Some(Effect::Quit)));

    state.on_bind(5, BindRequest::Node);
    state.on_bind(9, BindRequest::Device);
    state.on_bind(3, BindRequest::Metadata);
    match state.on_command(BackendCommand::SetMute { node_id: 5, muted: true }) {
        Some(Effect::SetNodeProps { node_id, properties }) => {
            assert_eq!((node_id, properties), (5, mute_properties(true)));
        }
        other => panic!("{other:?}"),
    }
    match state.on_command(BackendCommand::SetVolume { node_id: 5, percent: 200 }) {
        Some(Effect::SetNodeProps { properties, .. }) => {
            assert_eq!(properties.len(), 1);
            assert_eq!(properties[0].key, PropKey::Volume);
            assert_eq!(properties[0].value, PodValue::Volume(150));
        }
        other => panic!("{other:?}"),
    }
    state.on_node_props(5, &volume_properties(30, Some(2)));
    match state.on_command(BackendCommand::SetVolume { node_id: 5, percent: 40 }) {
        Some(Effect::SetNodeProps { properties, .. }) => {
            assert_eq!(properties[0].value, PodValue::Volumes(vec![40, 40]));
        }
        other => panic!("{other:?}"),
    }
    match state.on_command(profile) {
        Some(Effect::SetCardProfile { card_id, properties }) => {
            assert_eq!((card_id, properties), (9, profile_properties(2)));
        }
        other => panic!("{other:?}"),
    }
    match state.on_command(pin) {
        Some(Effect::SetMetadata { subject, key, kind, value }) => {
            assert_eq!(subject, 6);
            assert_eq!(key, "target.object");
            assert_eq!(kind.as_deref(), Some("Spa:Id"));
            assert_eq!(value.as_deref(), Some("7000"));
        }
        other => panic!("{other:?}"),
    }
    let clear = BackendCommand::SetStreamTarget {
        stream_id: 6,
        target_serial: None,
    };
    match state.on_command(clear) {
        Some(Effect::SetMetadata { kind, value, .. }) => {
            assert_eq!((kind, value), (None, None));
        }
        other => panic!("{other:?}"),
    }
}

#[test]
fn defaults_change_at_once() {
    let mut state = BackendState::new();
    state.on_global(&sink(5, "alsa"));
    let sink_command = BackendCommand::SetDefaultSink {
        node_name: "alsa".into(),
    };
    // Even before the metadata is there.
    assert!(state.on_command(sink_command.clone()).is_none());
    assert!(state.snapshot.is_default(&state.snapshot.nodes[0].clone()));
    state.on_bind(3, BindRequest::Metadata);
    match state.on_command(sink_command) {
        Some(Effect::SetMetadata { subject, key, kind, value }) => {
            assert_eq!(subject, 0);
            assert_eq!(key, "default.configured.audio.sink");
            assert_eq!(kind.as_deref(), Some("Spa:String:JSON"));
            assert_eq!(value.as_deref(), Some(r#"{"name":"alsa"}"#));
        }
        other => panic!("{other:?}"),
    }
    let source = BackendCommand::SetDefaultSource {
        node_name: "mic \"a\\b\"".into(),
    };
    match state.on_command(source) {
        Some(Effect::SetMetadata { key, value, .. }) => {
            assert_eq!(key, "default.configured.audio.source");
            assert_eq!(value.as_deref(), Some(r#"{"name":"mic \"a\\b\""}"#));
        }
        other => panic!("{other:?}"),
    }
}

#[test]
fn reported_volumes_are_merged() {
    let mut state = BackendState::new();
    state.on_global(&sink(5, "alsa"));
    state.on_node_props(5, &mute_properties(true));
    assert_eq!(
        state.snapshot.nodes[0].volume,
        Some(Volume {
            hundredths: 100,
            muted: true
        })
    );
    state.on_node_props(5, &volume_properties(64, Some(2)));
    assert_eq!(
        state.snapshot.nodes[0].volume,
        Some(Volume {
            hundredths: 64,
            muted: true
        })
    );
    assert_eq!(state.channels.get(&5), Some(&2));
    state.on_node_props(5, &Vec::new());
    assert_eq!(state.snapshot.nodes[0].volume.map(|v| v.hundredths), Some(64));
}

fn property(key: PropKey, value: PodValue) -> PodProperty {
    PodProperty { key, value }
}

#[test]
fn parameter_objects_are_decoded() {
    let decoded = decode_props(&vec![
        property(PropKey::Volume, PodValue::Volume(80)),
        property(PropKey::ChannelVolumes, PodValue::Volumes(vec![50, 60])),
        property(PropKey::Mute, PodValue::Bool(true)),
        property(PropKey::Mute, PodValue::Int(1)),
    ]);
    assert_eq!(decoded.mute, Some(true));
    assert_eq!(decoded.volume, Some(50));
    assert_eq!(decoded.channel_count, Some(2));
    let decoded = decode_props(&vec![
        property(PropKey::ChannelVolumes, PodValue::Volumes(vec![])),
        property(PropKey::Volume, PodValue::Volume(80)),
    ]);
    assert_eq!(decoded.volume, Some(80));
    assert_eq!(decoded.channel_count, Some(0));

    assert_eq!(decode_active_profile_index(&profile_properties(3)), Some(3));
    assert_eq!(decode_active_profile_index(&mute_properties(true)), None);
    let negative = vec![property(PropKey::ProfileIndex, PodValue::Int(-1))];
    assert_eq!(decode_active_profile_index(&negative), Some(u32::MAX));

    let profile = decode_enum_profile(&vec![
        property(PropKey::ProfileIndex, PodValue::Int(7)),
        property(PropKey::ProfileAvailable, PodValue::Id(IdValue::AvailabilityNo)),
    ])
    .expect("a profile");
    assert_eq!(profile.index, 7);
    assert_eq!(profile.name, "profile-7");
    assert_eq!(profile.description, "profile-7");
    assert_eq!(profile.available, ProfileAvailability::No);
    let unnamed = vec![property(PropKey::ProfileName, PodValue::Text("pro".into()))];
    assert!(decode_enum_profile(&unnamed).is_none());
}

#[test]
fn profiles_are_kept_once_per_index() {
    let mut state = BackendState::new();
    state.on_global(&global(9, GlobalKind::Device, &[("media.class", "Audio/Device")]));
    let named = |index: i32, name: &str| {
        vec![
            property(PropKey::ProfileIndex, PodValue::Int(index)),
            property(PropKey::ProfileName, PodValue::Text(name.into())),
        ]
    };
    state.on_enum_profile(9, &named(0, "off"));
    state.on_enum_profile(9, &named(1, "stereo"));
    state.on_enum_profile(9, &named(0, "Off"));
    state.on_enum_profile(8, &named(0, "other card"));
    let names: Vec<&str> = state.snapshot.cards[0]
        .profiles
        .iter()
        .map(|p| p.name.as_str())
        .collect();
    assert_eq!(names, vec!["Off", "stereo"]);
    state.on_profile(9, &profile_properties(1));
    assert_eq!(state.snapshot.cards[0].active_profile, Some(1));
}

#[test]
fn the_demo_server_ignores_requests() {
    let server = DemoBackend;
    let before = server.refresh();
    ask(&server, &BackendCommand::SetMute { node_id: 42, muted: true });
    ask(&server, &BackendCommand::Quit);
    let after = server.refresh();
    assert_eq!(before.nodes.len(), after.nodes.len());
    assert_eq!(after.nodes[0].volume.map(|v| v.muted), Some(false));
}
