use damascene_volume::backend::globals::{Global, GlobalKind};
use damascene_volume::levels::capture::capture_for;
use damascene_volume::levels::linker::{link_properties, meter_node_name, LinkerState};
use damascene_volume::levels::samples::{
    band_range, deinterleave, frames, resize_smoothing, usable_bytes, SpectrumFeed, FFT_HOP,
    FFT_SIZE,
};
use damascene_volume::levels::{
    meter_route_for, LevelService, MeterRoute, NodeLevels, SpectrumSnapshot, SPECTRUM_HISTORY,
};
use damascene_volume::model::{AudioClass, AudioNode, Direction};

fn test_node(class: AudioClass) -> AudioNode {
    AudioNode {
        id: 1,
        serial: 1,
        class,
        name: "test".into(),
        description: "test".into(),
        application: None,
        media_name: None,
        target: None,
        volume: None,
        media_role: None,
    }
}

#[test]
fn outputs_link_explicitly_and_inputs_autoconnect() {
    let output_device = test_node(AudioClass::Device {
        direction: Direction::Output,
    });
    let output_stream = test_node(AudioClass::Stream {
        direction: Direction::Output,
    });
    let input_device = test_node(AudioClass::Device {
        direction: Direction::Input,
    });
    let input_stream = test_node(AudioClass::Stream {
        direction: Direction::Input,
    });
    assert_eq!(
        meter_route_for(&output_device),
        Some(MeterRoute::LinkFromOutputs)
    );
    assert_eq!(
        meter_route_for(&output_stream),
        Some(MeterRoute::LinkFromOutputs)
    );
    assert_eq!(
        meter_route_for(&input_device),
        Some(MeterRoute::AutoConnect)
    );
    assert_eq!(
        meter_route_for(&input_stream),
        Some(MeterRoute::AutoConnect)
    );
    assert_eq!(meter_route_for(&test_node(AudioClass::Card)), None);
}

#[test]
fn dsp_role_streams_are_not_metered() {
    let mut pavucontrol_meter = test_node(AudioClass::Stream {
        direction: Direction::Input,
    });
    pavucontrol_meter.media_role = Some("DSP".into());
    assert_eq!(meter_route_for(&pavucontrol_meter), None);
}

fn stream(id: u32) -> AudioNode {
    let mut node = test_node(AudioClass::Stream {
        direction: Direction::Output,
    });
    node.id = id;
    node
}

fn levels(peaks: Vec<u32>, rms: Vec<u32>) -> NodeLevels {
    NodeLevels { peaks, rms }
}

#[test]
fn missing_channels_have_level_zero() {
    let l = levels(vec![1, 2, 3], vec![4]);
    assert_eq!(l.channel_count(), 3);
    assert_eq!((l.peak(2), l.peak(3)), (3, 0));
    assert_eq!((l.rms(0), l.rms(1)), (4, 0));
    assert_eq!(levels(vec![], vec![]).channel_count(), 0);
}

#[test]
fn only_what_is_visible_is_metered() {
    let (a, b, c) = (stream(1), stream(2), stream(3));
    let mut dsp = stream(4);
    dsp.media_role = Some("DSP".into());
    let mut service = LevelService::new();
    let plan = service.ensure_visible(&[&a, &b, &dsp, &a], Some(&c));
    assert!(plan.stop.is_empty());
    assert_eq!(
        plan.start,
        vec![
            (1, MeterRoute::LinkFromOutputs),
            (2, MeterRoute::LinkFromOutputs),
            (3, MeterRoute::LinkFromOutputs),
        ]
    );
    assert_eq!(service.active_meter_count(), 3);
    assert!(service.shows_spectrum_of(3) && !service.shows_spectrum_of(1));

    service.publish_levels(1, levels(vec![7], vec![8]));
    service.publish_levels(2, levels(vec![9], vec![9]));
    service.publish_column(3, 48_000, vec![1, 2]);
    // The same again: nothing to do, nothing lost.
    let plan = service.ensure_visible(&[&a, &b, &dsp], Some(&c));
    assert!(plan.stop.is_empty() && plan.start.is_empty());
    assert_eq!(service.level_for(1).map(|l| l.peaks), Some(vec![7]));
    assert!(service.spectrum_for(3).is_some());

    let plan = service.ensure_visible(&[&b], None);
    let mut stop = plan.stop.clone();
    stop.sort();
    assert_eq!(stop, vec![1, 3]);
    assert!(plan.start.is_empty());
    assert!(service.level_for(1).is_none());
    assert_eq!(service.level_for(2).map(|l| l.rms), Some(vec![9]));
    assert!(service.spectrum_for(3).is_none());
    assert_eq!(service.active_meter_count(), 1);
    // A peak detector gives no spectrum either.
    let plan = service.ensure_visible(&[], Some(&dsp));
    assert_eq!(plan.stop, vec![2]);
    assert!(plan.start.is_empty() && !service.shows_spectrum_of(4));
}

#[test]
fn spectra_keep_their_history_and_rate() {
    let mut service = LevelService::default();
    for i in 0..(SPECTRUM_HISTORY as u32 + 3) {
        service.publish_column(1, 44_100, vec![i]);
    }
    let spectrum = service.spectrum_for(1).expect("a spectrum");
    assert_eq!(spectrum.columns.len(), SPECTRUM_HISTORY);
    assert_eq!(spectrum.columns[0], vec![3]);
    assert_eq!(spectrum.columns[SPECTRUM_HISTORY - 1], vec![SPECTRUM_HISTORY as u32 + 2]);
    assert_eq!(spectrum.sample_rate, 44_100);
    // Another rate starts anew.
    service.publish_column(1, 48_000, vec![5]);
    let spectrum = service.spectrum_for(1).expect("a spectrum");
    assert_eq!((spectrum.columns, spectrum.sample_rate), (vec![vec![5]], 48_000));

    let empty = SpectrumSnapshot::default();
    assert_eq!((empty.bins, empty.history, empty.sample_rate), (72, 256, 48_000));
    assert_eq!((empty.min_hz, empty.max_hz), (35, 18_000));
}

#[test]
fn whole_samples_are_usable() {
    assert_eq!(usable_bytes(10, 100, 2), Some(8));
    assert_eq!(usable_bytes(100, 11, 2), Some(8));
    assert_eq!(usable_bytes(3, 100, 2), None);
    assert_eq!(usable_bytes(0, 100, 2), None);
    assert_eq!(usable_bytes(8, 8, 0), None);
}

fn bytes(samples: &[u32]) -> Vec<u8> {
    samples.iter().flat_map(|s| s.to_le_bytes()).collect()
}

#[test]
fn samples_are_sorted_by_channel_and_frame() {
    let half = 0.5_f32.to_bits();
    let buffer = bytes(&[1, 2, half, 4, 5]);
    assert_eq!(deinterleave(&buffer, 2), vec![vec![1, half, 5], vec![2, 4]]);
    assert_eq!(frames(&buffer, 2), vec![vec![1, 2], vec![half, 4]]);
    assert_eq!(deinterleave(&buffer, 7).len(), 7);
    assert_eq!(deinterleave(&buffer, 7)[6], Vec::<u32>::new());
    assert!(frames(&buffer, 7).is_empty());
    assert!(frames(&buffer, 0).is_empty());
    assert!(deinterleave(&buffer, 0).is_empty());
    // Bytes behind the last whole sample are left out.
    assert_eq!(deinterleave(&buffer[..7], 1), vec![vec![1]]);
}

#[test]
fn smoothed_levels_follow_the_channels() {
    let (mut peaks, mut rms) = (vec![1, 2, 3], vec![9]);
    resize_smoothing(&mut peaks, &mut rms, 2);
    assert_eq!((peaks, rms), (vec![1, 2], vec![9, 0]));
}

#[test]
fn windows_overlap_by_half() {
    let run: Vec<u32> = (0..5000).collect();
    let mut feed: Option<SpectrumFeed> = None;
    assert!(SpectrumFeed::tune(&mut feed, 48_000));
    assert!(!SpectrumFeed::tune(&mut feed, 48_000));
    let mut at_once = feed.clone().unwrap();
    let windows = at_once.push_samples(&run);
    assert_eq!(windows.len(), (5000 - FFT_SIZE) / FFT_HOP + 1);
    assert_eq!(windows[0], run[..FFT_SIZE].to_vec());
    assert_eq!(windows[1], run[FFT_HOP..FFT_HOP + FFT_SIZE].to_vec());
    assert_eq!(at_once.pending, run[windows.len() * FFT_HOP..].to_vec());
    // In pieces the same windows come out.
    let mut in_pieces = feed.clone().unwrap();
    let mut collected = Vec::new();
    for piece in run.chunks(777) {
        collected.extend(in_pieces.push_samples(piece));
        assert!(in_pieces.pending.len() < FFT_SIZE);
    }
    assert_eq!(collected, windows);
    assert_eq!(in_pieces.pending, at_once.pending);
    // Another rate drops what waits; a rate of zero counts as one.
    feed = Some(at_once);
    assert!(SpectrumFeed::tune(&mut feed, 0));
    let feed = feed.unwrap();
    assert_eq!(feed.sample_rate, 1);
    assert!(feed.pending.is_empty());
}

fn global(id: u32, kind: GlobalKind, pairs: &[(&str, &str)]) -> Global {
    Global {
        id,
        kind,
        props: Some(
            pairs
                .iter()
                .map(|(k, v)| (k.to_string(), v.to_string()))
                .collect(),
        ),
    }
}

fn port(id: u32, node: &str, direction: &str) -> Global {
    global(id, GlobalKind::Port, &[("node.id", node), ("port.direction", direction)])
}

/// Goes through pairs, where the attempts at the given positions fail, and gives those attempted.
fn attempts(linker: &mut LinkerState, pairs: &Vec<(u32, u32)>, fail: &[usize]) -> Vec<(u32, u32)> {
    let mut attempted = Vec::new();
    let mut from = 0;
    while let Some(i) = linker.next_attempt(pairs, from) {
        attempted.push(pairs[i]);
        if !fail.contains(&i) {
            linker.on_linked(pairs[i]);
        }
        from = i + 1;
    }
    attempted
}

#[test]
fn ports_are_linked_as_they_come() {
    let name = meter_node_name(7);
    assert_eq!(name, "damascene-volume.meter.7");
    let mut linker = LinkerState::new();
    // The meter's own ports come before its node.
    assert!(linker.on_global(&port(91, "90", "in"), &name, 7).is_empty());
    assert!(linker.on_global(&port(92, "90", "in"), &name, 7).is_empty());
    assert!(linker.on_global(&port(71, "7", "out"), &name, 7).is_empty());
    let own = global(90, GlobalKind::Node, &[("node.name", &name)]);
    let pairs = linker.on_global(&own, &name, 7);
    assert_eq!(pairs, vec![(71, 91)]);
    assert!(!linker.is_linked((71, 91)));
    assert_eq!(attempts(&mut linker, &pairs, &[]), vec![(71, 91)]);
    linker.on_linked((71, 91));
    assert!(linker.is_linked((71, 91)));
    assert_eq!(linker.links.len(), 1);
    // The right channel comes late, and the left one is not linked again.
    let pairs = linker.on_global(&port(72, "7", "out"), &name, 7);
    assert_eq!(pairs, vec![(71, 91), (72, 92)]);
    assert_eq!(attempts(&mut linker, &pairs, &[]), vec![(72, 92)]);
    assert_eq!(linker.next_attempt(&pairs, 0), None);
    // Inputs of the metered node, ports without a node and other objects do not matter.
    let pairs = linker.on_global(&port(73, "7", "in"), &name, 7);
    assert!(attempts(&mut linker, &pairs, &[]).is_empty());
    assert!(linker.on_global(&port(74, "x", "out"), &name, 7).is_empty());
    assert!(linker.on_global(&global(75, GlobalKind::Link, &[]), &name, 7).is_empty());
    // A port that goes takes its link along.
    linker.on_global_remove(71);
    assert!(!linker.is_linked((71, 91)));
    assert!(linker.is_linked((72, 92)));
    assert_eq!(linker.pairs(7), vec![(72, 91)]);
    linker.on_global_remove(90);
    assert!(linker.pairs(7).is_empty());
}

#[test]
fn ports_that_are_announced_twice_are_linked_once() {
    let name = meter_node_name(7);
    let mut linker = LinkerState::new();
    for _ in 0..2 {
        linker.on_global(&port(71, "7", "out"), &name, 7);
        linker.on_global(&port(91, "90", "in"), &name, 7);
    }
    linker.on_global(&port(72, "7", "out"), &name, 7);
    linker.on_global(&port(92, "90", "in"), &name, 7);
    let own = global(90, GlobalKind::Node, &[("node.name", &name)]);
    let pairs = linker.on_global(&own, &name, 7);
    assert_eq!(pairs, vec![(71, 91), (71, 91), (72, 92)]);
    assert_eq!(attempts(&mut linker, &pairs, &[]), vec![(71, 91), (72, 92)]);
    assert_eq!(linker.links.len(), 2);
}

#[test]
fn a_link_that_failed_is_attempted_again() {
    let mut linker = LinkerState::new();
    let pairs = vec![(71, 91), (71, 91), (71, 91)];
    let attempted = attempts(&mut linker, &pairs, &[0]);
    assert_eq!(attempted, vec![(71, 91), (71, 91)]);
    assert_eq!(linker.links, vec![(71, 91)]);
    assert_eq!(linker.next_attempt(&pairs, 0), None);
    assert_eq!(LinkerState::new().next_attempt(&pairs, 3), None);
}

#[test]
fn links_name_both_ends() {
    let properties = link_properties(7, 71, 90, 91);
    let text: Vec<String> = properties.iter().map(|(k, v)| format!("{k}={v}")).collect();
    assert_eq!(
        text,
        vec![
            "link.output.node=7",
            "link.output.port=71",
            "link.input.node=90",
            "link.input.port=91",
            "object.linger=false",
        ]
    );
}

#[test]
fn captures_are_marked_and_pinned() {
    let auto = capture_for(7, MeterRoute::AutoConnect);
    assert_eq!(auto.connect_to, Some(7));
    assert_eq!(auto.fixed_format, None);
    assert!(auto.properties.contains(&("media.role".into(), "DSP".into())));
    assert!(auto.properties.contains(&("target.object".into(), "7".into())));
    let linked = capture_for(7, MeterRoute::LinkFromOutputs);
    assert_eq!(linked.connect_to, None);
    assert_eq!(linked.fixed_format, Some((48_000, 2)));
    assert!(linked.properties.contains(&("node.name".into(), "damascene-volume.meter.7".into())));
    assert_eq!(linked.properties.len() + 1, auto.properties.len());
}

#[test]
fn bands_take_in_something_below_the_middle() {
    assert_eq!(band_range(0, 0), (1, 2));
    assert_eq!(band_range(1, 2), (1, 2));
    assert_eq!(band_range(10, 10), (10, 11));
    assert_eq!(band_range(700, 768), (700, 768));
    assert_eq!(band_range(1000, 2000), (1000, 1024));
    assert_eq!(band_range(1024, 1024), (1024, 1024));
    assert_eq!(band_range(usize::MAX, 0), (usize::MAX, 1024));
}
