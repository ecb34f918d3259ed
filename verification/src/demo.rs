//! A fixed graph with names as long as real ones, to lay the panel out against.

use std::collections::HashMap;

use vstd::prelude::*;

use crate::backend::registry;
use crate::model::{
    AudioCard, AudioClass, AudioNode, AudioProfile, AudioSnapshot, CardView, ClassView, Direction,
    NodeView, ProfileAvailability, ProfileView, SnapshotView, Volume,
};

verus! {

/// A device of the fixed graph. Its serial is its id.
pub open spec fn device_view(
    id: u32,
    direction: Direction,
    name: Seq<char>,
    description: Seq<char>,
    target: Seq<char>,
    percent: u32,
) -> NodeView {
    NodeView {
        id,
        serial: id as u64,
        class: ClassView::Device { direction },
        name,
        description,
        application: None,
        media_name: None,
        target: Some(target),
        volume: Some(Volume { hundredths: percent, muted: false }),
        media_role: None,
    }
}

/// A stream of the fixed graph. Its serial is its id, its description its name.
pub open spec fn stream_view(
    id: u32,
    direction: Direction,
    name: Seq<char>,
    application: Seq<char>,
    media_name: Seq<char>,
    target: Seq<char>,
    volume: Volume,
) -> NodeView {
    NodeView {
        id,
        serial: id as u64,
        class: ClassView::Stream { direction },
        name,
        description: name,
        application: Some(application),
        media_name: Some(media_name),
        target: Some(target),
        volume: Some(volume),
        media_role: None,
    }
}

/// The nodes of the fixed graph.
pub open spec fn demo_nodes() -> Seq<NodeView> {
    let analog = "Family 17h/19h/1ah HD Audio Controller Analog Stereo"@;
    seq![
        device_view(
            42,
            Direction::Output,
            "alsa_output.pci-0000_0b_00.4.analog-stereo"@,
            analog,
            "Analog Stereo Duplex"@,
            64,
        ),
        device_view(
            48,
            Direction::Output,
            "alsa_output.pci-0000_0a_00.1.hdmi-stereo"@,
            "Navi 21 HDMI Audio [Radeon RX 6800/6800 XT / 6900 XT] Digital Stereo (HDMI 3)"@,
            "Digital Stereo (HDMI 3)"@,
            100,
        ),
        stream_view(
            56,
            Direction::Output,
            "Firefox"@,
            "Firefox"@,
            "YouTube — Mozart Symphony No. 40 in G minor"@,
            analog,
            Volume { hundredths: 82, muted: false },
        ),
        stream_view(
            61,
            Direction::Output,
            "Discord"@,
            "WEBRTC VoiceEngine"@,
            "Voice call (#general)"@,
            analog,
            Volume { hundredths: 48, muted: true },
        ),
        stream_view(
            64,
            Direction::Output,
            "ALSA plug-in [steam_app_2369390]"@,
            "ALSA plug-in [steam_app_2369390]"@,
            "ALSA Playback"@,
            analog,
            Volume { hundredths: 100, muted: false },
        ),
        device_view(
            77,
            Direction::Input,
            "alsa_input.usb-Razer_Razer_Seiren_X-00.analog-stereo"@,
            "Razer Seiren X Analog Stereo"@,
            "Analog Stereo"@,
            71,
        ),
        stream_view(
            81,
            Direction::Input,
            "OBS Studio"@,
            "OBS Studio"@,
            "Mic/Aux capture"@,
            "Razer Seiren X Analog Stereo"@,
            Volume { hundredths: 100, muted: false },
        ),
    ]
}

/// A profile of the fixed graph.
pub open spec fn profile_view(
    index: u32,
    name: Seq<char>,
    description: Seq<char>,
    available: ProfileAvailability,
) -> ProfileView {
    ProfileView { index, name, description, available }
}

/// The cards of the fixed graph.
pub open spec fn demo_cards() -> Seq<CardView> {
    seq![
        CardView {
            id: 12,
            name: "alsa_card.pci-0000_0b_00.4"@,
            description: "Family 17h/19h/1ah HD Audio Controller"@,
            active_profile: Some(1u32),
            profiles: seq![
                profile_view(
                    1,
                    "output:analog-stereo+input:analog-stereo"@,
                    "Analog Stereo Duplex"@,
                    ProfileAvailability::Yes,
                ),
                profile_view(
                    2,
                    "output:hdmi-stereo"@,
                    "Digital Stereo (HDMI) Output + Analog Stereo Input"@,
                    ProfileAvailability::Yes,
                ),
                profile_view(
                    3,
                    "output:hdmi-surround51"@,
                    "Digital Surround 5.1 (HDMI) Output + Analog Stereo Input"@,
                    ProfileAvailability::No,
                ),
                profile_view(0, "off"@, "Off"@, ProfileAvailability::Yes),
            ],
        },
        CardView {
            id: 18,
            name: "alsa_card.pci-0000_0a_00.1"@,
            description: "Navi 21 HDMI Audio [Radeon RX 6800/6800 XT / 6900 XT]"@,
            active_profile: Some(2u32),
            profiles: seq![
                profile_view(0, "off"@, "Off"@, ProfileAvailability::Yes),
                profile_view(
                    2,
                    "output:hdmi-stereo-extra2"@,
                    "Digital Stereo (HDMI 3) Output"@,
                    ProfileAvailability::Yes,
                ),
            ],
        },
    ]
}

/// The fixed graph. It holds no live links: every stream of it names its target.
pub open spec fn demo_graph() -> SnapshotView {
    SnapshotView {
        nodes: demo_nodes(),
        cards: demo_cards(),
        server_name: Some("PipeWire 1.2.7"@),
        error: None,
        default_sink_name: Some("alsa_output.pci-0000_0b_00.4.analog-stereo"@),
        default_source_name: Some("alsa_input.usb-Razer_Razer_Seiren_X-00.analog-stereo"@),
        peers: Map::empty(),
    }
}

fn device(
    id: u32,
    direction: Direction,
    name: &str,
    description: &str,
    target: &str,
    percent: u32,
) -> (r: AudioNode)
    ensures
        r@ == device_view(id, direction, name@, description@, target@, percent),
{
    AudioNode {
        id,
        serial: id as u64,
        class: AudioClass::Device { direction },
        name: name.to_owned(),
        description: description.to_owned(),
        application: None,
        media_name: None,
        target: Some(target.to_owned()),
        volume: Some(Volume { hundredths: percent, muted: false }),
        media_role: None,
    }
}

fn stream(
    id: u32,
    direction: Direction,
    name: &str,
    application: &str,
    media_name: &str,
    target: &str,
    volume: Volume,
) -> (r: AudioNode)
    ensures
        r@ == stream_view(id, direction, name@, application@, media_name@, target@, volume),
{
    AudioNode {
        id,
        serial: id as u64,
        class: AudioClass::Stream { direction },
        name: name.to_owned(),
        description: name.to_owned(),
        application: Some(application.to_owned()),
        media_name: Some(media_name.to_owned()),
        target: Some(target.to_owned()),
        volume: Some(volume),
        media_role: None,
    }
}

fn profile(index: u32, name: &str, description: &str, available: ProfileAvailability) -> (r:
    AudioProfile)
    ensures
        r@ == profile_view(index, name@, description@, available),
{
    AudioProfile { index, name: name.to_owned(), description: description.to_owned(), available }
}

fn nodes() -> (r: Vec<AudioNode>)
    ensures
        crate::model::node_views(r@) == demo_nodes(),
{
    let analog = "Family 17h/19h/1ah HD Audio Controller Analog Stereo";
    let mut r: Vec<AudioNode> = Vec::new();
    r.push(
        device(
            42,
            Direction::Output,
            "alsa_output.pci-0000_0b_00.4.analog-stereo",
            analog,
            "Analog Stereo Duplex",
            64,
        ),
    );
    r.push(
        device(
            48,
            Direction::Output,
            "alsa_output.pci-0000_0a_00.1.hdmi-stereo",
            "Navi 21 HDMI Audio [Radeon RX 6800/6800 XT / 6900 XT] Digital Stereo (HDMI 3)",
            "Digital Stereo (HDMI 3)",
            100,
        ),
    );
    r.push(
        stream(
            56,
            Direction::Output,
            "Firefox",
            "Firefox",
            "YouTube — Mozart Symphony No. 40 in G minor",
            analog,
            Volume { hundredths: 82, muted: false },
        ),
    );
    r.push(
        stream(
            61,
            Direction::Output,
            "Discord",
            "WEBRTC VoiceEngine",
            "Voice call (#general)",
            analog,
            Volume { hundredths: 48, muted: true },
        ),
    );
    r.push(
        stream(
            64,
            Direction::Output,
            "ALSA plug-in [steam_app_2369390]",
            "ALSA plug-in [steam_app_2369390]",
            "ALSA Playback",
            analog,
            Volume { hundredths: 100, muted: false },
        ),
    );
    r.push(
        device(
            77,
            Direction::Input,
            "alsa_input.usb-Razer_Razer_Seiren_X-00.analog-stereo",
            "Razer Seiren X Analog Stereo",
            "Analog Stereo",
            71,
        ),
    );
    r.push(
        stream(
            81,
            Direction::Input,
            "OBS Studio",
            "OBS Studio",
            "Mic/Aux capture",
            "Razer Seiren X Analog Stereo",
            Volume { hundredths: 100, muted: false },
        ),
    );
    assert(crate::model::node_views(r@) =~= demo_nodes());
    r
}

fn cards() -> (r: Vec<AudioCard>)
    ensures
        crate::model::card_views(r@) == demo_cards(),
{
    let mut first: Vec<AudioProfile> = Vec::new();
    first.push(
        profile(
            1,
            "output:analog-stereo+input:analog-stereo",
            "Analog Stereo Duplex",
            ProfileAvailability::Yes,
        ),
    );
    first.push(
        profile(
            2,
            "output:hdmi-stereo",
            "Digital Stereo (HDMI) Output + Analog Stereo Input",
            ProfileAvailability::Yes,
        ),
    );
    first.push(
        profile(
            3,
            "output:hdmi-surround51",
            "Digital Surround 5.1 (HDMI) Output + Analog Stereo Input",
            ProfileAvailability::No,
        ),
    );
    first.push(profile(0, "off", "Off", ProfileAvailability::Yes));
    let mut second: Vec<AudioProfile> = Vec::new();
    second.push(profile(0, "off", "Off", ProfileAvailability::Yes));
    second.push(
        profile(
            2,
            "output:hdmi-stereo-extra2",
            "Digital Stereo (HDMI 3) Output",
            ProfileAvailability::Yes,
        ),
    );
    let mut r: Vec<AudioCard> = Vec::new();
    r.push(
        AudioCard {
            id: 12,
            name: "alsa_card.pci-0000_0b_00.4".to_owned(),
            description: "Family 17h/19h/1ah HD Audio Controller".to_owned(),
            active_profile: Some(1),
            profiles: first,
        },
    );
    r.push(
        AudioCard {
            id: 18,
            name: "alsa_card.pci-0000_0a_00.1".to_owned(),
            description: "Navi 21 HDMI Audio [Radeon RX 6800/6800 XT / 6900 XT]".to_owned(),
            active_profile: Some(2),
            profiles: second,
        },
    );
    assert(r@[0]@.profiles =~= demo_cards()[0].profiles);
    assert(r@[1]@.profiles =~= demo_cards()[1].profiles);
    assert(crate::model::card_views(r@) =~= demo_cards());
    r
}

impl AudioSnapshot {
    /// The fixed graph.
    pub fn demo() -> (r: Self)
        ensures
            r@ == demo_graph(),
    {
        let r = AudioSnapshot {
            nodes: nodes(),
            cards: cards(),
            server_name: Some("PipeWire 1.2.7".to_owned()),
            error: None,
            default_sink_name: Some("alsa_output.pci-0000_0b_00.4.analog-stereo".to_owned()),
            default_source_name: Some(
                "alsa_input.usb-Razer_Razer_Seiren_X-00.analog-stereo".to_owned(),
            ),
            peers: HashMap::new(),
        };
        assert(r@.peers =~= Map::empty());
        r
    }
}

/// The fixed graph is one that a server could report: ids and indices are not shared, every node has
/// a serial, a volume up to the nominal one and a target, each default names a device of its
/// direction, each card's active profile is one of its own, and each tab has something to list.
pub proof fn lemma_demo_graph_is_sound(k: int, c: int)
    ensures
        ({
            let graph = demo_graph();
            &&& registry::distinct_nodes(graph.nodes)
            &&& registry::distinct_cards(graph.cards)
            &&& 0 <= k < graph.nodes.len() ==> {
                let node = graph.nodes[k];
                &&& node.serial == node.id
                &&& node.volume matches Some(volume) && volume.hundredths <= 100
                &&& node.target is Some
                &&& node.class is Device || node.class is Stream
            }
            &&& 0 <= c < graph.cards.len() ==> {
                let card = graph.cards[c];
                &&& registry::distinct_profiles(card.profiles)
                &&& exists|p: int|
                    0 <= p < card.profiles.len() && card.active_profile == Some(
                        (#[trigger] card.profiles[p]).index,
                    )
            }
            &&& exists|d: int|
                0 <= d < graph.nodes.len() && (#[trigger] graph.nodes[d]).is_device(Direction::Output)
                    && graph.is_default(graph.nodes[d])
            &&& exists|d: int|
                0 <= d < graph.nodes.len() && (#[trigger] graph.nodes[d]).is_device(Direction::Input)
                    && graph.is_default(graph.nodes[d])
            &&& exists|d: int|
                0 <= d < graph.nodes.len() && (#[trigger] graph.nodes[d]).is_stream(Direction::Output)
            &&& exists|d: int|
                0 <= d < graph.nodes.len() && (#[trigger] graph.nodes[d]).is_stream(Direction::Input)
        }),
{
    let graph = demo_graph();
    assert(graph.nodes[0].is_device(Direction::Output));
    assert(graph.nodes[2].is_stream(Direction::Output));
    assert(graph.nodes[5].is_device(Direction::Input));
    assert(graph.nodes[6].is_stream(Direction::Input));
    assert(graph.is_default(graph.nodes[0]));
    assert(graph.is_default(graph.nodes[5]));
    assert(graph.cards[0].profiles[0].index == 1);
    assert(graph.cards[1].profiles[1].index == 2);
}

} // verus!
