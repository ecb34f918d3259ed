//! What PipeWire's registry announces: nodes, cards and links, each with its properties.

use vstd::prelude::*;

use crate::model::{
    AudioCard, AudioClass, AudioNode, CardView, ClassView, Direction, NodeView,
};
use crate::text;

verus! {

/// The type of an announced object, as far as the panel tells it apart.
#[derive(Debug, Clone, Copy, PartialEq, Eq, Structural)]
pub enum GlobalKind {
    Node,
    Device,
    Port,
    Metadata,
    Link,
    Other,
}

/// An object that the registry announces.
#[derive(Debug, Clone)]
pub struct Global {
    pub id: u32,
    pub kind: GlobalKind,
    /// The properties, in the order of the announcement.
    pub props: Option<Vec<(String, String)>>,
}

/// The value of a [`Global`].
#[verifier::ext_equal]
pub struct GlobalView {
    pub id: u32,
    pub kind: GlobalKind,
    pub props: Option<Seq<(Seq<char>, Seq<char>)>>,
}

/// The values of properties.
pub open spec fn prop_views(props: Seq<(String, String)>) -> Seq<(Seq<char>, Seq<char>)> {
    props.map_values(|p: (String, String)| (p.0@, p.1@))
}

impl View for Global {
    type V = GlobalView;

    open spec fn view(&self) -> GlobalView {
        GlobalView {
            id: self.id,
            kind: self.kind,
            props: match self.props {
                Some(props) => Some(prop_views(props@)),
                None => None,
            },
        }
    }
}

/// The value of the first property with the given key.
pub open spec fn prop_value(props: Seq<(Seq<char>, Seq<char>)>, key: Seq<char>) -> Option<Seq<char>>
    decreases props.len(),
{
    if props.len() == 0 {
        None
    } else if props.first().0 == key {
        Some(props.first().1)
    } else {
        prop_value(props.drop_first(), key)
    }
}

/// The first property with a key is the one that is looked up.
pub proof fn lemma_prop_value_at(props: Seq<(Seq<char>, Seq<char>)>, key: Seq<char>, i: int)
    requires
        0 <= i < props.len(),
        props[i].0 == key,
        forall|j: int| 0 <= j < i ==> (#[trigger] props[j]).0 != key,
    ensures
        prop_value(props, key) == Some(props[i].1),
    decreases i,
{
    if i > 0 {
        let rest = props.drop_first();
        assert forall|j: int| 0 <= j < i - 1 implies (#[trigger] rest[j]).0 != key by {
            assert(rest[j] == props[j + 1]);
        }
        assert(props[0].0 != key);
        lemma_prop_value_at(rest, key, i - 1);
    }
}

/// The first of two optional values that is there.
pub open spec fn either<T>(a: Option<T>, b: Option<T>) -> Option<T> {
    match a {
        Some(t) => Some(t),
        None => b,
    }
}

/// Looks up the first property with the given key.
pub fn prop<'a>(props: &'a Vec<(String, String)>, key: &str) -> (r: Option<&'a str>)
    ensures
        text::opt_str(r) == prop_value(prop_views(props@), key@),
{
    let ghost all = prop_views(props@);
    let mut i: usize = 0;
    assert(all.skip(0) =~= all);
    while i < props.len()
        invariant
            i <= props@.len(),
            all == prop_views(props@),
            prop_value(all, key@) == prop_value(all.skip(i as int), key@),
        decreases props@.len() - i,
    {
        proof {
            assert(all.skip(i as int).first() == all[i as int]);
            assert(all.skip(i as int).drop_first() =~= all.skip(i + 1));
        }
        if text::text_eq(props[i].0.as_str(), key) {
            return Some(props[i].1.as_str());
        }
        i += 1;
    }
    None
}

/// Looks up the first property with one key, or else with another.
fn prop_or<'a>(props: &'a Vec<(String, String)>, key: &str, other: &str) -> (r: Option<&'a str>)
    ensures
        text::opt_str(r) == either(
            prop_value(prop_views(props@), key@),
            prop_value(prop_views(props@), other@),
        ),
{
    match prop(props, key) {
        Some(value) => Some(value),
        None => prop(props, other),
    }
}

fn owned(s: Option<&str>) -> (r: Option<String>)
    ensures
        text::opt_text(r) == text::opt_str(s),
{
    match s {
        Some(s) => Some(s.to_owned()),
        None => None,
    }
}

/// Whether properties are those of an internal node: one named like a meter of `aetna-volume`, or
/// owned by the application of that name.
pub open spec fn is_internal(props: Seq<(Seq<char>, Seq<char>)>) -> bool {
    ||| prop_value(props, "node.name"@) matches Some(name) && text::has_prefix(
        name,
        "aetna-volume.meter."@,
    )
    ||| prop_value(props, "application.name"@) == Some("aetna-volume"@)
}

/// Recognises internal nodes by their properties.
pub fn is_internal_node(props: &Vec<(String, String)>) -> (r: bool)
    ensures
        r == is_internal(prop_views(props@)),
{
    if let Some(name) = prop(props, "node.name") {
        if text::strip_prefix(name, "aetna-volume.meter.").is_some() {
            return true;
        }
    }
    match prop(props, "application.name") {
        Some(name) => text::text_eq(name, "aetna-volume"),
        None => false,
    }
}

/// The class of the nodes with a given `media.class`.
pub open spec fn class_of(media_class: Seq<char>) -> ClassView {
    if media_class == "Audio/Sink"@ {
        ClassView::Device { direction: Direction::Output }
    } else if media_class == "Audio/Source"@ {
        ClassView::Device { direction: Direction::Input }
    } else if media_class == "Stream/Output/Audio"@ {
        ClassView::Stream { direction: Direction::Output }
    } else if media_class == "Stream/Input/Audio"@ {
        ClassView::Stream { direction: Direction::Input }
    } else {
        ClassView::Other(media_class)
    }
}

fn class_for(media_class: &str) -> (r: AudioClass)
    ensures
        r@ == class_of(media_class@),
{
    if text::text_eq(media_class, "Audio/Sink") {
        AudioClass::Device { direction: Direction::Output }
    } else if text::text_eq(media_class, "Audio/Source") {
        AudioClass::Device { direction: Direction::Input }
    } else if text::text_eq(media_class, "Stream/Output/Audio") {
        AudioClass::Stream { direction: Direction::Output }
    } else if text::text_eq(media_class, "Stream/Input/Audio") {
        AudioClass::Stream { direction: Direction::Input }
    } else {
        AudioClass::Other(media_class.to_owned())
    }
}

/// The name of a node with the given properties.
pub open spec fn node_name(props: Seq<(Seq<char>, Seq<char>)>) -> Seq<char> {
    match prop_value(props, "node.name"@) {
        Some(name) => name,
        None => "unnamed"@,
    }
}

/// The description of a node with the given properties: its own, its nickname, its application's
/// name, its media name, or its name.
pub open spec fn node_description(props: Seq<(Seq<char>, Seq<char>)>) -> Seq<char> {
    match either(
        either(prop_value(props, "node.description"@), prop_value(props, "node.nick"@)),
        either(prop_value(props, "application.name"@), prop_value(props, "media.name"@)),
    ) {
        Some(description) => description,
        None => node_name(props),
    }
}

/// The serial of a node with the given properties; its id, which no routing can mistake for "no
/// serial", when it announces none.
pub open spec fn node_serial(id: u32, props: Seq<(Seq<char>, Seq<char>)>) -> u64 {
    match prop_value(props, "object.serial"@) {
        Some(serial) => match text::parsed(serial, u64::MAX as int) {
            Some(n) => n as u64,
            None => id as u64,
        },
        None => id as u64,
    }
}

/// The stream or device that an announcement describes. Other nodes, and internal ones, are none.
pub open spec fn announced_node(global: GlobalView) -> Option<NodeView> {
    match global.props {
        Some(props) => match prop_value(props, "media.class"@) {
            Some(media_class) => if global.kind != GlobalKind::Node || is_internal(props)
                || class_of(media_class) is Other {
                None
            } else {
                Some(
                    NodeView {
                        id: global.id,
                        serial: node_serial(global.id, props),
                        class: class_of(media_class),
                        name: node_name(props),
                        description: node_description(props),
                        application: prop_value(props, "application.name"@),
                        media_name: prop_value(props, "media.name"@),
                        target: either(
                            prop_value(props, "target.object"@),
                            prop_value(props, "node.target"@),
                        ),
                        volume: None,
                        media_role: prop_value(props, "media.role"@),
                    },
                )
            },
            None => None,
        },
        None => None,
    }
}

/// The value of an optional node.
pub open spec fn opt_owned_node(n: Option<AudioNode>) -> Option<NodeView> {
    match n {
        Some(n) => Some(n@),
        None => None,
    }
}

/// Reads a stream or a device from an announcement.
pub fn audio_node_from_global(global: &Global) -> (r: Option<AudioNode>)
    ensures
        opt_owned_node(r) == announced_node(global@),
{
    if global.kind != GlobalKind::Node {
        return None;
    }
    let props = match &global.props {
        Some(props) => props,
        None => return None,
    };
    if is_internal_node(props) {
        return None;
    }
    let media_class = match prop(props, "media.class") {
        Some(media_class) => media_class,
        None => return None,
    };
    let class = class_for(media_class);
    if let AudioClass::Other(_) = &class {
        return None;
    }
    let name = match prop(props, "node.name") {
        Some(name) => name,
        None => "unnamed",
    };
    let described = match prop_or(props, "node.description", "node.nick") {
        Some(description) => Some(description),
        None => prop_or(props, "application.name", "media.name"),
    };
    let description = match described {
        Some(description) => description,
        None => name,
    };
    let serial = match prop(props, "object.serial") {
        Some(serial) => match text::parse_u64(serial) {
            Some(n) => n,
            None => global.id as u64,
        },
        None => global.id as u64,
    };
    Some(
        AudioNode {
            id: global.id,
            serial,
            class,
            name: name.to_owned(),
            description: description.to_owned(),
            application: owned(prop(props, "application.name")),
            media_name: owned(prop(props, "media.name")),
            target: owned(prop_or(props, "target.object", "node.target")),
            volume: None,
            media_role: owned(prop(props, "media.role")),
        },
    )
}

/// The name of a card with the given properties.
pub open spec fn card_name(props: Seq<(Seq<char>, Seq<char>)>) -> Seq<char> {
    match prop_value(props, "device.name"@) {
        Some(name) => name,
        None => "unnamed"@,
    }
}

/// The sound card that an announcement describes. Other devices are none.
pub open spec fn announced_card(global: GlobalView) -> Option<CardView> {
    match global.props {
        Some(props) => if global.kind == GlobalKind::Device && prop_value(props, "media.class"@)
            == Some("Audio/Device"@) {
            Some(
                CardView {
                    id: global.id,
                    name: card_name(props),
                    description: match either(
                        prop_value(props, "device.description"@),
                        prop_value(props, "device.nick"@),
                    ) {
                        Some(description) => description,
                        None => card_name(props),
                    },
                    active_profile: None,
                    profiles: Seq::empty(),
                },
            )
        } else {
            None
        },
        None => None,
    }
}

/// The value of an optional card.
pub open spec fn opt_owned_card(c: Option<AudioCard>) -> Option<CardView> {
    match c {
        Some(c) => Some(c@),
        None => None,
    }
}

/// Reads a sound card from an announcement.
pub fn audio_card_from_global(global: &Global) -> (r: Option<AudioCard>)
    ensures
        opt_owned_card(r) == announced_card(global@),
{
    if global.kind != GlobalKind::Device {
        return None;
    }
    let props = match &global.props {
        Some(props) => props,
        None => return None,
    };
    match prop(props, "media.class") {
        Some(media_class) => {
            if !text::text_eq(media_class, "Audio/Device") {
                return None;
            }
        },
        None => return None,
    }
    let name = match prop(props, "device.name") {
        Some(name) => name,
        None => "unnamed",
    };
    let description = match prop_or(props, "device.description", "device.nick") {
        Some(description) => description,
        None => name,
    };
    let r = AudioCard {
        id: global.id,
        name: name.to_owned(),
        description: description.to_owned(),
        active_profile: None,
        profiles: Vec::new(),
    };
    assert(r@.profiles =~= Seq::empty());
    Some(r)
}

/// The two nodes that an announced link connects: output side first.
pub open spec fn announced_link(global: GlobalView) -> Option<(u32, u32)> {
    match global.props {
        Some(props) => match (
            number_prop(props, "link.output.node"@),
            number_prop(props, "link.input.node"@),
        ) {
            (Some(out), Some(inp)) if global.kind == GlobalKind::Link => Some((out, inp)),
            _ => None,
        },
        None => None,
    }
}

/// The number that the first property with the given key holds.
pub open spec fn number_prop(props: Seq<(Seq<char>, Seq<char>)>, key: Seq<char>) -> Option<u32> {
    match prop_value(props, key) {
        Some(value) => text::parsed_u32(value),
        None => None,
    }
}

/// Looks up a property that holds a number.
pub fn prop_u32(props: &Vec<(String, String)>, key: &str) -> (r: Option<u32>)
    ensures
        r == number_prop(prop_views(props@), key@),
{
    match prop(props, key) {
        Some(value) => text::parse_u32(value),
        None => None,
    }
}

/// Reads the two ends of an announced link. Only the nodes matter, not their ports.
pub fn link_from_global(global: &Global) -> (r: Option<(u32, u32)>)
    ensures
        r == announced_link(global@),
{
    if global.kind != GlobalKind::Link {
        return None;
    }
    let props = match &global.props {
        Some(props) => props,
        None => return None,
    };
    match (prop_u32(props, "link.output.node"), prop_u32(props, "link.input.node")) {
        (Some(out), Some(inp)) => Some((out, inp)),
        _ => None,
    }
}

} // verus!
