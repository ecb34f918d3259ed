//! What holds of every announcement: what is read from it, and what is not.

use vstd::prelude::*;

use crate::backend::globals;
use crate::backend::globals::{GlobalKind, GlobalView};
use crate::model::{CardView, ClassView, Direction, NodeView, Tab};
use crate::text;

verus! {

/// A property is looked up by its key: the first one with the key counts, and there is none when no
/// property has it.
pub proof fn lemma_properties_are_looked_up(props: Seq<(Seq<char>, Seq<char>)>, key: Seq<char>)
    ensures
        match globals::prop_value(props, key) {
            Some(value) => exists|i: int|
                #![trigger props[i]]
                0 <= i < props.len() && props[i] == (key, value) && forall|j: int|
                    0 <= j < i ==> (#[trigger] props[j]).0 != key,
            None => forall|j: int| 0 <= j < props.len() ==> (#[trigger] props[j]).0 != key,
        },
    decreases props.len(),
{
    if props.len() > 0 {
        if props.first().0 == key {
            assert(props[0] == (key, props.first().1));
        } else {
            let rest = props.drop_first();
            lemma_properties_are_looked_up(rest, key);
            match globals::prop_value(rest, key) {
                Some(value) => {
                    let i = choose|i: int|
                        #![trigger rest[i]]
                        0 <= i < rest.len() && rest[i] == (key, value) && forall|j: int|
                            0 <= j < i ==> (#[trigger] rest[j]).0 != key;
                    assert(props[i + 1] == (key, value));
                    assert forall|j: int| 0 <= j < i + 1 implies (#[trigger] props[j]).0 != key by {
                        if j > 0 {
                            assert(props[j] == rest[j - 1]);
                        }
                    }
                },
                None => {
                    assert forall|j: int| 0 <= j < props.len() implies (#[trigger] props[j]).0
                        != key by {
                        if j > 0 {
                            assert(props[j] == rest[j - 1]);
                        }
                    }
                },
            }
        }
    }
}

/// What a media class makes of a node, and the tab that then lists it: sinks are output devices,
/// sources input devices, and streams play or record. A node of any other class is not shown.
pub proof fn lemma_media_class_decides(
    global: GlobalView,
    props: Seq<(Seq<char>, Seq<char>)>,
    tab: Tab,
)
    requires
        global.kind == GlobalKind::Node,
        global.props == Some(props),
        !globals::is_internal(props),
    ensures
        ({
            let class = globals::prop_value(props, "media.class"@);
            &&& class == Some("Audio/Sink"@) ==> shows(
                global,
                ClassView::Device { direction: Direction::Output },
                tab,
                Tab::Outputs,
            )
            &&& class == Some("Audio/Source"@) ==> shows(
                global,
                ClassView::Device { direction: Direction::Input },
                tab,
                Tab::Inputs,
            )
            &&& class == Some("Stream/Output/Audio"@) ==> shows(
                global,
                ClassView::Stream { direction: Direction::Output },
                tab,
                Tab::Playback,
            )
            &&& class == Some("Stream/Input/Audio"@) ==> shows(
                global,
                ClassView::Stream { direction: Direction::Input },
                tab,
                Tab::Recording,
            )
            &&& globals::announced_node(global) is Some <==> {
                ||| class == Some("Audio/Sink"@)
                ||| class == Some("Audio/Source"@)
                ||| class == Some("Stream/Output/Audio"@)
                ||| class == Some("Stream/Input/Audio"@)
            }
        }),
{
    reveal_strlit("Audio/Sink");
    reveal_strlit("Audio/Source");
    reveal_strlit("Stream/Output/Audio");
    reveal_strlit("Stream/Input/Audio");
    assert("Audio/Sink"@.len() == 10);
    assert("Audio/Source"@.len() == 12);
    assert("Stream/Output/Audio"@.len() == 19);
    assert("Stream/Input/Audio"@.len() == 18);
}

/// Whether an announcement is that of a node of the given class, which `home` lists and no other
/// tab.
pub open spec fn shows(global: GlobalView, class: ClassView, tab: Tab, home: Tab) -> bool {
    &&& globals::announced_node(global) matches Some(node)
    &&& node.class == class
    &&& node.shown_in(tab) <==> tab == home
}

/// Only nodes are read as streams or devices, only devices as cards, and only links as links; and
/// only when they have properties.
pub proof fn lemma_types_are_told_apart(global: GlobalView)
    ensures
        globals::announced_node(global) is Some ==> global.kind == GlobalKind::Node,
        globals::announced_card(global) is Some ==> global.kind == GlobalKind::Device,
        globals::announced_link(global) is Some ==> global.kind == GlobalKind::Link,
        global.props is None ==> {
            &&& globals::announced_node(global) is None
            &&& globals::announced_card(global) is None
            &&& globals::announced_link(global) is None
        },
{
}

/// The meters of the panel, and what belongs to its application, are not shown; a node whose name
/// and application are others is not hidden.
pub proof fn lemma_own_nodes_are_hidden(
    global: GlobalView,
    props: Seq<(Seq<char>, Seq<char>)>,
    rest: Seq<char>,
)
    requires
        global.props == Some(props),
    ensures
        globals::prop_value(props, "node.name"@) == Some("aetna-volume.meter."@ + rest) ==> {
            &&& globals::is_internal(props)
            &&& globals::announced_node(global) is None
        },
        globals::prop_value(props, "application.name"@) == Some("aetna-volume"@) ==> {
            &&& globals::is_internal(props)
            &&& globals::announced_node(global) is None
        },
        globals::prop_value(props, "node.name"@) is None && globals::prop_value(
            props,
            "application.name"@,
        ) is None ==> !globals::is_internal(props),
        globals::is_internal(props) && globals::prop_value(props, "application.name"@) != Some(
            "aetna-volume"@,
        ) ==> (globals::prop_value(props, "node.name"@) matches Some(name) && exists|tail: Seq<char>|
            name == #[trigger] ("aetna-volume.meter."@ + tail)),
{
    let prefix = "aetna-volume.meter."@;
    text::lemma_without_prefix(prefix, rest);
    if let Some(name) = globals::prop_value(props, "node.name"@) {
        if text::has_prefix(name, prefix) {
            let tail = name.skip(prefix.len() as int);
            assert(name =~= prefix + tail);
        }
    }
}

/// A node is read with its own id, names, role and routing wish, and without a volume, which it
/// reports later. Where it has no name it is called unnamed; where it has no description, its
/// nickname stands for it, then its application, then its media, then its name; and the wish under
/// the newer key counts before that under the older one.
pub proof fn lemma_nodes_are_read(
    global: GlobalView,
    props: Seq<(Seq<char>, Seq<char>)>,
    node: NodeView,
)
    requires
        global.props == Some(props),
        globals::announced_node(global) == Some(node),
    ensures
        node.id == global.id,
        node.volume is None,
        node.application == globals::prop_value(props, "application.name"@),
        node.media_name == globals::prop_value(props, "media.name"@),
        node.media_role == globals::prop_value(props, "media.role"@),
        globals::prop_value(props, "node.name"@) matches Some(name) ==> node.name == name,
        globals::prop_value(props, "node.name"@) is None ==> node.name == "unnamed"@,
        globals::prop_value(props, "target.object"@) is Some ==> node.target == globals::prop_value(
            props,
            "target.object"@,
        ),
        globals::prop_value(props, "target.object"@) is None ==> node.target == globals::prop_value(
            props,
            "node.target"@,
        ),
        ({
            let own = globals::prop_value(props, "node.description"@);
            let nick = globals::prop_value(props, "node.nick"@);
            &&& own is Some ==> Some(node.description) == own
            &&& own is None && nick is Some ==> Some(node.description) == nick
            &&& own is None && nick is None && node.application is Some ==> Some(node.description)
                == node.application
            &&& own is None && nick is None && node.application is None && node.media_name is Some
                ==> Some(node.description) == node.media_name
            &&& own is None && nick is None && node.application is None && node.media_name is None
                ==> node.description == node.name
        }),
{
}

/// A node's serial is the number that it announces, and its id where it announces none.
pub proof fn lemma_serials_are_read(
    global: GlobalView,
    props: Seq<(Seq<char>, Seq<char>)>,
    node: NodeView,
    serial: u64,
)
    requires
        global.props == Some(props),
        globals::announced_node(global) == Some(node),
    ensures
        globals::prop_value(props, "object.serial"@) == Some(text::decimal(serial as nat))
            ==> node.serial == serial,
        globals::prop_value(props, "object.serial"@) is None ==> node.serial == global.id,
        globals::prop_value(props, "object.serial"@) matches Some(s) && text::parsed_u64(s) is None
            ==> node.serial == global.id,
{
    text::lemma_parsed_decimal(serial as nat, u64::MAX as int);
}

/// A device is a card when it is one for audio. It is read with its own id and names, and without
/// profiles, which it reports later.
pub proof fn lemma_cards_are_read(global: GlobalView, props: Seq<(Seq<char>, Seq<char>)>)
    requires
        global.kind == GlobalKind::Device,
        global.props == Some(props),
    ensures
        globals::announced_card(global) is Some <==> globals::prop_value(props, "media.class"@)
            == Some("Audio/Device"@),
        globals::announced_card(global) matches Some(card) ==> card_is_read(global, props, card),
{
}

/// Whether a card holds what its announcement says.
pub open spec fn card_is_read(
    global: GlobalView,
    props: Seq<(Seq<char>, Seq<char>)>,
    card: CardView,
) -> bool {
    let name = globals::prop_value(props, "device.name"@);
    let own = globals::prop_value(props, "device.description"@);
    let nick = globals::prop_value(props, "device.nick"@);
    &&& card.id == global.id
    &&& card.active_profile is None
    &&& card.profiles.len() == 0
    &&& name is Some ==> Some(card.name) == name
    &&& name is None ==> card.name == "unnamed"@
    &&& own is Some ==> Some(card.description) == own
    &&& own is None && nick is Some ==> Some(card.description) == nick
    &&& own is None && nick is None ==> card.description == card.name
}

/// A link is read with the nodes at its two ends, the output side first; one that does not name
/// both is not read.
pub proof fn lemma_links_are_read(
    global: GlobalView,
    props: Seq<(Seq<char>, Seq<char>)>,
    output: u32,
    input: u32,
)
    requires
        global.kind == GlobalKind::Link,
        global.props == Some(props),
    ensures
        globals::prop_value(props, "link.output.node"@) == Some(text::decimal(output as nat))
            && globals::prop_value(props, "link.input.node"@) == Some(text::decimal(input as nat))
            ==> globals::announced_link(global) == Some((output, input)),
        globals::prop_value(props, "link.output.node"@) is None ==> globals::announced_link(
            global,
        ) is None,
        globals::prop_value(props, "link.input.node"@) is None ==> globals::announced_link(
            global,
        ) is None,
{
    text::lemma_parsed_decimal(output as nat, u32::MAX as int);
    text::lemma_parsed_decimal(input as nat, u32::MAX as int);
}

} // verus!
