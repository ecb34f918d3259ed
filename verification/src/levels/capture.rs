//! The captures that meters open: their properties, the format they ask for, and how they are
//! connected.

use vstd::prelude::*;

use crate::backend::globals;
use crate::backend::globals::GlobalView;
use crate::levels::linker;
use crate::levels::MeterRoute;
use crate::text;

verus! {

/// A capture to be opened. Its samples are single-precision numbers in little-endian order.
#[derive(Debug, Clone)]
pub struct Capture {
    /// The properties of its node.
    pub properties: Vec<(String, String)>,
    /// The node that the session manager is to connect it to; it is connected to none when links
    /// are made for it.
    pub connect_to: Option<u32>,
    /// The sample rate and the number of channels that it insists on.
    pub fixed_format: Option<(u32, u32)>,
}

/// The value of a [`Capture`].
#[verifier::ext_equal]
pub struct CaptureView {
    pub properties: Seq<(Seq<char>, Seq<char>)>,
    pub connect_to: Option<u32>,
    pub fixed_format: Option<(u32, u32)>,
}

impl View for Capture {
    type V = CaptureView;

    open spec fn view(&self) -> CaptureView {
        CaptureView {
            properties: text::pair_views(self.properties@),
            connect_to: self.connect_to,
            fixed_format: self.fixed_format,
        }
    }
}

/// The properties of every meter's capture. The role tells other mixers, and other panels, not to
/// meter it.
pub open spec fn common_properties(node_id: u32) -> Seq<(Seq<char>, Seq<char>)> {
    seq![
        ("application.name"@, "damascene-volume"@),
        ("media.type"@, "Audio"@),
        ("media.category"@, "Capture"@),
        ("media.role"@, "DSP"@),
        ("node.name"@, linker::meter_name(node_id)),
    ]
}

/// The capture that meters a node.
///
/// One that the session manager connects is pinned to the node, and takes the node's own channels.
/// One that is linked by hand insists on two channels: its ports must be there before anything is
/// linked to them, and without a number of channels there would be a single one.
pub open spec fn capture_of(node_id: u32, route: MeterRoute) -> CaptureView {
    match route {
        MeterRoute::AutoConnect => CaptureView {
            properties: common_properties(node_id).push(
                ("target.object"@, text::decimal(node_id as nat)),
            ),
            connect_to: Some(node_id),
            fixed_format: None,
        },
        MeterRoute::LinkFromOutputs => CaptureView {
            properties: common_properties(node_id),
            connect_to: None,
            fixed_format: Some((48_000, 2)),
        },
    }
}

/// Describes the capture that meters a node.
pub fn capture_for(node_id: u32, route: MeterRoute) -> (r: Capture)
    ensures
        r@ == capture_of(node_id, route),
{
    let mut properties: Vec<(String, String)> = Vec::new();
    properties.push(("application.name".to_owned(), "damascene-volume".to_owned()));
    properties.push(("media.type".to_owned(), "Audio".to_owned()));
    properties.push(("media.category".to_owned(), "Capture".to_owned()));
    properties.push(("media.role".to_owned(), "DSP".to_owned()));
    properties.push(("node.name".to_owned(), linker::meter_node_name(node_id)));
    assert(text::pair_views(properties@) =~= common_properties(node_id));
    match route {
        MeterRoute::AutoConnect => {
            properties.push(("target.object".to_owned(), text::to_decimal(node_id as u64)));
            assert(text::pair_views(properties@) =~= capture_of(node_id, route).properties);
            Capture { properties, connect_to: Some(node_id), fixed_format: None }
        },
        MeterRoute::LinkFromOutputs => Capture {
            properties,
            connect_to: None,
            fixed_format: Some((48_000, 2)),
        },
    }
}

/// A capture that a panel opened is itself never metered, whatever properties the server adds to
/// its own.
pub proof fn lemma_captures_are_not_metered(
    node_id: u32,
    route: MeterRoute,
    global: GlobalView,
    added: Seq<(Seq<char>, Seq<char>)>,
)
    requires
        global.props == Some(capture_of(node_id, route).properties + added),
    ensures
        globals::announced_node(global) matches Some(node) ==> node.meter_route() is None,
{
    reveal_strlit("application.name");
    reveal_strlit("media.type");
    reveal_strlit("media.category");
    reveal_strlit("media.role");
    let props = capture_of(node_id, route).properties + added;
    let key = "media.role"@;
    assert(props[0].0 == "application.name"@ && props[0].0[0] == 'a');
    assert(props[1].0 == "media.type"@ && props[1].0.len() == 10 && props[1].0[6] == 't');
    assert(props[2].0 == "media.category"@ && props[2].0.len() == 14);
    assert(props[3] == (key, "DSP"@) && key.len() == 10 && key[0] == 'm' && key[6] == 'r');
    globals::lemma_prop_value_at(props, key, 3);
}

/// The links that a linked capture waits for are those of the node of that name.
pub proof fn lemma_capture_has_the_name_that_is_linked(node_id: u32, route: MeterRoute)
    ensures
        capture_of(node_id, route).properties[4] == ("node.name"@, linker::meter_name(node_id)),
{
}

} // verus!
