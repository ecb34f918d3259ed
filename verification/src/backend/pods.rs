//! The parameter objects that PipeWire reports and takes: a node's properties, a card's profiles.

use vstd::prelude::*;

use crate::model;
use crate::model::{AudioProfile, ProfileAvailability, ProfileView};
use crate::text;

verus! {

/// The key of a property, as far as the panel reads or writes it.
#[derive(Debug, Clone, Copy, PartialEq, Eq, Structural)]
pub enum PropKey {
    Mute,
    Volume,
    ChannelVolumes,
    ProfileIndex,
    ProfileName,
    ProfileDescription,
    ProfileAvailable,
    ProfileSave,
    Other,
}

/// An enumerated value, as far as the panel tells it apart.
#[derive(Debug, Clone, Copy, PartialEq, Eq, Structural)]
pub enum IdValue {
    AvailabilityNo,
    AvailabilityYes,
    Other,
}

/// The value of a property. Volumes are in hundredths of the nominal volume, rounded.
#[derive(Debug, Clone, PartialEq, Eq)]
pub enum PodValue {
    Bool(bool),
    Int(i32),
    Id(IdValue),
    Text(String),
    Volume(u32),
    Volumes(Vec<u32>),
    Other,
}

/// A property of a parameter object.
#[derive(Debug, Clone, PartialEq, Eq)]
pub struct PodProperty {
    pub key: PropKey,
    pub value: PodValue,
}

/// What a [`PodValue`] holds.
#[verifier::ext_equal]
pub enum ValueView {
    Bool(bool),
    Int(i32),
    Id(IdValue),
    Text(Seq<char>),
    Volume(u32),
    Volumes(Seq<u32>),
    Other,
}

/// What a [`PodProperty`] holds.
#[verifier::ext_equal]
pub struct PropertyView {
    pub key: PropKey,
    pub value: ValueView,
}

impl View for PodValue {
    type V = ValueView;

    open spec fn view(&self) -> ValueView {
        match *self {
            PodValue::Bool(b) => ValueView::Bool(b),
            PodValue::Int(i) => ValueView::Int(i),
            PodValue::Id(i) => ValueView::Id(i),
            PodValue::Text(s) => ValueView::Text(s@),
            PodValue::Volume(v) => ValueView::Volume(v),
            PodValue::Volumes(v) => ValueView::Volumes(v@),
            PodValue::Other => ValueView::Other,
        }
    }
}

impl View for PodProperty {
    type V = PropertyView;

    open spec fn view(&self) -> PropertyView {
        PropertyView { key: self.key, value: self.value@ }
    }
}

/// What properties hold.
pub open spec fn property_views(props: Seq<PodProperty>) -> Seq<PropertyView> {
    props.map_values(|p: PodProperty| p@)
}

/// What `pick` reads from the last property that it reads anything from.
pub open spec fn last_picked<T>(
    props: Seq<PropertyView>,
    pick: spec_fn(PropertyView) -> Option<T>,
) -> Option<T>
    decreases props.len(),
{
    if props.len() == 0 {
        None
    } else {
        match pick(props.last()) {
            Some(t) => Some(t),
            None => last_picked(props.drop_last(), pick),
        }
    }
}

/// What `pick` reads from the first property that it reads anything from.
pub open spec fn first_picked<T>(
    props: Seq<PropertyView>,
    pick: spec_fn(PropertyView) -> Option<T>,
) -> Option<T>
    decreases props.len(),
{
    if props.len() == 0 {
        None
    } else {
        match pick(props.first()) {
            Some(t) => Some(t),
            None => first_picked(props.drop_first(), pick),
        }
    }
}

/// Reads the truth value of a property with the given key.
pub open spec fn pick_bool(key: PropKey) -> spec_fn(PropertyView) -> Option<bool> {
    |p: PropertyView|
        if p.key == key {
            match p.value {
                ValueView::Bool(b) => Some(b),
                _ => None,
            }
        } else {
            None
        }
}

/// Reads the integer of a property with the given key, as an unsigned number.
pub open spec fn pick_int(key: PropKey) -> spec_fn(PropertyView) -> Option<u32> {
    |p: PropertyView|
        if p.key == key {
            match p.value {
                ValueView::Int(i) => Some(unsigned(i)),
                _ => None,
            }
        } else {
            None
        }
}

/// Reads the text of a property with the given key.
pub open spec fn pick_text(key: PropKey) -> spec_fn(PropertyView) -> Option<Seq<char>> {
    |p: PropertyView|
        if p.key == key {
            match p.value {
                ValueView::Text(s) => Some(s),
                _ => None,
            }
        } else {
            None
        }
}

/// Reads the volume of a property with the given key.
pub open spec fn pick_volume(key: PropKey) -> spec_fn(PropertyView) -> Option<u32> {
    |p: PropertyView|
        if p.key == key {
            match p.value {
                ValueView::Volume(v) => Some(v),
                _ => None,
            }
        } else {
            None
        }
}

/// Reads the volumes of a property with the given key.
pub open spec fn pick_volumes(key: PropKey) -> spec_fn(PropertyView) -> Option<Seq<u32>> {
    |p: PropertyView|
        if p.key == key {
            match p.value {
                ValueView::Volumes(v) => Some(v),
                _ => None,
            }
        } else {
            None
        }
}

/// Reads the availability that a property reports.
pub open spec fn pick_availability() -> spec_fn(PropertyView) -> Option<ProfileAvailability> {
    |p: PropertyView|
        if p.key == PropKey::ProfileAvailable {
            match p.value {
                ValueView::Id(id) => Some(availability_of(id)),
                _ => None,
            }
        } else {
            None
        }
}

/// The availability that an enumerated value stands for.
pub open spec fn availability_of(id: IdValue) -> ProfileAvailability {
    match id {
        IdValue::AvailabilityYes => ProfileAvailability::Yes,
        IdValue::AvailabilityNo => ProfileAvailability::No,
        IdValue::Other => ProfileAvailability::Unknown,
    }
}

/// The unsigned number with the bits of `i`.
pub open spec fn unsigned(i: i32) -> u32 {
    if i >= 0 {
        i as u32
    } else {
        (i + 0x1_0000_0000) as u32
    }
}

/// The signed number with the bits of `n`.
pub open spec fn signed(n: u32) -> i32 {
    if n <= i32::MAX {
        n as i32
    } else {
        (n - 0x1_0000_0000) as i32
    }
}

fn to_unsigned(i: i32) -> (r: u32)
    ensures
        r == unsigned(i),
{
    if i >= 0 {
        i as u32
    } else {
        ((i as i64) + 0x1_0000_0000i64) as u32
    }
}

fn to_signed(n: u32) -> (r: i32)
    ensures
        r == signed(n),
{
    if n <= i32::MAX as u32 {
        n as i32
    } else {
        ((n as i64) - 0x1_0000_0000i64) as i32
    }
}

/// What a node's properties say of its volume.
#[derive(Debug, Clone, Copy, PartialEq, Eq, Structural)]
pub struct DecodedProps {
    pub mute: Option<bool>,
    /// The first channel's volume, which other mixers show too, or else the master volume.
    pub volume: Option<u32>,
    /// The number of channels that have a volume.
    pub channel_count: Option<usize>,
}

/// What properties say of a node's volume: the last value of each kind counts, and a channel
/// volume counts before the master volume.
pub open spec fn node_volume(props: Seq<PropertyView>) -> DecodedProps {
    let channels = last_picked(props, pick_volumes(PropKey::ChannelVolumes));
    DecodedProps {
        mute: last_picked(props, pick_bool(PropKey::Mute)),
        volume: match channels {
            Some(v) if v.len() > 0 => Some(v[0]),
            _ => last_picked(props, pick_volume(PropKey::Volume)),
        },
        channel_count: match channels {
            Some(v) => Some(v.len() as usize),
            None => None,
        },
    }
}

proof fn lemma_last_picked_step<T>(
    props: Seq<PropertyView>,
    pick: spec_fn(PropertyView) -> Option<T>,
    i: int,
)
    requires
        0 <= i < props.len(),
    ensures
        last_picked(props.take(i + 1), pick) == (match pick(props[i]) {
            Some(t) => Some(t),
            None => last_picked(props.take(i), pick),
        }),
{
    assert(props.take(i + 1).drop_last() =~= props.take(i));
}

/// Reads a node's mute state, volume and channel count from its properties.
pub fn decode_props(props: &Vec<PodProperty>) -> (r: DecodedProps)
    ensures
        r == node_volume(property_views(props@)),
{
    let ghost all = property_views(props@);
    let mut mute: Option<bool> = None;
    let mut master: Option<u32> = None;
    let mut channel_first: Option<u32> = None;
    let mut channel_count: Option<usize> = None;
    let ghost mut channels: Option<Seq<u32>> = None;
    let mut i: usize = 0;
    while i < props.len()
        invariant
            i <= props@.len(),
            all == property_views(props@),
            mute == last_picked(all.take(i as int), pick_bool(PropKey::Mute)),
            master == last_picked(all.take(i as int), pick_volume(PropKey::Volume)),
            channels == last_picked(all.take(i as int), pick_volumes(PropKey::ChannelVolumes)),
            channels is None ==> channel_count is None && channel_first is None,
            channels matches Some(v) ==> v.len() <= usize::MAX && channel_count == Some(
                v.len() as usize,
            ) && channel_first == (if v.len() > 0 {
                Some(v[0])
            } else {
                None::<u32>
            }),
        decreases props@.len() - i,
    {
        let prop = &props[i];
        proof {
            assert(all[i as int] == prop@);
            lemma_last_picked_step(all, pick_bool(PropKey::Mute), i as int);
            lemma_last_picked_step(all, pick_volume(PropKey::Volume), i as int);
            lemma_last_picked_step(all, pick_volumes(PropKey::ChannelVolumes), i as int);
        }
        match prop.key {
            PropKey::Mute => {
                if let PodValue::Bool(b) = &prop.value {
                    mute = Some(*b);
                }
            },
            PropKey::Volume => {
                if let PodValue::Volume(v) = &prop.value {
                    master = Some(*v);
                }
            },
            PropKey::ChannelVolumes => {
                if let PodValue::Volumes(v) = &prop.value {
                    channel_count = Some(v.len());
                    channel_first = if v.len() > 0 {
                        Some(v[0])
                    } else {
                        None
                    };
                    proof {
                        channels = Some(v@);
                    }
                }
            },
            _ => {},
        }
        i += 1;
    }
    assert(all.take(all.len() as int) =~= all);
    let volume = match channel_first {
        Some(v) => Some(v),
        None => master,
    };
    DecodedProps { mute, volume, channel_count }
}

/// The active profile that a card's profile parameter names.
pub open spec fn active_profile(props: Seq<PropertyView>) -> Option<u32> {
    first_picked(props, pick_int(PropKey::ProfileIndex))
}

/// Reads the index of the active profile.
pub fn decode_active_profile_index(props: &Vec<PodProperty>) -> (r: Option<u32>)
    ensures
        r == active_profile(property_views(props@)),
{
    let ghost all = property_views(props@);
    let mut i: usize = 0;
    assert(all.skip(0) =~= all);
    while i < props.len()
        invariant
            i <= props@.len(),
            all == property_views(props@),
            active_profile(all) == first_picked(
                all.skip(i as int),
                pick_int(PropKey::ProfileIndex),
            ),
        decreases props@.len() - i,
    {
        let prop = &props[i];
        proof {
            assert(all.skip(i as int).first() == prop@);
            assert(all.skip(i as int).drop_first() =~= all.skip(i + 1));
        }
        if prop.key == PropKey::ProfileIndex {
            if let PodValue::Int(n) = &prop.value {
                return Some(to_unsigned(*n));
            }
        }
        i += 1;
    }
    None
}

/// The profile that an enumerated profile parameter describes: the last value of each kind
/// counts, and a missing name or description is made up. Without an index there is no profile.
pub open spec fn enumerated_profile(props: Seq<PropertyView>) -> Option<ProfileView> {
    match last_picked(props, pick_int(PropKey::ProfileIndex)) {
        Some(index) => {
            let name = match last_picked(props, pick_text(PropKey::ProfileName)) {
                Some(name) => name,
                None => "profile-"@ + text::decimal(index as nat),
            };
            Some(
                ProfileView {
                    index,
                    name,
                    description: match last_picked(props, pick_text(PropKey::ProfileDescription)) {
                        Some(description) => description,
                        None => name,
                    },
                    available: match last_picked(props, pick_availability()) {
                        Some(available) => available,
                        None => ProfileAvailability::Unknown,
                    },
                },
            )
        },
        None => None,
    }
}

/// The value of an optional profile.
pub open spec fn opt_profile(p: Option<AudioProfile>) -> Option<ProfileView> {
    match p {
        Some(p) => Some(p@),
        None => None,
    }
}

/// Reads a profile that a card enumerates.
pub fn decode_enum_profile(props: &Vec<PodProperty>) -> (r: Option<AudioProfile>)
    ensures
        opt_profile(r) == enumerated_profile(property_views(props@)),
{
    let ghost all = property_views(props@);
    let mut index: Option<u32> = None;
    let mut name: Option<String> = None;
    let mut description: Option<String> = None;
    let mut available: Option<ProfileAvailability> = None;
    let mut i: usize = 0;
    while i < props.len()
        invariant
            i <= props@.len(),
            all == property_views(props@),
            index == last_picked(all.take(i as int), pick_int(PropKey::ProfileIndex)),
            text::opt_text(name) == last_picked(
                all.take(i as int),
                pick_text(PropKey::ProfileName),
            ),
            text::opt_text(description) == last_picked(
                all.take(i as int),
                pick_text(PropKey::ProfileDescription),
            ),
            available == last_picked(all.take(i as int), pick_availability()),
        decreases props@.len() - i,
    {
        let prop = &props[i];
        proof {
            assert(all[i as int] == prop@);
            lemma_last_picked_step(all, pick_int(PropKey::ProfileIndex), i as int);
            lemma_last_picked_step(all, pick_text(PropKey::ProfileName), i as int);
            lemma_last_picked_step(all, pick_text(PropKey::ProfileDescription), i as int);
            lemma_last_picked_step(all, pick_availability(), i as int);
        }
        match prop.key {
            PropKey::ProfileIndex => {
                if let PodValue::Int(n) = &prop.value {
                    index = Some(to_unsigned(*n));
                }
            },
            PropKey::ProfileName => {
                if let PodValue::Text(s) = &prop.value {
                    name = Some(s.as_str().to_owned());
                }
            },
            PropKey::ProfileDescription => {
                if let PodValue::Text(s) = &prop.value {
                    description = Some(s.as_str().to_owned());
                }
            },
            PropKey::ProfileAvailable => {
                if let PodValue::Id(id) = &prop.value {
                    available = Some(
                        match *id {
                            IdValue::AvailabilityYes => ProfileAvailability::Yes,
                            IdValue::AvailabilityNo => ProfileAvailability::No,
                            IdValue::Other => ProfileAvailability::Unknown,
                        },
                    );
                }
            },
            _ => {},
        }
        i += 1;
    }
    assert(all.take(all.len() as int) =~= all);
    match index {
        Some(index) => {
            let name = match name {
                Some(name) => name,
                None => text::join2("profile-", text::to_decimal(index as u64).as_str()),
            };
            let description = match description {
                Some(description) => description,
                None => name.as_str().to_owned(),
            };
            let available = match available {
                Some(available) => available,
                None => ProfileAvailability::Unknown,
            };
            Some(AudioProfile { index, name, description, available })
        },
        None => None,
    }
}

/// The parameter that switches a card to a profile and keeps it across restarts.
pub open spec fn profile_choice(profile_index: u32) -> Seq<PropertyView> {
    seq![
        PropertyView {
            key: PropKey::ProfileIndex,
            value: ValueView::Int(signed(profile_index)),
        },
        PropertyView { key: PropKey::ProfileSave, value: ValueView::Bool(true) },
    ]
}

/// Builds the parameter that switches a card to a profile and keeps it across restarts.
pub fn profile_properties(profile_index: u32) -> (r: Vec<PodProperty>)
    ensures
        property_views(r@) == profile_choice(profile_index),
{
    let mut r: Vec<PodProperty> = Vec::new();
    r.push(
        PodProperty { key: PropKey::ProfileIndex, value: PodValue::Int(to_signed(profile_index)) },
    );
    r.push(PodProperty { key: PropKey::ProfileSave, value: PodValue::Bool(true) });
    assert(property_views(r@) =~= profile_choice(profile_index));
    r
}

/// The parameter that mutes or unmutes a node.
pub open spec fn mute_choice(muted: bool) -> Seq<PropertyView> {
    seq![PropertyView { key: PropKey::Mute, value: ValueView::Bool(muted) }]
}

/// Builds the parameter that mutes or unmutes a node.
pub fn mute_properties(muted: bool) -> (r: Vec<PodProperty>)
    ensures
        property_views(r@) == mute_choice(muted),
{
    let mut r: Vec<PodProperty> = Vec::new();
    r.push(PodProperty { key: PropKey::Mute, value: PodValue::Bool(muted) });
    assert(property_views(r@) =~= mute_choice(muted));
    r
}

/// The parameter that sets a node's volume, at most at the limit: the same volume for every
/// channel when their number is known, the master volume otherwise.
pub open spec fn volume_choice(percent: u32, channels: Option<usize>) -> Seq<PropertyView> {
    let level = model::limited(percent);
    match channels {
        Some(n) if n > 0 => seq![
            PropertyView {
                key: PropKey::ChannelVolumes,
                value: ValueView::Volumes(Seq::new(n as nat, |i: int| level)),
            },
        ],
        _ => seq![PropertyView { key: PropKey::Volume, value: ValueView::Volume(level) }],
    }
}

/// Builds the parameter that sets a node's volume. The channel volumes are what other mixers
/// read and write, so they are preferred; the master volume would multiply with them.
pub fn volume_properties(percent: u32, channels: Option<usize>) -> (r: Vec<PodProperty>)
    ensures
        property_views(r@) == volume_choice(percent, channels),
{
    let level = model::limited_percent(percent);
    let mut r: Vec<PodProperty> = Vec::new();
    let count: usize = match channels {
        Some(n) => n,
        None => 0,
    };
    if count > 0 {
        let mut volumes: Vec<u32> = Vec::new();
        let mut i: usize = 0;
        while i < count
            invariant
                i <= count,
                volumes@ =~= Seq::new(i as nat, |k: int| level),
            decreases count - i,
        {
            volumes.push(level);
            i += 1;
        }
        let ghost same = volumes@;
        r.push(PodProperty { key: PropKey::ChannelVolumes, value: PodValue::Volumes(volumes) });
        assert(r@[0]@.value == ValueView::Volumes(same));
        assert(same =~= Seq::new(count as nat, |k: int| level));
    } else {
        r.push(PodProperty { key: PropKey::Volume, value: PodValue::Volume(level) });
    }
    assert(property_views(r@) =~= volume_choice(percent, channels));
    r
}

/// A card that is switched to a profile reports that profile as its active one.
pub proof fn lemma_profile_round_trip(profile_index: u32)
    ensures
        active_profile(profile_choice(profile_index)) == Some(profile_index),
{
    assert(profile_choice(profile_index).first() == PropertyView {
        key: PropKey::ProfileIndex,
        value: ValueView::Int(signed(profile_index)),
    });
}

/// A node that is muted or unmuted reports that state, and nothing of its volume.
pub proof fn lemma_mute_round_trip(muted: bool)
    ensures
        node_volume(mute_choice(muted)) == (DecodedProps {
            mute: Some(muted),
            volume: None,
            channel_count: None,
        }),
{
    let props = mute_choice(muted);
    assert(props.drop_last() =~= Seq::empty());
    reveal_with_fuel(last_picked, 2);
}

/// A node whose volume is set reports that volume, at most the limit, for as many channels as it
/// was set for.
pub proof fn lemma_volume_round_trip(percent: u32, channels: Option<usize>)
    ensures
        node_volume(volume_choice(percent, channels)) == (DecodedProps {
            mute: None,
            volume: Some(model::limited(percent)),
            channel_count: match channels {
                Some(n) if n > 0 => Some(n),
                _ => None,
            },
        }),
{
    let props = volume_choice(percent, channels);
    assert(props.drop_last() =~= Seq::empty());
    reveal_with_fuel(last_picked, 2);
}

} // verus!
