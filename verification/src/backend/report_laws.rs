//! What holds of every report and every request: what is read from parameter objects, and what is
//! written into them.

use vstd::prelude::*;

use crate::backend::pods;
use crate::backend::pods::{IdValue, PropKey, PropertyView, ValueView};
use crate::backend::registry;
use crate::model::{ProfileAvailability, ProfileView};
use crate::text;

verus! {

/// Whether a property has the given key and a value of the given sort.
pub open spec fn is_of(p: PropertyView, key: PropKey, sort: spec_fn(ValueView) -> bool) -> bool {
    p.key == key && sort(p.value)
}

/// Whether the property at `i` is the last one with the given key and a value of the given sort.
pub open spec fn is_last(
    props: Seq<PropertyView>,
    key: PropKey,
    sort: spec_fn(ValueView) -> bool,
    i: int,
) -> bool {
    &&& 0 <= i < props.len()
    &&& is_of(props[i], key, sort)
    &&& forall|j: int| i < j < props.len() ==> !#[trigger] is_of(props[j], key, sort)
}

/// Whether no property has the given key and a value of the given sort.
pub open spec fn is_absent(
    props: Seq<PropertyView>,
    key: PropKey,
    sort: spec_fn(ValueView) -> bool,
) -> bool {
    forall|j: int| 0 <= j < props.len() ==> !#[trigger] is_of(props[j], key, sort)
}

/// The truth values.
pub open spec fn truths() -> spec_fn(ValueView) -> bool {
    |v: ValueView| v is Bool
}

/// The whole numbers.
pub open spec fn numbers() -> spec_fn(ValueView) -> bool {
    |v: ValueView| v is Int
}

/// The texts.
pub open spec fn texts() -> spec_fn(ValueView) -> bool {
    |v: ValueView| v is Text
}

/// The enumerated values.
pub open spec fn ids() -> spec_fn(ValueView) -> bool {
    |v: ValueView| v is Id
}

/// The single volumes.
pub open spec fn single_volumes() -> spec_fn(ValueView) -> bool {
    |v: ValueView| v is Volume
}

/// The lists of volumes.
pub open spec fn volume_lists() -> spec_fn(ValueView) -> bool {
    |v: ValueView| v is Volumes
}

proof fn lemma_last_picked<T>(
    props: Seq<PropertyView>,
    pick: spec_fn(PropertyView) -> Option<T>,
    key: PropKey,
    sort: spec_fn(ValueView) -> bool,
)
    requires
        forall|p: PropertyView| #[trigger] pick(p) is Some <==> is_of(p, key, sort),
    ensures
        is_absent(props, key, sort) ==> pods::last_picked(props, pick) is None,
        forall|i: int| #[trigger]
            is_last(props, key, sort, i) ==> pods::last_picked(props, pick) == pick(props[i]),
    decreases props.len(),
{
    if props.len() > 0 {
        let front = props.drop_last();
        let last = props.last();
        lemma_last_picked(front, pick, key, sort);
        if is_absent(props, key, sort) {
            assert(!is_of(props[props.len() - 1], key, sort));
            assert forall|j: int| 0 <= j < front.len() implies !#[trigger] is_of(
                front[j],
                key,
                sort,
            ) by {
                assert(!is_of(props[j], key, sort));
            }
        }
        assert forall|i: int| #[trigger] is_last(props, key, sort, i) implies pods::last_picked(
            props,
            pick,
        ) == pick(props[i]) by {
            if i < props.len() - 1 {
                assert(!is_of(props[props.len() - 1], key, sort));
                assert forall|j: int| i < j < front.len() implies !#[trigger] is_of(
                    front[j],
                    key,
                    sort,
                ) by {
                    assert(!is_of(props[j], key, sort));
                }
                assert(is_last(front, key, sort, i));
            }
        }
    }
}

/// A node whose properties list channel volumes is at the volume of its first channel, whatever its
/// master volume is, and has as many channels as are listed.
pub proof fn lemma_channels_tell_the_volume(props: Seq<PropertyView>, i: int)
    requires
        is_last(props, PropKey::ChannelVolumes, volume_lists(), i),
    ensures
        props[i].value matches ValueView::Volumes(volumes) && {
            &&& pods::node_volume(props).channel_count == Some(volumes.len() as usize)
            &&& volumes.len() > 0 ==> pods::node_volume(props).volume == Some(volumes[0])
        },
{
    lemma_last_picked(
        props,
        pods::pick_volumes(PropKey::ChannelVolumes),
        PropKey::ChannelVolumes,
        volume_lists(),
    );
}

/// A node whose properties list no channel volumes is at its master volume, and its channels are
/// not known; without a master volume nothing is said of its volume.
pub proof fn lemma_master_tells_the_volume(props: Seq<PropertyView>, i: int)
    requires
        is_absent(props, PropKey::ChannelVolumes, volume_lists()),
    ensures
        pods::node_volume(props).channel_count is None,
        is_last(props, PropKey::Volume, single_volumes(), i) ==> (
        props[i].value matches ValueView::Volume(volume) && pods::node_volume(props).volume == Some(
            volume,
        )),
        is_absent(props, PropKey::Volume, single_volumes()) ==> pods::node_volume(
            props,
        ).volume is None,
{
    lemma_last_picked(
        props,
        pods::pick_volumes(PropKey::ChannelVolumes),
        PropKey::ChannelVolumes,
        volume_lists(),
    );
    lemma_last_picked(
        props,
        pods::pick_volume(PropKey::Volume),
        PropKey::Volume,
        single_volumes(),
    );
}

/// A node whose channel volumes are an empty list is at its master volume too, and has no channels.
pub proof fn lemma_no_channels_leave_the_master(props: Seq<PropertyView>, c: int, i: int)
    requires
        is_last(props, PropKey::ChannelVolumes, volume_lists(), c),
        props[c].value matches ValueView::Volumes(volumes) && volumes.len() == 0,
    ensures
        pods::node_volume(props).channel_count == Some(0usize),
        is_last(props, PropKey::Volume, single_volumes(), i) ==> (
        props[i].value matches ValueView::Volume(volume) && pods::node_volume(props).volume == Some(
            volume,
        )),
        is_absent(props, PropKey::Volume, single_volumes()) ==> pods::node_volume(
            props,
        ).volume is None,
{
    lemma_last_picked(
        props,
        pods::pick_volumes(PropKey::ChannelVolumes),
        PropKey::ChannelVolumes,
        volume_lists(),
    );
    lemma_last_picked(
        props,
        pods::pick_volume(PropKey::Volume),
        PropKey::Volume,
        single_volumes(),
    );
}

/// A node is muted or not as its properties say last; without such a property nothing is said of
/// it.
pub proof fn lemma_mute_is_read(props: Seq<PropertyView>, i: int)
    ensures
        is_last(props, PropKey::Mute, truths(), i) ==> (props[i].value matches ValueView::Bool(muted)
            && pods::node_volume(props).mute == Some(muted)),
        is_absent(props, PropKey::Mute, truths()) ==> pods::node_volume(props).mute is None,
{
    lemma_last_picked(props, pods::pick_bool(PropKey::Mute), PropKey::Mute, truths());
}

/// Profile indices keep their bits on the way into a parameter object and back, and those that a
/// signed number can hold keep their value.
pub proof fn lemma_indices_keep_their_bits(n: u32, i: i32)
    ensures
        pods::unsigned(pods::signed(n)) == n,
        pods::signed(pods::unsigned(i)) == i,
        i >= 0 ==> pods::unsigned(i) == i,
        n <= 0x7fff_ffff ==> pods::signed(n) == n,
{
}

/// The active profile is the one that the first index names; without an index there is none.
pub proof fn lemma_active_profile_is_read(props: Seq<PropertyView>, i: int)
    ensures
        0 <= i < props.len() && is_of(props[i], PropKey::ProfileIndex, numbers()) && (forall|j: int|
            0 <= j < i ==> !#[trigger] is_of(props[j], PropKey::ProfileIndex, numbers())) ==> (
        props[i].value matches ValueView::Int(n) && pods::active_profile(props) == Some(
            pods::unsigned(n),
        )),
        is_absent(props, PropKey::ProfileIndex, numbers()) ==> pods::active_profile(props) is None,
    decreases props.len(),
{
    if props.len() > 0 {
        let rest = props.drop_first();
        if 0 < i < props.len() && is_of(props[i], PropKey::ProfileIndex, numbers()) && (forall|
            j: int,
        |
            0 <= j < i ==> !#[trigger] is_of(props[j], PropKey::ProfileIndex, numbers())) {
            assert(!is_of(props[0], PropKey::ProfileIndex, numbers()));
            assert forall|j: int| 0 <= j < i - 1 implies !#[trigger] is_of(
                rest[j],
                PropKey::ProfileIndex,
                numbers(),
            ) by {
                assert(!is_of(props[j + 1], PropKey::ProfileIndex, numbers()));
            }
            lemma_active_profile_is_read(rest, i - 1);
        }
        if is_absent(props, PropKey::ProfileIndex, numbers()) {
            assert(!is_of(props[0], PropKey::ProfileIndex, numbers()));
            assert forall|j: int| 0 <= j < rest.len() implies !#[trigger] is_of(
                rest[j],
                PropKey::ProfileIndex,
                numbers(),
            ) by {
                assert(!is_of(props[j + 1], PropKey::ProfileIndex, numbers()));
            }
            lemma_active_profile_is_read(rest, i - 1);
        }
    }
}

/// A profile is read with its index, its name, its description and whether it can be used. Without
/// an index there is no profile; without a name it is called by its index, and without a
/// description by its name.
pub proof fn lemma_profiles_are_read(props: Seq<PropertyView>, i: int, k: int)
    requires
        is_last(props, PropKey::ProfileIndex, numbers(), i),
    ensures
        ({
            &&& props[i].value matches ValueView::Int(n)
            &&& pods::enumerated_profile(props) matches Some(profile)
            &&& profile.index == pods::unsigned(n)
            &&& is_last(props, PropKey::ProfileName, texts(), k) ==> props[k].value
                == ValueView::Text(profile.name)
            &&& is_absent(props, PropKey::ProfileName, texts()) ==> profile.name == "profile-"@
                + text::decimal(profile.index as nat)
            &&& is_last(props, PropKey::ProfileDescription, texts(), k) ==> props[k].value
                == ValueView::Text(profile.description)
            &&& is_absent(props, PropKey::ProfileDescription, texts()) ==> profile.description
                == profile.name
            &&& is_last(props, PropKey::ProfileAvailable, ids(), k) ==> (profile.available
                == ProfileAvailability::Yes <==> props[k].value == ValueView::Id(
                IdValue::AvailabilityYes,
            )) && (profile.available == ProfileAvailability::No <==> props[k].value
                == ValueView::Id(IdValue::AvailabilityNo))
            &&& is_absent(props, PropKey::ProfileAvailable, ids()) ==> profile.available
                == ProfileAvailability::Unknown
        }),
{
    lemma_last_picked(
        props,
        pods::pick_int(PropKey::ProfileIndex),
        PropKey::ProfileIndex,
        numbers(),
    );
    lemma_last_picked(props, pods::pick_text(PropKey::ProfileName), PropKey::ProfileName, texts());
    lemma_last_picked(
        props,
        pods::pick_text(PropKey::ProfileDescription),
        PropKey::ProfileDescription,
        texts(),
    );
    lemma_last_picked(props, pods::pick_availability(), PropKey::ProfileAvailable, ids());
}

/// Without an index there is no profile.
pub proof fn lemma_no_profile_without_index(props: Seq<PropertyView>)
    requires
        is_absent(props, PropKey::ProfileIndex, numbers()),
    ensures
        pods::enumerated_profile(props) is None,
{
    lemma_last_picked(
        props,
        pods::pick_int(PropKey::ProfileIndex),
        PropKey::ProfileIndex,
        numbers(),
    );
}

/// What is written to set a volume is one volume for each channel, all of them the same and at most
/// 150 percent; as long as the channels are not known it is the master volume.
pub proof fn lemma_every_channel_is_set(percent: u32, channels: Option<usize>, c: int)
    ensures
        ({
            let written = pods::volume_choice(percent, channels);
            let level: int = if percent < 150 {
                percent as int
            } else {
                150
            };
            &&& written.len() == 1
            &&& match channels {
                Some(n) if n > 0 => {
                    &&& written[0].key == PropKey::ChannelVolumes
                    &&& written[0].value matches ValueView::Volumes(volumes)
                    &&& volumes.len() == n
                    &&& 0 <= c < n ==> volumes[c] == level
                },
                _ => {
                    &&& written[0].key == PropKey::Volume
                    &&& written[0].value matches ValueView::Volume(volume)
                    &&& volume == level
                },
            }
        }),
{
}

/// A profile that is chosen is also kept across restarts.
pub proof fn lemma_chosen_profile_is_kept(profile_index: u32)
    ensures
        pods::profile_choice(profile_index).contains(
            (PropertyView { key: PropKey::ProfileSave, value: ValueView::Bool(true) }),
        ),
        profile_index <= 0x7fff_ffff ==> pods::profile_choice(profile_index).contains(
            (PropertyView {
                key: PropKey::ProfileIndex,
                value: ValueView::Int(profile_index as i32),
            }),
        ),
{
    let written = pods::profile_choice(profile_index);
    assert(written[0].key == PropKey::ProfileIndex);
    assert(written[1].key == PropKey::ProfileSave);
}

/// A profile that is enumerated takes the place of the one with its index, and comes last when
/// there is none. The others stay where they are.
pub proof fn lemma_profiles_are_kept_by_index(
    profiles: Seq<ProfileView>,
    profile: ProfileView,
    k: int,
)
    requires
        registry::distinct_profiles(profiles),
    ensures
        ({
            let next = registry::with_profile(profiles, profile);
            &&& next.contains(profile)
            &&& next.len() == profiles.len() || next.len() == profiles.len() + 1
            &&& 0 <= k < profiles.len() && profiles[k].index != profile.index ==> next[k]
                == profiles[k]
            &&& 0 <= k < profiles.len() && profiles[k].index == profile.index ==> next[k] == profile
                && next.len() == profiles.len()
            &&& next.len() == profiles.len() + 1 ==> next.last() == profile
        }),
{
    let same = |p: ProfileView| p.index == profile.index;
    let next = registry::with_profile(profiles, profile);
    crate::model::lemma_first_where(profiles, same);
    match crate::model::first_where(profiles, same) {
        Some(i) => {
            assert(next[i] == profile);
            assert(same(profiles[i]));
        },
        None => {
            assert(next.last() == profile);
            if 0 <= k < profiles.len() {
                assert(!same(profiles[k]));
            }
        },
    }
}

} // verus!
