//! The keys of the panel's controls: what they stand for, and how they are read back from the
//! routes of events.
//!
//! A control of a node or a card has a prefix and the id as its key. A select adds suffixes to its
//! key: `:dismiss`, and `:option:` with the value of an option.

use vstd::prelude::*;

use crate::text;

verus! {

/// The key of a control of the given object.
pub open spec fn key_of(prefix: Seq<char>, id: u32) -> Seq<char> {
    prefix + text::decimal(id as nat)
}

/// Builds the key of a control of the given object.
pub fn indexed(prefix: &str, id: u32) -> (r: String)
    ensures
        r@ == key_of(prefix@, id),
{
    let number = text::to_decimal(id as u64);
    text::join2(prefix, number.as_str())
}

/// The id that follows a prefix.
pub open spec fn id_in(key: Seq<char>, prefix: Seq<char>) -> Option<u32> {
    match text::without_prefix(key, prefix) {
        Some(rest) => text::parsed_u32(rest),
        None => None,
    }
}

/// Reads the id that follows a prefix.
pub fn node_id_from_key(key: &str, prefix: &str) -> (r: Option<u32>)
    ensures
        r == id_in(key@, prefix@),
{
    match text::strip_prefix(key, prefix) {
        Some(rest) => text::parse_u32(rest),
        None => None,
    }
}

/// The id between a prefix and the next colon, if any.
pub open spec fn select_id_in(key: Seq<char>, prefix: Seq<char>) -> Option<u32> {
    match text::without_prefix(key, prefix) {
        Some(rest) => text::parsed_u32(text::before_colon(rest)),
        None => None,
    }
}

fn select_id(key: &str, prefix: &str) -> (r: Option<u32>)
    ensures
        r == select_id_in(key@, prefix@),
{
    match text::strip_prefix(key, prefix) {
        Some(rest) => text::parse_u32(text::first_segment(rest)),
        None => None,
    }
}

/// The card whose profile select has the key, with or without a suffix.
pub fn card_id_for_profile_select(key: &str) -> (r: Option<u32>)
    ensures
        r == select_id_in(key@, "profile:"@),
{
    select_id(key, "profile:")
}

/// The stream whose target select has the key, with or without a suffix.
pub fn stream_id_for_target_select(key: &str) -> (r: Option<u32>)
    ensures
        r == select_id_in(key@, "target:"@),
{
    select_id(key, "target:")
}

/// Whether a key is that of the spectrum select, with or without a suffix.
pub open spec fn is_spectrum_key(key: Seq<char>) -> bool {
    key == "spectrum"@ || text::has_prefix(key, "spectrum:"@)
}

/// Recognises the keys of the spectrum select, with or without a suffix.
pub fn is_spectrum_select_key(key: &str) -> (r: bool)
    ensures
        r == is_spectrum_key(key@),
{
    text::text_eq(key, "spectrum") || text::strip_prefix(key, "spectrum:").is_some()
}

/// What a click on a control asks for.
#[derive(Debug, Clone, Copy, PartialEq, Eq, Structural)]
pub enum Clicked {
    /// Forget the changes that the server has not confirmed.
    Refresh,
    /// Mute a node, or stop muting it.
    Mute(u32),
    /// Make a device the default.
    Default(u32),
    /// Something of a card's profile select.
    Profile(u32),
    /// Something of a stream's target select.
    Target(u32),
    /// Something of the spectrum select.
    Spectrum,
    /// Move a node's volume slider.
    Volume(u32),
    /// Nothing.
    Nothing,
}

/// What a click on the control with the given key asks for.
pub open spec fn clicked(key: Seq<char>) -> Clicked {
    if key == "refresh"@ {
        Clicked::Refresh
    } else if let Some(id) = id_in(key, "mute:"@) {
        Clicked::Mute(id)
    } else if let Some(id) = id_in(key, "default:"@) {
        Clicked::Default(id)
    } else if let Some(id) = select_id_in(key, "profile:"@) {
        Clicked::Profile(id)
    } else if let Some(id) = select_id_in(key, "target:"@) {
        Clicked::Target(id)
    } else if is_spectrum_key(key) {
        Clicked::Spectrum
    } else if let Some(id) = id_in(key, "volume:"@) {
        Clicked::Volume(id)
    } else {
        Clicked::Nothing
    }
}

/// Reads what a click on the control with the given key asks for.
pub fn route_click(key: &str) -> (r: Clicked)
    ensures
        r == clicked(key@),
{
    if text::text_eq(key, "refresh") {
        Clicked::Refresh
    } else if let Some(id) = node_id_from_key(key, "mute:") {
        Clicked::Mute(id)
    } else if let Some(id) = node_id_from_key(key, "default:") {
        Clicked::Default(id)
    } else if let Some(id) = card_id_for_profile_select(key) {
        Clicked::Profile(id)
    } else if let Some(id) = stream_id_for_target_select(key) {
        Clicked::Target(id)
    } else if is_spectrum_select_key(key) {
        Clicked::Spectrum
    } else if let Some(id) = node_id_from_key(key, "volume:") {
        Clicked::Volume(id)
    } else {
        Clicked::Nothing
    }
}

/// The key of a control leads back to the object it was made for.
pub proof fn lemma_key_round_trip(prefix: Seq<char>, id: u32)
    ensures
        id_in(key_of(prefix, id), prefix) == Some(id),
{
    text::lemma_without_prefix(prefix, text::decimal(id as nat));
    text::lemma_parsed_decimal(id as nat, u32::MAX as int);
}

/// The key of a select leads back to the object it was made for, whatever suffix is added to it.
pub proof fn lemma_select_key_round_trip(prefix: Seq<char>, id: u32, suffix: Seq<char>)
    requires
        suffix.len() > 0 ==> suffix[0] == ':',
    ensures
        select_id_in(key_of(prefix, id) + suffix, prefix) == Some(id),
{
    let number = text::decimal(id as nat);
    let rest = number + suffix;
    assert(key_of(prefix, id) + suffix =~= prefix + rest);
    text::lemma_without_prefix(prefix, rest);
    text::lemma_parsed_decimal(id as nat, u32::MAX as int);
    text::lemma_decimal_has_no_colon(id as nat);
    let colon = seq![':'];
    assert forall|j: int| 0 <= j < number.len() implies !#[trigger] text::occurs_at(
        rest,
        colon,
        j,
    ) by {
        assert(rest.subrange(j, j + 1)[0] == number[j]);
    }
    if suffix.len() > 0 {
        let at = number.len() as int;
        assert(rest.subrange(at, at + 1) =~= colon);
        text::lemma_found_is(rest, colon, at);
        assert(rest.take(at) =~= number);
    } else {
        assert(rest =~= number);
        text::lemma_found(rest, colon);
    }
}

proof fn lemma_prefix_starts(key: Seq<char>, prefix: Seq<char>)
    requires
        text::has_prefix(key, prefix),
        prefix.len() > 0,
    ensures
        key.len() > 0,
        key[0] == prefix[0],
{
    assert(key.take(prefix.len() as int)[0] == prefix[0]);
}

/// A click on any control that the panel makes is read as what the control is there for.
pub proof fn lemma_controls_are_told_apart(id: u32, suffix: Seq<char>)
    requires
        suffix.len() > 0 ==> suffix[0] == ':',
    ensures
        clicked("refresh"@) == Clicked::Refresh,
        clicked(key_of("mute:"@, id)) == Clicked::Mute(id),
        clicked(key_of("default:"@, id)) == Clicked::Default(id),
        clicked(key_of("profile:"@, id) + suffix) == Clicked::Profile(id),
        clicked(key_of("target:"@, id) + suffix) == Clicked::Target(id),
        clicked("spectrum"@ + suffix) == Clicked::Spectrum,
        clicked(key_of("volume:"@, id)) == Clicked::Volume(id),
{
    reveal_strlit("refresh");
    reveal_strlit("mute:");
    reveal_strlit("default:");
    reveal_strlit("profile:");
    reveal_strlit("target:");
    reveal_strlit("spectrum");
    reveal_strlit("spectrum:");
    reveal_strlit("volume:");
    lemma_key_round_trip("mute:"@, id);
    lemma_key_round_trip("default:"@, id);
    lemma_key_round_trip("volume:"@, id);
    lemma_select_key_round_trip("profile:"@, id, suffix);
    lemma_select_key_round_trip("target:"@, id, suffix);
    let spectrum = "spectrum"@ + suffix;
    if suffix.len() == 0 {
        assert(spectrum =~= "spectrum"@);
    } else {
        assert(spectrum.take(9) =~= "spectrum:"@);
    }
    assert forall|key: Seq<char>, prefix: Seq<char>|
        prefix.len() > 0 && #[trigger] text::has_prefix(key, prefix) implies key.len() > 0 && key[0]
        == prefix[0] by {
        lemma_prefix_starts(key, prefix);
    }
}

/// An id is read from a key that is the prefix and the number of the id, and from no other.
pub proof fn lemma_ids_follow_their_prefix(key: Seq<char>, prefix: Seq<char>, rest: Seq<char>)
    ensures
        key == prefix + rest ==> id_in(key, prefix) == text::parsed_u32(rest),
        key == prefix + rest ==> select_id_in(key, prefix) == text::parsed_u32(
            text::before_colon(rest),
        ),
        !prefix.is_prefix_of(key) ==> id_in(key, prefix) is None,
        !prefix.is_prefix_of(key) ==> select_id_in(key, prefix) is None,
{
    text::lemma_prefix_and_rest(key, prefix, rest);
}

/// A click on anything that has the key of no control asks for nothing.
pub proof fn lemma_other_keys_are_nothing(key: Seq<char>)
    requires
        key != "refresh"@,
        key != "spectrum"@,
        !"spectrum:"@.is_prefix_of(key),
        !"mute:"@.is_prefix_of(key),
        !"default:"@.is_prefix_of(key),
        !"profile:"@.is_prefix_of(key),
        !"target:"@.is_prefix_of(key),
        !"volume:"@.is_prefix_of(key),
    ensures
        clicked(key) == Clicked::Nothing,
{
    let none = Seq::empty();
    lemma_ids_follow_their_prefix(key, "mute:"@, none);
    lemma_ids_follow_their_prefix(key, "default:"@, none);
    lemma_ids_follow_their_prefix(key, "profile:"@, none);
    lemma_ids_follow_their_prefix(key, "target:"@, none);
    lemma_ids_follow_their_prefix(key, "volume:"@, none);
    text::lemma_prefix_and_rest(key, "spectrum:"@, none);
}

} // verus!
