//! What holds of the panel, whatever it shows.

use vstd::prelude::*;

use crate::app;
use crate::app::{AppView, EventKind, EventView, SliderKey};
use crate::backend::CommandView;
use crate::keys;
use crate::keys::Clicked;
use crate::model;
use crate::model::{CardView, NodeView, Tab, Volume, MAX_VOLUME_PERCENT};
use crate::text;
use crate::widgets;
use crate::widgets::ChoiceView;

verus! {

/// Toggling the mute state of a node twice asks for the state it had.
pub proof fn lemma_mute_toggles_back(panel: AppView, node_id: u32)
    ensures
        ({
            let (once, first) = panel.after_mute(node_id);
            let (twice, second) = once.after_mute(node_id);
            let before = panel.mute_before_toggle(node_id);
            &&& first == Some(CommandView::SetMute { node_id, muted: !before })
            &&& second == Some(CommandView::SetMute { node_id, muted: before })
            &&& twice.mute_before_toggle(node_id) == before
        }),
{
}

/// Toggling a menu opens it, toggling it again closes it, and so does dismissing it; opening one
/// closes the other of its kind.
pub proof fn lemma_menus_toggle(panel: AppView, id: u32)
    ensures
        ({
            let toggle = Some(ChoiceView::Toggle);
            let dismiss = Some(ChoiceView::Dismiss);
            let (target, _) = panel.after_target_choice(id, toggle);
            let (profile, _) = panel.after_profile_choice(id, toggle);
            let spectrum = panel.after_spectrum_choice(toggle);
            &&& panel.target_dropdown_open != Some(id) ==> {
                &&& target.target_dropdown_open == Some(id)
                &&& target.after_target_choice(id, toggle).0.target_dropdown_open is None
            }
            &&& target.after_target_choice(id, dismiss).0.target_dropdown_open is None
            &&& panel.profile_dropdown_open != Some(id) ==> {
                &&& profile.profile_dropdown_open == Some(id)
                &&& profile.after_profile_choice(id, toggle).0.profile_dropdown_open is None
            }
            &&& profile.after_profile_choice(id, dismiss).0.profile_dropdown_open is None
            &&& spectrum.after_spectrum_choice(toggle) == panel
            &&& !spectrum.after_spectrum_choice(dismiss).spectrum_dropdown_open
        }),
{
}

/// What the user set or picked for a node or a card is shown until the server confirms it.
pub proof fn lemma_unconfirmed_changes_show(panel: AppView, node: NodeView, card: CardView)
    ensures
        panel.volume_overrides.contains_key(node.id) && !app::volume_is_confirmed(
            panel.volume_overrides,
            node,
        ) ==> {
            &&& panel.percent_of(node) == panel.volume_overrides[node.id]
            &&& panel.with_settled_volume(node) == panel
        },
        panel.mute_overrides.contains_key(node.id) ==> panel.mute_of(node)
            == panel.mute_overrides[node.id],
        panel.profile_overrides.contains_key(card.id) ==> panel.profile_of(card) == Some(
            panel.profile_overrides[card.id],
        ),
{
}

/// Dropping what the server has confirmed changes nothing of what is shown, and changes made
/// elsewhere show from then on.
pub proof fn lemma_settling_is_invisible(panel: AppView, node: NodeView, card: CardView)
    ensures
        panel.with_settled_volume(node).percent_of(node) == panel.percent_of(node),
        panel.with_settled_mute(node).mute_of(node) == panel.mute_of(node),
        panel.with_settled_profile(card).profile_of(card) == panel.profile_of(card),
        app::volume_is_confirmed(panel.volume_overrides, node)
            ==> !panel.with_settled_volume(node).volume_overrides.contains_key(node.id),
{
}

/// A volume that the user set and the server reports as it was asked for is confirmed.
pub proof fn lemma_reported_volume_confirms(panel: AppView, node: NodeView, percent: u32)
    requires
        percent <= MAX_VOLUME_PERCENT,
        node.volume matches Some(volume) && volume.hundredths == model::limited(percent),
    ensures
        app::volume_is_confirmed(panel.with_volume(node.id, percent).volume_overrides, node),
{
}

/// The slider keys never ask for a volume beyond the limit.
pub proof fn lemma_slider_keys_keep_the_limit(panel: AppView, node_id: u32, key: Option<SliderKey>)
    ensures
        panel.after_slider_key(node_id, key).1 matches Some(command) ==> command matches CommandView::SetVolume {
            node_id: id,
            percent,
        } && id == node_id && percent <= MAX_VOLUME_PERCENT,
{
}

/// A volume that is not at an end comes back when it is stepped up and down again.
pub proof fn lemma_steps_cancel(percent: u32)
    requires
        percent < MAX_VOLUME_PERCENT,
    ensures
        app::stepped(app::stepped(percent, SliderKey::Increase), SliderKey::Decrease) == percent,
        percent + 10 <= MAX_VOLUME_PERCENT ==> app::stepped(
            app::stepped(percent, SliderKey::PageUp),
            SliderKey::PageDown,
        ) == percent,
{
}

/// An event that activates no control, such as hovering, scrolling or dragging, changes no route,
/// no profile, no default device and no mute state: at most it sets a volume.
pub proof fn lemma_only_activation_changes_routes(panel: AppView, event: EventView)
    requires
        !event.activates(),
    ensures
        ({
            let (next, command) = panel.after_event(event);
            &&& next == (AppView { volume_overrides: next.volume_overrides, ..panel })
            &&& command matches Some(command) ==> command is SetVolume
            &&& event.kind == EventKind::Other ==> next == panel && command is None
        }),
{
}

/// Refreshing forgets the volumes and mute states that the server has not confirmed, and nothing
/// else.
pub proof fn lemma_refresh(panel: AppView, node: NodeView)
    ensures
        ({
            let click = click_on("refresh"@);
            let (next, command) = panel.after_event(click);
            &&& command is None
            &&& next == (AppView {
                volume_overrides: Map::empty(),
                mute_overrides: Map::empty(),
                ..panel
            })
            &&& next.mute_of(node) == (app::reported_mute(node) == Some(true))
            &&& next.percent_of(node) == match app::reported_percent(node) {
                Some(percent) => percent,
                None => 100,
            }
        }),
{
    keys::lemma_controls_are_told_apart(0, Seq::empty());
    reveal_strlit("refresh");
    lemma_is_no_tab("refresh"@);
}

/// A click on the control with the given key.
pub open spec fn click_on(key: Seq<char>) -> EventView {
    EventView { kind: EventKind::Click, key: Some(key), pointer_percent: None, slider_key: None }
}

/// A key that does not begin like a tab's is none.
pub proof fn lemma_is_no_tab(key: Seq<char>)
    requires
        key.len() < 3 || key[0] != 't' || key[2] != 'b',
    ensures
        widgets::tab_token_in(key, "tabs"@) is None,
{
    reveal_strlit("tabs");
    reveal_strlit(":tab:");
    let prefix = "tabs"@ + ":tab:"@;
    if text::has_prefix(key, prefix) {
        assert(key.take(prefix.len() as int)[0] == 't');
        assert(key.take(prefix.len() as int)[2] == 'b');
    }
}

/// A click on a node's or a device's button does what the button is there for, to that node.
pub proof fn lemma_buttons_work(panel: AppView, id: u32)
    ensures
        panel.after_event(click_on(keys::key_of("mute:"@, id))) == panel.after_mute(id),
        panel.after_event(click_on(keys::key_of("default:"@, id))) == (
            panel,
            panel.default_command(id),
        ),
{
    keys::lemma_controls_are_told_apart(id, Seq::empty());
    reveal_strlit("mute:");
    reveal_strlit("default:");
    lemma_is_no_tab(keys::key_of("mute:"@, id));
    lemma_is_no_tab(keys::key_of("default:"@, id));
}

/// A click on a tab activates it, and changes nothing else.
pub proof fn lemma_tabs_work(panel: AppView, tab: Tab)
    ensures
        panel.after_event(click_on("tabs"@ + ":tab:"@ + tab.token_text())) == (
            AppView { active_tab: tab, ..panel },
            None::<CommandView>,
        ),
{
    let prefix = "tabs"@ + ":tab:"@;
    text::lemma_without_prefix(prefix, tab.token_text());
    tab.lemma_token_round_trip(tab.token_text());
}

/// The trigger, the menu and the options of a select reach the select of that card, stream or
/// spectrum.
pub proof fn lemma_selects_work(panel: AppView, id: u32, value: Seq<char>)
    ensures
        ({
            let profile = keys::key_of("profile:"@, id);
            let target = keys::key_of("target:"@, id);
            let spectrum = "spectrum"@;
            let toggle = Some(ChoiceView::Toggle);
            let dismiss = Some(ChoiceView::Dismiss);
            let pick = Some(ChoiceView::Pick(value));
            &&& panel.after_event(click_on(profile)) == panel.after_profile_choice(id, toggle)
            &&& panel.after_event(click_on(profile + dismiss_suffix()))
                == panel.after_profile_choice(id, dismiss)
            &&& panel.after_event(click_on(profile + option_suffix(value)))
                == panel.after_profile_choice(id, pick)
            &&& panel.after_event(click_on(target)) == panel.after_target_choice(id, toggle)
            &&& panel.after_event(click_on(target + dismiss_suffix()))
                == panel.after_target_choice(id, dismiss)
            &&& panel.after_event(click_on(target + option_suffix(value)))
                == panel.after_target_choice(id, pick)
            &&& panel.after_event(click_on(spectrum)) == (
                panel.after_spectrum_choice(toggle),
                None::<CommandView>,
            )
            &&& panel.after_event(click_on(spectrum + dismiss_suffix())) == (
                panel.after_spectrum_choice(dismiss),
                None::<CommandView>,
            )
            &&& panel.after_event(click_on(spectrum + option_suffix(value))) == (
                panel.after_spectrum_choice(pick),
                None::<CommandView>,
            )
        }),
{
    let profile = keys::key_of("profile:"@, id);
    let target = keys::key_of("target:"@, id);
    let spectrum = "spectrum"@;
    lemma_select_reaches(panel, profile, id, Seq::empty(), value);
    lemma_select_reaches(panel, target, id, Seq::empty(), value);
    lemma_select_reaches(panel, spectrum, id, Seq::empty(), value);
    lemma_select_reaches(panel, profile, id, dismiss_suffix(), value);
    lemma_select_reaches(panel, target, id, dismiss_suffix(), value);
    lemma_select_reaches(panel, spectrum, id, dismiss_suffix(), value);
    lemma_select_reaches(panel, profile, id, option_suffix(value), value);
    lemma_select_reaches(panel, target, id, option_suffix(value), value);
    lemma_select_reaches(panel, spectrum, id, option_suffix(value), value);
    reveal_strlit(":dismiss");
    reveal_strlit(":option:");
    assert(dismiss_suffix()[1] == 'd');
    assert(option_suffix(value)[1] == 'o');
    assert(profile + Seq::empty() =~= profile);
    assert(target + Seq::empty() =~= target);
    assert(spectrum + Seq::empty() =~= spectrum);
}

/// What the scrim of a menu adds to the key of its select.
pub open spec fn dismiss_suffix() -> Seq<char> {
    ":dismiss"@
}

/// What an option of a menu adds to the key of its select.
pub open spec fn option_suffix(value: Seq<char>) -> Seq<char> {
    ":option:"@ + value
}

proof fn lemma_select_reaches(
    panel: AppView,
    key: Seq<char>,
    id: u32,
    suffix: Seq<char>,
    value: Seq<char>,
)
    requires
        key == keys::key_of("profile:"@, id) || key == keys::key_of("target:"@, id) || key
            == "spectrum"@,
        suffix.len() == 0 || suffix == dismiss_suffix() || suffix == option_suffix(value),
    ensures
        widgets::tab_token_in(key + suffix, "tabs"@) is None,
        key == keys::key_of("profile:"@, id) ==> keys::clicked(key + suffix) == Clicked::Profile(id),
        key == keys::key_of("target:"@, id) ==> keys::clicked(key + suffix) == Clicked::Target(id),
        key == "spectrum"@ ==> keys::clicked(key + suffix) == Clicked::Spectrum,
        widgets::choice_in(key + suffix, key) == if suffix.len() == 0 {
            Some(ChoiceView::Toggle)
        } else if suffix == dismiss_suffix() {
            Some(ChoiceView::Dismiss)
        } else {
            Some(ChoiceView::Pick(value))
        },
{
    reveal_strlit("profile:");
    reveal_strlit("target:");
    reveal_strlit("spectrum");
    reveal_strlit(":dismiss");
    reveal_strlit("dismiss");
    reveal_strlit(":option:");
    reveal_strlit("option:");
    let route = key + suffix;
    keys::lemma_controls_are_told_apart(id, suffix);
    lemma_is_no_tab(route);
    if suffix.len() == 0 {
        assert(route =~= key);
    } else {
        let colon = key + seq![':'];
        let rest = suffix.skip(1);
        assert(route =~= colon + rest);
        text::lemma_without_prefix(colon, rest);
        if suffix == dismiss_suffix() {
            assert(rest =~= "dismiss"@);
        } else {
            assert(rest =~= "option:"@ + value);
            assert(rest[0] == 'o');
            text::lemma_without_prefix("option:"@, value);
        }
    }
}

} // verus!
