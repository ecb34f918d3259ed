//! The widgets whose routes the panel reads: selects and the row of tabs.
//!
//! What a route means to them is Damascene's to say. The functions that ask it are not verified:
//! their contracts state what its sources and documentation show.

use vstd::prelude::*;

use crate::model::Tab;
use crate::text;

verus! {

/// What an activated route means to a select.
#[derive(Debug, Clone)]
pub enum SelectChoice {
    /// Open the menu, or close it.
    Toggle,
    /// Close the menu.
    Dismiss,
    /// Pick the option with the given value.
    Pick(String),
}

/// The value of a [`SelectChoice`].
#[verifier::ext_equal]
pub enum ChoiceView {
    Toggle,
    Dismiss,
    Pick(Seq<char>),
}

impl View for SelectChoice {
    type V = ChoiceView;

    open spec fn view(&self) -> ChoiceView {
        match *self {
            SelectChoice::Toggle => ChoiceView::Toggle,
            SelectChoice::Dismiss => ChoiceView::Dismiss,
            SelectChoice::Pick(value) => ChoiceView::Pick(value@),
        }
    }
}

/// The value of an optional choice.
pub open spec fn opt_choice(choice: Option<SelectChoice>) -> Option<ChoiceView> {
    match choice {
        Some(choice) => Some(choice@),
        None => None,
    }
}

/// What an activated route means to the select with the given key: the key itself toggles the
/// menu, the suffix `:dismiss` closes it, and the suffix `:option:` picks the value behind it.
pub open spec fn choice_in(route: Seq<char>, key: Seq<char>) -> Option<ChoiceView> {
    if route == key {
        Some(ChoiceView::Toggle)
    } else {
        match text::without_prefix(route, key + seq![':']) {
            Some(rest) => if rest == "dismiss"@ {
                Some(ChoiceView::Dismiss)
            } else {
                match text::without_prefix(rest, "option:"@) {
                    Some(value) => Some(ChoiceView::Pick(value)),
                    None => None,
                }
            },
            None => None,
        }
    }
}

/// Asks `damascene_core::widgets::select::classify_event` what a click on the given route means to
/// the select with the given key. Claimed of it: it gives `Toggle` for the key itself, `Dismiss`
/// for the key with `:dismiss`, `Pick` with the rest for the key with `:option:`, and `None` for
/// any other route.
#[verifier::external_body]
pub(crate) fn classify_select(route: &str, key: &str) -> (r: Option<SelectChoice>)
    ensures
        opt_choice(r) == choice_in(route@, key@),
{
    let event = damascene_core::UiEvent::synthetic_click(route);
    match damascene_core::widgets::select::classify_event(&event, key) {
        Some(damascene_core::SelectAction::Toggle) => Some(SelectChoice::Toggle),
        Some(damascene_core::SelectAction::Dismiss) => Some(SelectChoice::Dismiss),
        Some(damascene_core::SelectAction::Pick(value)) => Some(SelectChoice::Pick(value)),
        _ => None,
    }
}

/// The token of the tab that a route selects in the row of tabs with the given key.
pub open spec fn tab_token_in(route: Seq<char>, key: Seq<char>) -> Option<Seq<char>> {
    text::without_prefix(route, key + ":tab:"@)
}

/// The active tab after a click on a route.
pub open spec fn tab_after(active: Tab, route: Seq<char>, key: Seq<char>) -> Tab {
    match tab_token_in(route, key) {
        Some(token) => match Tab::named_by(token) {
            Some(tab) => tab,
            None => active,
        },
        None => active,
    }
}

/// Has `damascene_core::widgets::tabs::apply_event` apply a click on the given route to the active
/// tab of the row with the given key. Claimed of it: it accepts the routes that are the key, `:tab:`
/// and a token, and then sets the tab that the token names, if it names one; it leaves the tab as
/// it is for any other route.
#[verifier::external_body]
pub(crate) fn apply_tabs(active: &mut Tab, route: &str, key: &str) -> (r: bool)
    ensures
        r == tab_token_in(route@, key@) is Some,
        *final(active) == tab_after(*old(active), route@, key@),
{
    let event = damascene_core::UiEvent::synthetic_click(route);
    damascene_core::widgets::tabs::apply_event(active, &event, key, Tab::from_token)
}

} // verus!
