//! What the window's events lead to.

use vstd::prelude::*;

use crate::host;
use crate::host::{
    ActionView, HostEvent, HostState, KeyModifiers, MouseButton, PointerButton, UiKeyView, WindowKey,
};

verus! {

/// Closing lets the graphics go and leaves no window; without a window every other event is lost.
pub proof fn lemma_closing(state: HostState, event: HostEvent)
    ensures
        state.actions(HostEvent::CloseRequested) == seq![ActionView::Close],
        !state.after(HostEvent::CloseRequested).open,
        event != HostEvent::CloseRequested ==> {
            let closed = state.after(HostEvent::CloseRequested);
            closed.after(event) == closed && closed.actions(event).len() == 0
        },
        event != HostEvent::CloseRequested ==> state.after(event).open == state.open,
{
}

/// A button of the mouse is pressed, or let go, where the pointer was seen last, and the wheel turns
/// there: the left button is the primary one, the right button the secondary one.
pub proof fn lemma_mouse_acts_where_the_pointer_is(
    state: HostState,
    x: u32,
    y: u32,
    button: MouseButton,
    dy: u32,
)
    requires
        state.open,
    ensures
        ({
            let moved = state.after(HostEvent::CursorMoved { x, y });
            let down = moved.actions(HostEvent::MouseInput { pressed: true, button });
            let up = moved.actions(HostEvent::MouseInput { pressed: false, button });
            &&& state.actions(HostEvent::CursorMoved { x, y })[0] == (ActionView::PointerMoved {
                x,
                y,
            })
            &&& button == MouseButton::Left ==> {
                &&& down[0] == (ActionView::PointerDown { x, y, button: PointerButton::Primary })
                &&& up[0] == (ActionView::PointerUp { x, y, button: PointerButton::Primary })
            }
            &&& button == MouseButton::Right ==> {
                &&& down[0] == (ActionView::PointerDown { x, y, button: PointerButton::Secondary })
                &&& up[0] == (ActionView::PointerUp { x, y, button: PointerButton::Secondary })
            }
            &&& button == MouseButton::Middle ==> {
                &&& down[0] == (ActionView::PointerDown { x, y, button: PointerButton::Middle })
                &&& up[0] == (ActionView::PointerUp { x, y, button: PointerButton::Middle })
            }
            &&& button == MouseButton::Other ==> down.len() == 0 && up.len() == 0
            &&& button != MouseButton::Other ==> {
                &&& down.len() == 2 && down[1] == ActionView::RequestRedraw
                &&& up.len() == 2 && up[1] == ActionView::RequestRedraw
            }
            &&& moved.actions(HostEvent::MouseWheel { dy }) == seq![
                ActionView::PointerWheel { x, y, dy },
            ]
            &&& moved == (HostState { last_pointer: moved.last_pointer, ..state })
        }),
{
}

/// Once the pointer has left, neither a button nor the wheel does anything.
pub proof fn lemma_mouse_is_lost_outside(state: HostState, pressed: bool, button: MouseButton, dy: u32)
    requires
        state.open,
    ensures
        ({
            let left = state.after(HostEvent::CursorLeft);
            &&& state.actions(HostEvent::CursorLeft) == seq![
                ActionView::PointerLeft,
                ActionView::RequestRedraw,
            ]
            &&& left.actions(HostEvent::MouseInput { pressed, button }).len() == 0
            &&& left.actions(HostEvent::MouseWheel { dy }).len() == 0
            &&& left == (HostState { last_pointer: None, ..state })
        }),
{
}

/// A key is reported with the modifiers that were held last, and so is what it types. A key that
/// stands for nothing still types.
pub proof fn lemma_keys_carry_the_modifiers(
    state: HostState,
    modifiers: KeyModifiers,
    key: WindowKey,
    repeat: bool,
    typed: String,
)
    requires
        state.open,
    ensures
        ({
            let held = state.after(HostEvent::ModifiersChanged(modifiers));
            let silent = held.actions(HostEvent::KeyPressed { key, repeat, text: None });
            let typing = held.actions(HostEvent::KeyPressed { key, repeat, text: Some(typed) });
            let none = state.actions(
                HostEvent::KeyPressed { key: WindowKey::Unknown, repeat, text: Some(typed) },
            );
            &&& state.actions(HostEvent::ModifiersChanged(modifiers)) == seq![
                ActionView::SetModifiers(modifiers),
            ]
            &&& held == (HostState { modifiers, ..state })
            &&& host::mapped_key(key) matches Some(mapped) ==> {
                let pressed = ActionView::KeyDown { key: mapped, modifiers, repeat };
                &&& silent == seq![pressed, ActionView::RequestRedraw]
                &&& typing == seq![
                    pressed,
                    ActionView::TextInput(typed@),
                    ActionView::RequestRedraw,
                ]
            }
            &&& none == seq![ActionView::TextInput(typed@), ActionView::RequestRedraw]
            &&& state.actions(HostEvent::TextCommitted(typed)) == seq![
                ActionView::TextInput(typed@),
                ActionView::RequestRedraw,
            ]
        }),
{
    let held = state.after(HostEvent::ModifiersChanged(modifiers));
    if let Some(mapped) = host::mapped_key(key) {
        let pressed = ActionView::KeyDown { key: mapped, modifiers, repeat };
        assert(held.actions(HostEvent::KeyPressed { key, repeat, text: None }) =~= seq![
            pressed,
            ActionView::RequestRedraw,
        ]);
        assert(held.actions(HostEvent::KeyPressed { key, repeat, text: Some(typed) }) =~= seq![
            pressed,
            ActionView::TextInput(typed@),
            ActionView::RequestRedraw,
        ]);
    }
    assert(state.actions(
        HostEvent::KeyPressed { key: WindowKey::Unknown, repeat, text: Some(typed) },
    ) =~= seq![ActionView::TextInput(typed@), ActionView::RequestRedraw]);
}

/// Each key that the panel knows by name is one of its own, and any other named key keeps its name; a
/// key that stands for characters keeps these.
pub proof fn lemma_keys_keep_their_names(name: String)
    ensures
        host::mapped_key(WindowKey::Character(name)) == Some(UiKeyView::Character(name@)),
        host::mapped_key(WindowKey::Unknown) is None,
        host::mapped_key(WindowKey::Named(name)) matches Some(key) && match key {
            UiKeyView::Enter => name@ == "Enter"@,
            UiKeyView::Escape => name@ == "Escape"@,
            UiKeyView::Tab => name@ == "Tab"@,
            UiKeyView::Space => name@ == "Space"@,
            UiKeyView::ArrowUp => name@ == "ArrowUp"@,
            UiKeyView::ArrowDown => name@ == "ArrowDown"@,
            UiKeyView::ArrowLeft => name@ == "ArrowLeft"@,
            UiKeyView::ArrowRight => name@ == "ArrowRight"@,
            UiKeyView::Backspace => name@ == "Backspace"@,
            UiKeyView::Delete => name@ == "Delete"@,
            UiKeyView::Home => name@ == "Home"@,
            UiKeyView::End => name@ == "End"@,
            UiKeyView::Character(_) => false,
            UiKeyView::Other(other) => {
                &&& other == name@
                &&& name@ != "Enter"@ && name@ != "Escape"@ && name@ != "Tab"@ && name@ != "Space"@
                &&& name@ != "ArrowUp"@ && name@ != "ArrowDown"@
                &&& name@ != "ArrowLeft"@ && name@ != "ArrowRight"@
                &&& name@ != "Backspace"@ && name@ != "Delete"@ && name@ != "Home"@ && name@
                    != "End"@
            },
        },
{
}

/// A window that opens or is resized gives its surface the size that it has, and asks for a frame
/// when it is resized; a side of no length counts as one.
pub proof fn lemma_surface_has_the_size_of_the_window(
    state: HostState,
    width: u32,
    height: u32,
    now: u64,
)
    requires
        state.open,
    ensures
        ({
            let event = HostEvent::Resized { width, height };
            let next = state.after(event);
            let opened = HostState::start(now).opened(width, height, now);
            &&& width > 0 ==> next.width == width && opened.width == width
            &&& height > 0 ==> next.height == height && opened.height == height
            &&& width == 0 ==> next.width == 1 && opened.width == 1
            &&& height == 0 ==> next.height == 1 && opened.height == 1
            &&& state.actions(event) == seq![
                ActionView::Resize { width: next.width, height: next.height },
                ActionView::RequestRedraw,
            ]
            &&& next == (HostState { width: next.width, height: next.height, ..state })
            &&& opened.open && !HostState::start(now).open
            &&& opened.last_pointer is None
        }),
{
}

/// A frame is drawn when the window asks for one. Between events the meters are drawn again once the
/// interval of 33 milliseconds is over, and not before.
pub proof fn lemma_meters_are_drawn_on_time(
    state: HostState,
    width: u32,
    height: u32,
    now: u64,
    later: u64,
)
    requires
        now <= later,
        later + 33_000_000 <= u64::MAX,
    ensures
        state.open ==> state.actions(HostEvent::RedrawRequested) == seq![ActionView::Draw],
        state.open ==> state.after(HostEvent::RedrawRequested) == state,
        ({
            let opened = state.opened(width, height, now);
            let waited = opened.waiting(later);
            &&& opened.is_due(later) <==> later >= now + 33_000_000
            &&& opened.is_due(later) ==> waited.next_meter_frame == later + 33_000_000
            &&& !opened.is_due(later) ==> waited == opened
            &&& waited == (HostState { next_meter_frame: waited.next_meter_frame, ..opened })
        }),
        !state.open ==> !state.is_due(now) && state.waiting(now) == state,
{
}

/// The first sRGB format is taken where there is one, and the first format of all otherwise.
pub proof fn lemma_first_srgb_format_is_taken(srgb: Seq<bool>, k: int, i: int)
    requires
        0 <= k < srgb.len(),
    ensures
        srgb[k] && !srgb.take(k).contains(true) ==> (host::is_preferred(srgb, i) <==> i == k),
        !srgb.contains(true) ==> (host::is_preferred(srgb, i) <==> i == 0),
{
    if srgb[k] && !srgb.take(k).contains(true) {
        assert forall|j: int| 0 <= j < k implies !#[trigger] srgb[j] by {
            assert(srgb.take(k)[j] == srgb[j]);
        }
    }
    if !srgb.contains(true) {
        assert forall|j: int| 0 <= j < srgb.len() implies !#[trigger] srgb[j] by {
        }
    }
}

} // verus!
