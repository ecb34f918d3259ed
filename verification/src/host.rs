//! The window: what its events ask of the renderer and of the window itself, and when the meters are
//! drawn again.
//!
//! Coordinates and distances are single-precision numbers. They are held as their bit patterns,
//! which are only handed through here. Times are nanoseconds since some moment.

use vstd::prelude::*;

use crate::text;

verus! {

/// How long a frame of the meters is shown, in nanoseconds.
pub const METER_FRAME_INTERVAL: u64 = 33_000_000;

/// How many samples a pixel of the window has.
pub const SAMPLE_COUNT: u32 = 4;

/// The modifier keys that are held.
#[derive(Debug, Clone, Copy, PartialEq, Eq, Structural)]
pub struct KeyModifiers {
    pub shift: bool,
    pub ctrl: bool,
    pub alt: bool,
    pub logo: bool,
}

/// A key as the window names it.
#[derive(Debug, Clone)]
pub enum WindowKey {
    /// A key with a name.
    Named(String),
    /// A key that stands for characters.
    Character(String),
    /// Any other key.
    Unknown,
}

/// A key as the panel knows it.
#[derive(Debug, Clone)]
pub enum UiKey {
    Enter,
    Escape,
    Tab,
    Space,
    ArrowUp,
    ArrowDown,
    ArrowLeft,
    ArrowRight,
    Backspace,
    Delete,
    Home,
    End,
    Character(String),
    /// A key with another name.
    Other(String),
}

/// The value of a [`UiKey`].
#[verifier::ext_equal]
pub enum UiKeyView {
    Enter,
    Escape,
    Tab,
    Space,
    ArrowUp,
    ArrowDown,
    ArrowLeft,
    ArrowRight,
    Backspace,
    Delete,
    Home,
    End,
    Character(Seq<char>),
    Other(Seq<char>),
}

impl View for UiKey {
    type V = UiKeyView;

    open spec fn view(&self) -> UiKeyView {
        match *self {
            UiKey::Enter => UiKeyView::Enter,
            UiKey::Escape => UiKeyView::Escape,
            UiKey::Tab => UiKeyView::Tab,
            UiKey::Space => UiKeyView::Space,
            UiKey::ArrowUp => UiKeyView::ArrowUp,
            UiKey::ArrowDown => UiKeyView::ArrowDown,
            UiKey::ArrowLeft => UiKeyView::ArrowLeft,
            UiKey::ArrowRight => UiKeyView::ArrowRight,
            UiKey::Backspace => UiKeyView::Backspace,
            UiKey::Delete => UiKeyView::Delete,
            UiKey::Home => UiKeyView::Home,
            UiKey::End => UiKeyView::End,
            UiKey::Character(s) => UiKeyView::Character(s@),
            UiKey::Other(s) => UiKeyView::Other(s@),
        }
    }
}

/// The value of an optional key.
pub open spec fn opt_key(key: Option<UiKey>) -> Option<UiKeyView> {
    match key {
        Some(key) => Some(key@),
        None => None,
    }
}

/// The key with the given name.
pub open spec fn named_key(name: Seq<char>) -> UiKeyView {
    if name == "Enter"@ {
        UiKeyView::Enter
    } else if name == "Escape"@ {
        UiKeyView::Escape
    } else if name == "Tab"@ {
        UiKeyView::Tab
    } else if name == "Space"@ {
        UiKeyView::Space
    } else if name == "ArrowUp"@ {
        UiKeyView::ArrowUp
    } else if name == "ArrowDown"@ {
        UiKeyView::ArrowDown
    } else if name == "ArrowLeft"@ {
        UiKeyView::ArrowLeft
    } else if name == "ArrowRight"@ {
        UiKeyView::ArrowRight
    } else if name == "Backspace"@ {
        UiKeyView::Backspace
    } else if name == "Delete"@ {
        UiKeyView::Delete
    } else if name == "Home"@ {
        UiKeyView::Home
    } else if name == "End"@ {
        UiKeyView::End
    } else {
        UiKeyView::Other(name)
    }
}

/// The key that a key of the window stands for.
pub open spec fn mapped_key(key: WindowKey) -> Option<UiKeyView> {
    match key {
        WindowKey::Named(name) => Some(named_key(name@)),
        WindowKey::Character(s) => Some(UiKeyView::Character(s@)),
        WindowKey::Unknown => None,
    }
}

/// Finds the key that a key of the window stands for.
pub fn map_key(key: &WindowKey) -> (r: Option<UiKey>)
    ensures
        opt_key(r) == mapped_key(*key),
{
    let name = match key {
        WindowKey::Named(name) => name.as_str(),
        WindowKey::Character(s) => return Some(UiKey::Character(s.as_str().to_owned())),
        WindowKey::Unknown => return None,
    };
    Some(
        if text::text_eq(name, "Enter") {
            UiKey::Enter
        } else if text::text_eq(name, "Escape") {
            UiKey::Escape
        } else if text::text_eq(name, "Tab") {
            UiKey::Tab
        } else if text::text_eq(name, "Space") {
            UiKey::Space
        } else if text::text_eq(name, "ArrowUp") {
            UiKey::ArrowUp
        } else if text::text_eq(name, "ArrowDown") {
            UiKey::ArrowDown
        } else if text::text_eq(name, "ArrowLeft") {
            UiKey::ArrowLeft
        } else if text::text_eq(name, "ArrowRight") {
            UiKey::ArrowRight
        } else if text::text_eq(name, "Backspace") {
            UiKey::Backspace
        } else if text::text_eq(name, "Delete") {
            UiKey::Delete
        } else if text::text_eq(name, "Home") {
            UiKey::Home
        } else if text::text_eq(name, "End") {
            UiKey::End
        } else {
            UiKey::Other(name.to_owned())
        },
    )
}

/// A button of the mouse.
#[derive(Debug, Clone, Copy, PartialEq, Eq, Structural)]
pub enum MouseButton {
    Left,
    Right,
    Middle,
    Other,
}

/// A button of the pointer, as the panel knows it.
#[derive(Debug, Clone, Copy, PartialEq, Eq, Structural)]
pub enum PointerButton {
    Primary,
    Secondary,
    Middle,
}

/// The button that a button of the mouse stands for.
pub open spec fn mapped_button(button: MouseButton) -> Option<PointerButton> {
    match button {
        MouseButton::Left => Some(PointerButton::Primary),
        MouseButton::Right => Some(PointerButton::Secondary),
        MouseButton::Middle => Some(PointerButton::Middle),
        MouseButton::Other => None,
    }
}

/// Finds the button that a button of the mouse stands for.
pub fn pointer_button(button: MouseButton) -> (r: Option<PointerButton>)
    ensures
        r == mapped_button(button),
{
    match button {
        MouseButton::Left => Some(PointerButton::Primary),
        MouseButton::Right => Some(PointerButton::Secondary),
        MouseButton::Middle => Some(PointerButton::Middle),
        MouseButton::Other => None,
    }
}

/// An event of the window.
#[derive(Debug, Clone)]
pub enum HostEvent {
    CloseRequested,
    Resized { width: u32, height: u32 },
    CursorMoved { x: u32, y: u32 },
    CursorLeft,
    MouseInput { pressed: bool, button: MouseButton },
    MouseWheel { dy: u32 },
    ModifiersChanged(KeyModifiers),
    /// A key was pressed, or repeats while it is held, and produces text or none.
    KeyPressed { key: WindowKey, repeat: bool, text: Option<String> },
    /// Text that an input method produced.
    TextCommitted(String),
    RedrawRequested,
    Other,
}

/// What is to be done about an event of the window.
#[derive(Debug, Clone)]
pub enum HostAction {
    /// Let the graphics go, and leave.
    Close,
    /// Give the surface, the renderer and the pixel buffer a new size.
    Resize { width: u32, height: u32 },
    PointerMoved { x: u32, y: u32 },
    PointerLeft,
    PointerDown { x: u32, y: u32, button: PointerButton },
    PointerUp { x: u32, y: u32, button: PointerButton },
    /// Scroll, and draw again if that moved anything.
    PointerWheel { x: u32, y: u32, dy: u32 },
    SetModifiers(KeyModifiers),
    KeyDown { key: UiKey, modifiers: KeyModifiers, repeat: bool },
    TextInput(String),
    /// Draw a frame.
    Draw,
    /// Ask the window for another frame.
    RequestRedraw,
}

/// The value of a [`HostAction`].
#[verifier::ext_equal]
pub enum ActionView {
    Close,
    Resize { width: u32, height: u32 },
    PointerMoved { x: u32, y: u32 },
    PointerLeft,
    PointerDown { x: u32, y: u32, button: PointerButton },
    PointerUp { x: u32, y: u32, button: PointerButton },
    PointerWheel { x: u32, y: u32, dy: u32 },
    SetModifiers(KeyModifiers),
    KeyDown { key: UiKeyView, modifiers: KeyModifiers, repeat: bool },
    TextInput(Seq<char>),
    Draw,
    RequestRedraw,
}

impl View for HostAction {
    type V = ActionView;

    open spec fn view(&self) -> ActionView {
        match *self {
            HostAction::Close => ActionView::Close,
            HostAction::Resize { width, height } => ActionView::Resize { width, height },
            HostAction::PointerMoved { x, y } => ActionView::PointerMoved { x, y },
            HostAction::PointerLeft => ActionView::PointerLeft,
            HostAction::PointerDown { x, y, button } => ActionView::PointerDown { x, y, button },
            HostAction::PointerUp { x, y, button } => ActionView::PointerUp { x, y, button },
            HostAction::PointerWheel { x, y, dy } => ActionView::PointerWheel { x, y, dy },
            HostAction::SetModifiers(modifiers) => ActionView::SetModifiers(modifiers),
            HostAction::KeyDown { key, modifiers, repeat } => ActionView::KeyDown {
                key: key@,
                modifiers,
                repeat,
            },
            HostAction::TextInput(text) => ActionView::TextInput(text@),
            HostAction::Draw => ActionView::Draw,
            HostAction::RequestRedraw => ActionView::RequestRedraw,
        }
    }
}

/// The values of actions.
pub open spec fn action_views(actions: Seq<HostAction>) -> Seq<ActionView> {
    actions.map_values(|a: HostAction| a@)
}

/// What is known of the window.
#[derive(Debug, Clone, Copy)]
pub struct HostState {
    /// Whether the window is there, with its graphics.
    pub open: bool,
    /// Where the pointer is, while it is over the window.
    pub last_pointer: Option<(u32, u32)>,
    pub modifiers: KeyModifiers,
    /// The size of the surface.
    pub width: u32,
    pub height: u32,
    /// When the meters are drawn next.
    pub next_meter_frame: u64,
}

/// A length that a surface can have: at least one.
pub open spec fn at_least_one(n: u32) -> u32 {
    if n == 0 {
        1
    } else {
        n
    }
}

fn positive(n: u32) -> (r: u32)
    ensures
        r == at_least_one(n),
{
    if n == 0 {
        1
    } else {
        n
    }
}

impl HostState {
    /// The state before the window is there.
    pub open spec fn start(now: u64) -> HostState {
        HostState {
            open: false,
            last_pointer: None,
            modifiers: KeyModifiers { shift: false, ctrl: false, alt: false, logo: false },
            width: 1,
            height: 1,
            next_meter_frame: now,
        }
    }

    /// The state once the window is there.
    pub open spec fn opened(self, width: u32, height: u32, now: u64) -> HostState {
        HostState {
            open: true,
            width: at_least_one(width),
            height: at_least_one(height),
            next_meter_frame: (now + METER_FRAME_INTERVAL) as u64,
            ..self
        }
    }

    /// The state after an event of the window.
    pub open spec fn after(self, event: HostEvent) -> HostState {
        match event {
            HostEvent::CloseRequested => HostState { open: false, ..self },
            _ if !self.open => self,
            HostEvent::Resized { width, height } => HostState {
                width: at_least_one(width),
                height: at_least_one(height),
                ..self
            },
            HostEvent::CursorMoved { x, y } => HostState { last_pointer: Some((x, y)), ..self },
            HostEvent::CursorLeft => HostState { last_pointer: None, ..self },
            HostEvent::ModifiersChanged(modifiers) => HostState { modifiers, ..self },
            _ => self,
        }
    }

    /// What is to be done about an event of the window, in this order. Without a window nothing but
    /// closing is; and what the mouse does is lost while the pointer is not over the window.
    pub open spec fn actions(self, event: HostEvent) -> Seq<ActionView> {
        match event {
            HostEvent::CloseRequested => seq![ActionView::Close],
            _ if !self.open => Seq::empty(),
            HostEvent::Resized { width, height } => seq![
                ActionView::Resize { width: at_least_one(width), height: at_least_one(height) },
                ActionView::RequestRedraw,
            ],
            HostEvent::CursorMoved { x, y } => seq![
                ActionView::PointerMoved { x, y },
                ActionView::RequestRedraw,
            ],
            HostEvent::CursorLeft => seq![ActionView::PointerLeft, ActionView::RequestRedraw],
            HostEvent::MouseInput { pressed, button } => match (
                mapped_button(button),
                self.last_pointer,
            ) {
                (Some(button), Some((x, y))) => seq![
                    if pressed {
                        ActionView::PointerDown { x, y, button }
                    } else {
                        ActionView::PointerUp { x, y, button }
                    },
                    ActionView::RequestRedraw,
                ],
                _ => Seq::empty(),
            },
            HostEvent::MouseWheel { dy } => match self.last_pointer {
                Some((x, y)) => seq![ActionView::PointerWheel { x, y, dy }],
                None => Seq::empty(),
            },
            HostEvent::ModifiersChanged(modifiers) => seq![ActionView::SetModifiers(modifiers)],
            HostEvent::KeyPressed { key, repeat, text } => {
                let keys = match mapped_key(key) {
                    Some(key) => seq![
                        ActionView::KeyDown { key, modifiers: self.modifiers, repeat },
                    ],
                    None => Seq::empty(),
                };
                let texts = match text {
                    Some(text) => seq![ActionView::TextInput(text@)],
                    None => Seq::empty(),
                };
                (keys + texts).push(ActionView::RequestRedraw)
            },
            HostEvent::TextCommitted(text) => seq![
                ActionView::TextInput(text@),
                ActionView::RequestRedraw,
            ],
            HostEvent::RedrawRequested => seq![ActionView::Draw],
            HostEvent::Other => Seq::empty(),
        }
    }

    /// The state before the window is there.
    pub fn new(now: u64) -> (r: HostState)
        ensures
            r == HostState::start(now),
    {
        HostState {
            open: false,
            last_pointer: None,
            modifiers: KeyModifiers { shift: false, ctrl: false, alt: false, logo: false },
            width: 1,
            height: 1,
            next_meter_frame: now,
        }
    }

    /// Takes in that the window is to be shown, and says whether it still has to be made. It is
    /// made once.
    pub fn needs_window(&self) -> (r: bool)
        ensures
            r == !self.open,
    {
        !self.open
    }

    /// Takes in that the window is there, at a given size. A frame is to be asked for.
    pub fn on_opened(&mut self, width: u32, height: u32, now: u64)
        requires
            now + METER_FRAME_INTERVAL <= u64::MAX,
        ensures
            *final(self) == old(self).opened(width, height, now),
    {
        self.open = true;
        self.width = positive(width);
        self.height = positive(height);
        self.next_meter_frame = now + METER_FRAME_INTERVAL;
    }

    /// Takes in an event of the window, and says what is to be done about it.
    pub fn on_event(&mut self, event: HostEvent) -> (r: Vec<HostAction>)
        ensures
            *final(self) == old(self).after(event),
            action_views(r@) == old(self).actions(event),
    {
        let mut r: Vec<HostAction> = Vec::new();
        let ghost before = *self;
        if let HostEvent::CloseRequested = event {
            self.open = false;
            r.push(HostAction::Close);
            assert(action_views(r@) =~= before.actions(event));
            return r;
        }
        if !self.open {
            assert(action_views(r@) =~= before.actions(event));
            return r;
        }
        match event {
            HostEvent::CloseRequested => {},
            HostEvent::Resized { width, height } => {
                self.width = positive(width);
                self.height = positive(height);
                r.push(HostAction::Resize { width: self.width, height: self.height });
                r.push(HostAction::RequestRedraw);
            },
            HostEvent::CursorMoved { x, y } => {
                self.last_pointer = Some((x, y));
                r.push(HostAction::PointerMoved { x, y });
                r.push(HostAction::RequestRedraw);
            },
            HostEvent::CursorLeft => {
                self.last_pointer = None;
                r.push(HostAction::PointerLeft);
                r.push(HostAction::RequestRedraw);
            },
            HostEvent::MouseInput { pressed, button } => {
                if let (Some(button), Some((x, y))) = (pointer_button(button), self.last_pointer) {
                    r.push(
                        if pressed {
                            HostAction::PointerDown { x, y, button }
                        } else {
                            HostAction::PointerUp { x, y, button }
                        },
                    );
                    r.push(HostAction::RequestRedraw);
                }
            },
            HostEvent::MouseWheel { dy } => {
                if let Some((x, y)) = self.last_pointer {
                    r.push(HostAction::PointerWheel { x, y, dy });
                }
            },
            HostEvent::ModifiersChanged(modifiers) => {
                self.modifiers = modifiers;
                r.push(HostAction::SetModifiers(modifiers));
            },
            HostEvent::KeyPressed { key, repeat, text } => {
                if let Some(key) = map_key(&key) {
                    r.push(HostAction::KeyDown { key, modifiers: self.modifiers, repeat });
                }
                if let Some(text) = text {
                    r.push(HostAction::TextInput(text));
                }
                r.push(HostAction::RequestRedraw);
            },
            HostEvent::TextCommitted(text) => {
                r.push(HostAction::TextInput(text));
                r.push(HostAction::RequestRedraw);
            },
            HostEvent::RedrawRequested => {
                r.push(HostAction::Draw);
            },
            HostEvent::Other => {},
        }
        assert(action_views(r@) =~= before.actions(event));
        r
    }

    /// Whether the meters are due.
    pub open spec fn is_due(self, now: u64) -> bool {
        self.open && now >= self.next_meter_frame
    }

    /// The state once the events are taken in and the window waits.
    pub open spec fn waiting(self, now: u64) -> HostState {
        if self.is_due(now) {
            HostState { next_meter_frame: (now + METER_FRAME_INTERVAL) as u64, ..self }
        } else {
            self
        }
    }

    /// Takes in that there are no more events. Says whether a frame is to be asked for, and until
    /// when to wait: without a window, until the next event.
    pub fn about_to_wait(&mut self, now: u64) -> (r: (bool, Option<u64>))
        requires
            now + METER_FRAME_INTERVAL <= u64::MAX,
        ensures
            *final(self) == old(self).waiting(now),
            r.0 == old(self).is_due(now),
            r.1 == if old(self).open {
                Some(final(self).next_meter_frame)
            } else {
                None
            },
    {
        if !self.open {
            return (false, None);
        }
        let due = now >= self.next_meter_frame;
        if due {
            self.next_meter_frame = now + METER_FRAME_INTERVAL;
        }
        (due, Some(self.next_meter_frame))
    }
}

/// How the surface answers when a frame is to be drawn.
#[derive(Debug, Clone, Copy, PartialEq, Eq, Structural)]
pub enum SurfaceAnswer {
    Success,
    Suboptimal,
    Lost,
    Outdated,
    Unavailable,
}

/// What to do with a frame.
#[derive(Debug, Clone, Copy, PartialEq, Eq, Structural)]
pub enum FrameStep {
    Draw,
    /// Configure the surface anew, and leave the frame out.
    Reconfigure,
    /// Leave the frame out, and say so.
    Report,
}

/// What to do with a frame, as the surface answers.
pub fn frame_step(answer: SurfaceAnswer) -> (r: FrameStep)
    ensures
        r == match answer {
            SurfaceAnswer::Success | SurfaceAnswer::Suboptimal => FrameStep::Draw,
            SurfaceAnswer::Lost | SurfaceAnswer::Outdated => FrameStep::Reconfigure,
            SurfaceAnswer::Unavailable => FrameStep::Report,
        },
{
    match answer {
        SurfaceAnswer::Success | SurfaceAnswer::Suboptimal => FrameStep::Draw,
        SurfaceAnswer::Lost | SurfaceAnswer::Outdated => FrameStep::Reconfigure,
        SurfaceAnswer::Unavailable => FrameStep::Report,
    }
}

/// Whether `i` is the format to take, where `srgb` says of each format whether it is an sRGB one:
/// the first that is, or else the first of all.
pub open spec fn is_preferred(srgb: Seq<bool>, i: int) -> bool {
    &&& 0 <= i < srgb.len()
    &&& forall|j: int| 0 <= j < i ==> !#[trigger] srgb[j]
    &&& srgb[i] || (i == 0 && forall|j: int| 0 <= j < srgb.len() ==> !#[trigger] srgb[j])
}

/// Finds the format to take.
pub fn preferred_format(srgb: &Vec<bool>) -> (r: usize)
    requires
        srgb@.len() > 0,
    ensures
        is_preferred(srgb@, r as int),
{
    let mut i: usize = 0;
    while i < srgb.len()
        invariant
            i <= srgb@.len(),
            forall|j: int| 0 <= j < i ==> !#[trigger] srgb@[j],
        decreases srgb@.len() - i,
    {
        if srgb[i] {
            return i;
        }
        i += 1;
    }
    0
}

/// A surface never has a side of no length.
pub proof fn lemma_surface_is_never_empty(
    state: HostState,
    event: HostEvent,
    width: u32,
    height: u32,
    now: u64,
)
    requires
        state.width > 0 && state.height > 0,
    ensures
        HostState::start(now).width > 0 && HostState::start(now).height > 0,
        state.opened(width, height, now).width > 0 && state.opened(width, height, now).height > 0,
        state.after(event).width > 0 && state.after(event).height > 0,
        state.waiting(now).width > 0 && state.waiting(now).height > 0,
{
}

/// Frames of the meters are at least an interval apart.
pub proof fn lemma_frames_are_spaced(state: HostState, now: u64, later: u64)
    requires
        state.is_due(now),
        now <= later < now + METER_FRAME_INTERVAL,
        now + METER_FRAME_INTERVAL <= u64::MAX,
    ensures
        !state.waiting(now).is_due(later),
{
}

/// A button of the mouse does nothing while the pointer is not over the window.
pub proof fn lemma_no_click_without_pointer(state: HostState, pressed: bool, button: MouseButton)
    ensures
        ({
            let left = state.after(HostEvent::CursorLeft);
            let event = HostEvent::MouseInput { pressed, button };
            state.open ==> left.actions(event) == Seq::<ActionView>::empty() && left.after(event)
                == left
        }),
{
}

} // verus!
