use damascene_volume::artifacts::{artifact_basename, find_tab, parse_tab, requested_tabs};
use damascene_volume::host::{
    frame_step, map_key, pointer_button, preferred_format, FrameStep, HostAction, HostEvent,
    HostState, KeyModifiers, MouseButton, PointerButton, SurfaceAnswer, UiKey, WindowKey,
    METER_FRAME_INTERVAL,
};
use damascene_volume::model::Tab;

fn opened() -> HostState {
    let mut state = HostState::new(0);
    assert!(state.needs_window());
    state.on_opened(960, 1080, 1000);
    assert!(!state.needs_window());
    state
}

fn names(actions: &[HostAction]) -> Vec<String> {
    actions.iter().map(|a| format!("{a:?}")).collect()
}

#[test]
fn nothing_happens_without_a_window() {
    let mut state = HostState::new(0);
    assert!(state.on_event(HostEvent::CursorMoved { x: 1, y: 2 }).is_empty());
    assert_eq!(state.last_pointer, None);
    assert_eq!(state.about_to_wait(5), (false, None));
    assert!(matches!(
        state.on_event(HostEvent::CloseRequested)[..],
        [HostAction::Close]
    ));
}

#[test]
fn sizes_are_at_least_one() {
    let mut state = opened();
    assert_eq!((state.width, state.height), (960, 1080));
    let actions = state.on_event(HostEvent::Resized { width: 0, height: 7 });
    assert_eq!(
        names(&actions),
        vec!["Resize { width: 1, height: 7 }", "RequestRedraw"]
    );
    assert_eq!((state.width, state.height), (1, 7));
}

#[test]
fn buttons_need_a_pointer() {
    let mut state = opened();
    let press = HostEvent::MouseInput {
        pressed: true,
        button: MouseButton::Left,
    };
    assert!(state.on_event(press.clone()).is_empty());
    assert!(state.on_event(HostEvent::MouseWheel { dy: 3 }).is_empty());
    state.on_event(HostEvent::CursorMoved { x: 1, y: 2 });
    assert_eq!(
        names(&state.on_event(press.clone())),
        vec!["PointerDown { x: 1, y: 2, button: Primary }", "RequestRedraw"]
    );
    let release = HostEvent::MouseInput {
        pressed: false,
        button: MouseButton::Right,
    };
    assert_eq!(
        names(&state.on_event(release)),
        vec!["PointerUp { x: 1, y: 2, button: Secondary }", "RequestRedraw"]
    );
    let other = HostEvent::MouseInput {
        pressed: true,
        button: MouseButton::Other,
    };
    assert!(state.on_event(other).is_empty());
    assert_eq!(
        names(&state.on_event(HostEvent::MouseWheel { dy: 3 })),
        vec!["PointerWheel { x: 1, y: 2, dy: 3 }"]
    );
    assert_eq!(
        names(&state.on_event(HostEvent::CursorLeft)),
        vec!["PointerLeft", "RequestRedraw"]
    );
    assert!(state.on_event(press).is_empty());
}

#[test]
fn keys_carry_the_modifiers() {
    let mut state = opened();
    let modifiers = KeyModifiers {
        shift: true,
        ctrl: false,
        alt: false,
        logo: false,
    };
    assert_eq!(state.on_event(HostEvent::ModifiersChanged(modifiers)).len(), 1);
    let actions = state.on_event(HostEvent::KeyPressed {
        key: WindowKey::Character("a".into()),
        repeat: true,
        text: Some("A".into()),
    });
    match &actions[..] {
        [HostAction::KeyDown {
            key: UiKey::Character(c),
            modifiers: held,
            repeat,
        }, HostAction::TextInput(text), HostAction::RequestRedraw] => {
            assert_eq!((c.as_str(), *repeat, text.as_str()), ("a", true, "A"));
            assert_eq!(*held, modifiers);
        }
        other => panic!("{other:?}"),
    }
    let actions = state.on_event(HostEvent::KeyPressed {
        key: WindowKey::Unknown,
        repeat: false,
        text: None,
    });
    assert!(matches!(actions[..], [HostAction::RequestRedraw]));
    let actions = state.on_event(HostEvent::TextCommitted("ü".into()));
    assert!(matches!(&actions[..], [HostAction::TextInput(t), HostAction::RequestRedraw] if t == "ü"));
    assert!(matches!(state.on_event(HostEvent::RedrawRequested)[..], [HostAction::Draw]));
    assert!(state.on_event(HostEvent::Other).is_empty());
}

#[test]
fn meter_frames_keep_their_interval() {
    let mut state = opened();
    let first = 1000 + METER_FRAME_INTERVAL;
    assert_eq!(state.about_to_wait(first - 1), (false, Some(first)));
    assert_eq!(
        state.about_to_wait(first + 5),
        (true, Some(first + 5 + METER_FRAME_INTERVAL))
    );
    assert_eq!(
        state.about_to_wait(first + 6),
        (false, Some(first + 5 + METER_FRAME_INTERVAL))
    );
}

#[test]
fn keys_and_buttons_are_mapped() {
    let named = |name: &str| format!("{:?}", map_key(&WindowKey::Named(name.into())).unwrap());
    for name in [
        "Enter", "Escape", "Tab", "Space", "ArrowUp", "ArrowDown", "ArrowLeft", "ArrowRight",
        "Backspace", "Delete", "Home", "End",
    ] {
        assert_eq!(named(name), name);
    }
    assert_eq!(named("F5"), "Other(\"F5\")");
    assert!(map_key(&WindowKey::Unknown).is_none());
    assert_eq!(pointer_button(MouseButton::Middle), Some(PointerButton::Middle));
    assert_eq!(pointer_button(MouseButton::Other), None);
}

#[test]
fn surfaces_are_drawn_or_configured() {
    assert_eq!(frame_step(SurfaceAnswer::Success), FrameStep::Draw);
    assert_eq!(frame_step(SurfaceAnswer::Suboptimal), FrameStep::Draw);
    assert_eq!(frame_step(SurfaceAnswer::Lost), FrameStep::Reconfigure);
    assert_eq!(frame_step(SurfaceAnswer::Outdated), FrameStep::Reconfigure);
    assert_eq!(frame_step(SurfaceAnswer::Unavailable), FrameStep::Report);
    assert_eq!(preferred_format(&vec![false, true, true]), 1);
    assert_eq!(preferred_format(&vec![false, false]), 0);
}

#[test]
fn tabs_are_asked_for_by_name() {
    assert_eq!(parse_tab("playback"), Some(Tab::Playback));
    assert_eq!(parse_tab("OUTPUTS"), Some(Tab::Outputs));
    assert_eq!(parse_tab("Output Devices"), Some(Tab::Outputs));
    assert_eq!(parse_tab("input devices"), Some(Tab::Inputs));
    assert_eq!(parse_tab("tab_inputs"), Some(Tab::Inputs));
    // The case of the file name is ignored by the rules of Unicode: here the Kelvin sign.
    assert_eq!(parse_tab("TAB_PLAYBACK"), Some(Tab::Playback));
    assert_eq!(parse_tab("tab_playbac\u{212a}"), Some(Tab::Playback));
    assert_eq!(parse_tab("playbac\u{212a}"), None);
    assert_eq!(parse_tab("nowhere"), None);
    assert_eq!(artifact_basename(Tab::Configuration), "tab_configuration");
    assert_eq!(find_tab("x", "tab_recording"), Some(Tab::Recording));
    assert_eq!(find_tab("tab_recording", "x"), None);
}

#[test]
fn all_tabs_are_rendered_unless_some_are_named() {
    assert_eq!(requested_tabs(&vec![]), Ok(Tab::ALL.to_vec()));
    let args = vec!["inputs".to_string(), "Playback".to_string()];
    assert_eq!(requested_tabs(&args), Ok(vec![Tab::Inputs, Tab::Playback]));
    let args = vec!["inputs".to_string(), "bogus".to_string()];
    assert_eq!(requested_tabs(&args), Err(1));
}
