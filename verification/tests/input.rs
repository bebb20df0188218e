use bg3_debug_tool::input::{
    get_key, Event, InputManager, InputResult, Key, Modifiers, PointerButton, Pos, WM_CHAR, WM_KEYDOWN,
    WM_KEYUP, WM_LBUTTONDOWN, WM_MOUSEHWHEEL, WM_MOUSEMOVE, WM_MOUSEWHEEL, WM_RBUTTONUP, WM_SYSKEYDOWN,
    WM_XBUTTONDOWN,
};

fn lparam(x: i16, y: i16) -> isize {
    ((y as u16 as isize) << 16) | (x as u16 as isize)
}

#[test]
fn results_classify() {
    assert!(InputResult::Key.is_valid());
    assert!(!InputResult::Key.is_unknown());
    assert!(InputResult::Unknown.is_unknown());
    assert!(!InputResult::Unknown.is_valid());
}

#[test]
fn keys_from_virtual_key_codes() {
    assert_eq!(get_key(0x30), Some(Key::Num(0)));
    assert_eq!(get_key(0x39), Some(Key::Num(9)));
    assert_eq!(get_key(0x41), Some(Key::Letter(0)));
    assert_eq!(get_key(0x5A), Some(Key::Letter(25)));
    assert_eq!(get_key(0x70), Some(Key::F(1)));
    assert_eq!(get_key(0x83), Some(Key::F(20)));
    assert_eq!(get_key(0x28), Some(Key::ArrowDown));
    assert_eq!(get_key(0x0D), Some(Key::Enter));
    assert_eq!(get_key(0x1_0028), Some(Key::ArrowDown));
    assert_eq!(get_key(0x84), None);
    assert_eq!(get_key(0x10), None);
}

#[test]
fn mouse_moves_and_buttons() {
    let mut m = InputManager::new();
    assert_eq!(m.process(WM_MOUSEMOVE, 0, lparam(10, -5), false, false), InputResult::MouseMove);
    assert_eq!(m.events, vec![Event::PointerMoved(Pos { x: 10, y: -5 })]);
    assert_eq!(m.modifiers, None);
    assert_eq!(m.process(WM_LBUTTONDOWN, 0x8, lparam(1, 2), false, false), InputResult::MouseLeft);
    assert_eq!(
        m.events[1],
        Event::PointerButton {
            pos: Pos { x: 1, y: 2 },
            button: PointerButton::Primary,
            pressed: true,
            modifiers: Modifiers { alt: false, ctrl: true, shift: false, mac_cmd: false, command: true },
        }
    );
    assert_eq!(m.process(WM_RBUTTONUP, 0x4, lparam(0, 0), false, false), InputResult::MouseRight);
    assert!(matches!(m.events[2], Event::PointerButton { button: PointerButton::Secondary, pressed: false, .. }));
    assert_eq!(m.process(WM_XBUTTONDOWN, 2 << 16, 0, false, false), InputResult::MouseMiddle);
    assert!(matches!(m.events[3], Event::PointerButton { button: PointerButton::Extra2, pressed: true, .. }));
}

#[test]
fn characters_skip_controls() {
    let mut m = InputManager::new();
    assert_eq!(m.process(WM_CHAR, 'é' as usize, 0, false, false), InputResult::Character);
    assert_eq!(m.process(WM_CHAR, 0x08, 0, false, false), InputResult::Character);
    assert_eq!(m.process(WM_CHAR, 0xD800, 0, false, false), InputResult::Character);
    assert_eq!(m.events, vec![Event::Text('é')]);
}

#[test]
fn wheels_scroll_or_zoom() {
    let mut m = InputManager::new();
    assert_eq!(m.process(WM_MOUSEWHEEL, (120 << 16) as usize, 0, false, false), InputResult::Scroll);
    assert_eq!(m.process(WM_MOUSEHWHEEL, ((-120i16 as u16 as usize) << 16) | 0, 0, false, false), InputResult::Scroll);
    assert_eq!(m.process(WM_MOUSEWHEEL, (120 << 16) | 0x8, 0, false, false), InputResult::Zoom);
    assert_eq!(
        m.events,
        vec![
            Event::Scroll { horizontal: false, delta: 120 },
            Event::Scroll { horizontal: true, delta: -120 },
            Event::Zoom { zoom_in: true },
        ]
    );
}

#[test]
fn keys_with_modifiers_and_clipboard() {
    let mut m = InputManager::new();
    assert_eq!(m.process(WM_KEYDOWN, 0x43, 0x4000, true, false), InputResult::Key);
    let ctrl = Modifiers { alt: false, ctrl: true, shift: false, mac_cmd: false, command: true };
    assert_eq!(
        m.events,
        vec![Event::Copy, Event::Key { key: Key::Letter(2), pressed: true, repeat: true, modifiers: ctrl }]
    );
    assert_eq!(m.modifiers, Some(ctrl));
    assert_eq!(m.process(WM_SYSKEYDOWN, 0x58, 0, true, true), InputResult::Key);
    assert_eq!(m.events[2], Event::Cut);
    assert_eq!(m.process(WM_KEYUP, 0x58, 0, false, false), InputResult::Key);
    assert!(matches!(m.events[4], Event::Key { key: Key::Letter(23), pressed: false, repeat: false, .. }));
    // Once modifiers are held, mouse messages replace them.
    m.process(WM_MOUSEMOVE, 0x4, 0, false, false);
    assert_eq!(m.modifiers, Some(Modifiers { alt: false, ctrl: false, shift: true, mac_cmd: false, command: false }));
    assert_eq!(m.process(0x9999, 0, 0, false, false), InputResult::Unknown);
    let (events, mods) = m.take_input();
    assert_eq!(events.len(), 6);
    assert!(m.events.is_empty());
    assert!(mods.shift);
}
