//! Turning the game window's messages into input events for the menu.
use vstd::prelude::*;

verus! {

pub const WM_KEYDOWN: u32 = 0x100;
pub const WM_KEYUP: u32 = 0x101;
pub const WM_CHAR: u32 = 0x102;
pub const WM_SYSKEYDOWN: u32 = 0x104;
pub const WM_SYSKEYUP: u32 = 0x105;
pub const WM_MOUSEMOVE: u32 = 0x200;
pub const WM_LBUTTONDOWN: u32 = 0x201;
pub const WM_LBUTTONUP: u32 = 0x202;
pub const WM_LBUTTONDBLCLK: u32 = 0x203;
pub const WM_RBUTTONDOWN: u32 = 0x204;
pub const WM_RBUTTONUP: u32 = 0x205;
pub const WM_RBUTTONDBLCLK: u32 = 0x206;
pub const WM_MBUTTONDOWN: u32 = 0x207;
pub const WM_MBUTTONUP: u32 = 0x208;
pub const WM_MBUTTONDBLCLK: u32 = 0x209;
pub const WM_MOUSEWHEEL: u32 = 0x20A;
pub const WM_XBUTTONDOWN: u32 = 0x20B;
pub const WM_XBUTTONUP: u32 = 0x20C;
pub const WM_XBUTTONDBLCLK: u32 = 0x20D;
pub const WM_MOUSEHWHEEL: u32 = 0x20E;

/// Mouse message flag: a Ctrl key is down.
pub const MK_CONTROL: usize = 0x8;

/// Mouse message flag: a Shift key is down.
pub const MK_SHIFT: usize = 0x4;

/// Key message flag: the key was already down.
pub const KF_REPEAT: isize = 0x4000;

/// The first extra mouse button.
pub const XBUTTON1: u32 = 1;

/// The second extra mouse button.
pub const XBUTTON2: u32 = 2;

/// What kind of message was processed.
#[derive(Clone, Copy, Debug, PartialEq, Eq)]
pub enum InputResult {
    Unknown,
    MouseMove,
    MouseLeft,
    MouseRight,
    MouseMiddle,
    Character,
    Scroll,
    Zoom,
    Key,
}

impl InputResult {
    /// Whether the message was one of those handled.
    pub fn is_valid(&self) -> (res: bool)
        ensures
            res == !(*self is Unknown),
    {
        !self.is_unknown()
    }

    /// Whether the message was not handled.
    pub fn is_unknown(&self) -> (res: bool)
        ensures
            res == (*self is Unknown),
    {
        matches!(*self, InputResult::Unknown)
    }
}

/// The modifier keys held with an event.
#[derive(Clone, Copy, Debug, PartialEq, Eq, Default)]
pub struct Modifiers {
    pub alt: bool,
    pub ctrl: bool,
    pub shift: bool,
    pub mac_cmd: bool,
    pub command: bool,
}

/// A pointer position in the window, in pixels.
#[derive(Clone, Copy, Debug, PartialEq, Eq)]
pub struct Pos {
    pub x: i16,
    pub y: i16,
}

/// A mouse button.
#[derive(Clone, Copy, Debug, PartialEq, Eq)]
pub enum PointerButton {
    Primary,
    Secondary,
    Middle,
    Extra1,
    Extra2,
}

/// A key the menu reacts to.
#[derive(Clone, Copy, Debug, PartialEq, Eq)]
pub enum Key {
    ArrowDown,
    ArrowLeft,
    ArrowRight,
    ArrowUp,
    Escape,
    Tab,
    Backspace,
    Enter,
    Space,
    Insert,
    Delete,
    Home,
    End,
    PageUp,
    PageDown,
    /// A digit key, `0` to `9`.
    Num(u8),
    /// A letter key, by its index in the alphabet (`0` is `A`).
    Letter(u8),
    /// A function key, `F1` to `F20`.
    F(u8),
}

/// An input event for the menu.
#[derive(Clone, Copy, Debug, PartialEq, Eq)]
pub enum Event {
    PointerMoved(Pos),
    PointerButton { pos: Pos, button: PointerButton, pressed: bool, modifiers: Modifiers },
    /// A typed character.
    Text(char),
    /// Zoom in (by half again) or out (by half).
    Zoom { zoom_in: bool },
    /// A wheel movement by `delta` (in units of a 120th of a notch), vertical
    /// or horizontal.
    Scroll { horizontal: bool, delta: i16 },
    Copy,
    Cut,
    Key { key: Key, pressed: bool, repeat: bool, modifiers: Modifiers },
}

/// The pointer position packed in a mouse message: the low and high 16 bits.
pub open spec fn pos_of(lparam: isize) -> Pos {
    Pos { x: (lparam & 0xFFFF) as i16, y: ((lparam >> 16) & 0xFFFF) as i16 }
}

fn get_pos(lparam: isize) -> (res: Pos)
    ensures
        res == pos_of(lparam),
{
    #[verifier::truncate]
    let x: i16 = (lparam & 0xFFFF) as i16;
    #[verifier::truncate]
    let y: i16 = ((lparam >> 16) & 0xFFFF) as i16;
    Pos { x, y }
}

/// The modifiers reported with a mouse message.
pub open spec fn mouse_modifiers(wparam: usize) -> Modifiers {
    Modifiers {
        alt: false,
        ctrl: wparam & MK_CONTROL != 0,
        shift: wparam & MK_SHIFT != 0,
        mac_cmd: false,
        command: wparam & MK_CONTROL != 0,
    }
}

fn get_mouse_modifiers(wparam: usize) -> (res: Modifiers)
    ensures
        res == mouse_modifiers(wparam),
{
    Modifiers {
        alt: false,
        ctrl: (wparam & MK_CONTROL) != 0,
        shift: (wparam & MK_SHIFT) != 0,
        mac_cmd: false,
        command: (wparam & MK_CONTROL) != 0,
    }
}

/// The modifiers of a key message, given whether Ctrl and the left Shift key
/// are down; Alt is held for system key presses.
pub open spec fn key_modifiers(msg: u32, ctrl: bool, shift: bool) -> Modifiers {
    Modifiers { alt: msg == WM_SYSKEYDOWN, mac_cmd: false, command: ctrl, shift, ctrl }
}

/// The key of a virtual-key code: digits, letters and function keys by their
/// codes, the editing and navigation keys by the low 16 bits of the code.
pub open spec fn key_of(wparam: usize) -> Option<Key> {
    if 0x30 <= wparam <= 0x39 {
        Some(Key::Num((wparam - 0x30) as u8))
    } else if 0x41 <= wparam <= 0x5A {
        Some(Key::Letter((wparam - 0x41) as u8))
    } else if 0x70 <= wparam <= 0x83 {
        Some(Key::F((wparam - 0x6F) as u8))
    } else {
        let vk = wparam as u16;
        if vk == 0x28 {
            Some(Key::ArrowDown)
        } else if vk == 0x25 {
            Some(Key::ArrowLeft)
        } else if vk == 0x27 {
            Some(Key::ArrowRight)
        } else if vk == 0x26 {
            Some(Key::ArrowUp)
        } else if vk == 0x1B {
            Some(Key::Escape)
        } else if vk == 0x09 {
            Some(Key::Tab)
        } else if vk == 0x08 {
            Some(Key::Backspace)
        } else if vk == 0x0D {
            Some(Key::Enter)
        } else if vk == 0x20 {
            Some(Key::Space)
        } else if vk == 0x2D {
            Some(Key::Insert)
        } else if vk == 0x2E {
            Some(Key::Delete)
        } else if vk == 0x24 {
            Some(Key::Home)
        } else if vk == 0x23 {
            Some(Key::End)
        } else if vk == 0x21 {
            Some(Key::PageUp)
        } else if vk == 0x22 {
            Some(Key::PageDown)
        } else {
            None
        }
    }
}

/// The virtual-key codes the menu knows, by their low 16 bits outside the
/// digit, letter and function-key ranges: `VK_LEFT` (25) is the left arrow,
/// `VK_UP` (26) up, `VK_RIGHT` (27) right and `VK_DOWN` (28) down; `VK_ESCAPE`
/// (1B), `VK_TAB` (09), `VK_BACK` (08), `VK_RETURN` (0D), `VK_SPACE` (20),
/// `VK_INSERT` (2D), `VK_DELETE` (2E), `VK_HOME` (24), `VK_END` (23),
/// `VK_PRIOR` (21) and `VK_NEXT` (22) are the keys of those names; `0`–`9`
/// (30–39) are the digits, `A`–`Z` (41–5A) the letters in order and `VK_F1`
/// onwards (70–83) the function keys from F1. No other code is a key.
pub proof fn lemma_virtual_key_table(w: usize)
    ensures
        0x30 <= w <= 0x39 ==> key_of(w) == Some(Key::Num((w - 0x30) as u8)),
        0x41 <= w <= 0x5A ==> key_of(w) == Some(Key::Letter((w - 0x41) as u8)),
        0x70 <= w <= 0x83 ==> key_of(w) == Some(Key::F((w - 0x6F) as u8)),
        !(0x30 <= w <= 0x39 || 0x41 <= w <= 0x5A || 0x70 <= w <= 0x83) ==> {
            let vk = w % 0x10000;
            &&& vk == 0x25 ==> key_of(w) == Some(Key::ArrowLeft)
            &&& vk == 0x26 ==> key_of(w) == Some(Key::ArrowUp)
            &&& vk == 0x27 ==> key_of(w) == Some(Key::ArrowRight)
            &&& vk == 0x28 ==> key_of(w) == Some(Key::ArrowDown)
            &&& vk == 0x1B ==> key_of(w) == Some(Key::Escape)
            &&& vk == 0x09 ==> key_of(w) == Some(Key::Tab)
            &&& vk == 0x08 ==> key_of(w) == Some(Key::Backspace)
            &&& vk == 0x0D ==> key_of(w) == Some(Key::Enter)
            &&& vk == 0x20 ==> key_of(w) == Some(Key::Space)
            &&& vk == 0x2D ==> key_of(w) == Some(Key::Insert)
            &&& vk == 0x2E ==> key_of(w) == Some(Key::Delete)
            &&& vk == 0x24 ==> key_of(w) == Some(Key::Home)
            &&& vk == 0x23 ==> key_of(w) == Some(Key::End)
            &&& vk == 0x21 ==> key_of(w) == Some(Key::PageUp)
            &&& vk == 0x22 ==> key_of(w) == Some(Key::PageDown)
            &&& !(vk == 0x25 || vk == 0x26 || vk == 0x27 || vk == 0x28 || vk == 0x1B || vk == 0x09 || vk == 0x08
                || vk == 0x0D || vk == 0x20 || vk == 0x2D || vk == 0x2E || vk == 0x24 || vk == 0x23 || vk == 0x21
                || vk == 0x22) ==> key_of(w) is None
        },
{
    assert((w as u16) as int == w % 0x10000) by (bit_vector);
}

/// The key of a virtual-key code.
pub fn get_key(wparam: usize) -> (res: Option<Key>)
    ensures
        res == key_of(wparam),
{
    if 0x30 <= wparam && wparam <= 0x39 {
        Some(Key::Num((wparam - 0x30) as u8))
    } else if 0x41 <= wparam && wparam <= 0x5A {
        Some(Key::Letter((wparam - 0x41) as u8))
    } else if 0x70 <= wparam && wparam <= 0x83 {
        Some(Key::F((wparam - 0x6F) as u8))
    } else {
        #[verifier::truncate]
        let vk: u16 = wparam as u16;
        if vk == 0x28 {
            Some(Key::ArrowDown)
        } else if vk == 0x25 {
            Some(Key::ArrowLeft)
        } else if vk == 0x27 {
            Some(Key::ArrowRight)
        } else if vk == 0x26 {
            Some(Key::ArrowUp)
        } else if vk == 0x1B {
            Some(Key::Escape)
        } else if vk == 0x09 {
            Some(Key::Tab)
        } else if vk == 0x08 {
            Some(Key::Backspace)
        } else if vk == 0x0D {
            Some(Key::Enter)
        } else if vk == 0x20 {
            Some(Key::Space)
        } else if vk == 0x2D {
            Some(Key::Insert)
        } else if vk == 0x2E {
            Some(Key::Delete)
        } else if vk == 0x24 {
            Some(Key::Home)
        } else if vk == 0x23 {
            Some(Key::End)
        } else if vk == 0x21 {
            Some(Key::PageUp)
        } else if vk == 0x22 {
            Some(Key::PageDown)
        } else {
            None
        }
    }
}

/// The extra-button bits in the high word of an extra-button message.
pub open spec fn xbuttons(wparam: usize) -> u32 {
    ((wparam as u32) >> 16u32) & 3
}

/// Which extra button a message is about: the first if its bit is set, else
/// the second.
pub open spec fn xbutton_of(wparam: usize) -> PointerButton {
    if ((wparam as u32) >> 16u32) & XBUTTON1 != 0 {
        PointerButton::Extra1
    } else {
        PointerButton::Extra2
    }
}

/// Whether `u` is the code of a character: not a surrogate, at most U+10FFFF.
pub open spec fn is_char_code(u: u32) -> bool {
    u < 0xD800 || (0xE000 <= u && u <= 0x10FFFF)
}

/// `char::from_u32`: the character with code `u`, if `u` is one.
#[verifier::external_body]
pub(crate) fn char_from_u32(u: u32) -> (res: Option<char>)
    ensures
        res is Some <==> is_char_code(u),
        res matches Some(c) ==> c == u as char,
{
    char::from_u32(u)
}

/// Whether the character with code `u` is a control character
/// (`char::is_control`: the categories C0 and C1).
pub open spec fn is_control_code(u: u32) -> bool {
    u < 0x20 || (0x7F <= u && u < 0xA0)
}

/// The button and press of a mouse-button message.
pub open spec fn button_of(msg: u32, wparam: usize) -> Option<(PointerButton, bool)> {
    if msg == WM_LBUTTONDOWN || msg == WM_LBUTTONDBLCLK {
        Some((PointerButton::Primary, true))
    } else if msg == WM_LBUTTONUP {
        Some((PointerButton::Primary, false))
    } else if msg == WM_RBUTTONDOWN || msg == WM_RBUTTONDBLCLK {
        Some((PointerButton::Secondary, true))
    } else if msg == WM_RBUTTONUP {
        Some((PointerButton::Secondary, false))
    } else if msg == WM_MBUTTONDOWN || msg == WM_MBUTTONDBLCLK {
        Some((PointerButton::Middle, true))
    } else if msg == WM_MBUTTONUP {
        Some((PointerButton::Middle, false))
    } else if msg == WM_XBUTTONDOWN || msg == WM_XBUTTONDBLCLK {
        Some((xbutton_of(wparam), true))
    } else if msg == WM_XBUTTONUP {
        Some((xbutton_of(wparam), false))
    } else {
        None
    }
}

/// The mouse-button messages by their Win32 numbers: 201/203/202 press,
/// double-click and release the left (primary) button, 204/206/205 the right
/// (secondary) one, 207/209/208 the middle one, and 20B/20D/20C an extra
/// button, the first when bit 16 of `wparam` is set and the second otherwise;
/// no other message is about a button.
pub proof fn lemma_button_messages(msg: u32, wparam: usize)
    ensures
        msg == 0x201 || msg == 0x203 ==> button_of(msg, wparam) == Some((PointerButton::Primary, true)),
        msg == 0x202 ==> button_of(msg, wparam) == Some((PointerButton::Primary, false)),
        msg == 0x204 || msg == 0x206 ==> button_of(msg, wparam) == Some((PointerButton::Secondary, true)),
        msg == 0x205 ==> button_of(msg, wparam) == Some((PointerButton::Secondary, false)),
        msg == 0x207 || msg == 0x209 ==> button_of(msg, wparam) == Some((PointerButton::Middle, true)),
        msg == 0x208 ==> button_of(msg, wparam) == Some((PointerButton::Middle, false)),
        msg == 0x20B || msg == 0x20D ==> button_of(msg, wparam) == Some(
            (if (wparam / 0x10000) % 2 == 1 { PointerButton::Extra1 } else { PointerButton::Extra2 }, true),
        ),
        msg == 0x20C ==> button_of(msg, wparam) == Some(
            (if (wparam / 0x10000) % 2 == 1 { PointerButton::Extra1 } else { PointerButton::Extra2 }, false),
        ),
        !(0x201 <= msg <= 0x209 || 0x20B <= msg <= 0x20D) ==> button_of(msg, wparam) is None,
{
    assert((((wparam as u32) >> 16u32) & 1u32 != 0) == ((wparam / 0x10000) % 2 == 1)) by (bit_vector);
}

/// The kind of a message.
pub open spec fn result_of(msg: u32) -> InputResult {
    if msg == WM_MOUSEMOVE {
        InputResult::MouseMove
    } else if msg == WM_LBUTTONDOWN || msg == WM_LBUTTONDBLCLK || msg == WM_LBUTTONUP {
        InputResult::MouseLeft
    } else if msg == WM_RBUTTONDOWN || msg == WM_RBUTTONDBLCLK || msg == WM_RBUTTONUP {
        InputResult::MouseRight
    } else if msg == WM_MBUTTONDOWN || msg == WM_MBUTTONDBLCLK || msg == WM_MBUTTONUP || msg
        == WM_XBUTTONDOWN || msg == WM_XBUTTONDBLCLK || msg == WM_XBUTTONUP {
        InputResult::MouseMiddle
    } else if msg == WM_CHAR {
        InputResult::Character
    } else if msg == WM_KEYDOWN || msg == WM_SYSKEYDOWN || msg == WM_KEYUP || msg == WM_SYSKEYUP {
        InputResult::Key
    } else {
        InputResult::Unknown
    }
}

/// Whether the message is a mouse message whose modifiers replace the held
/// ones.
pub open spec fn is_mouse_message(msg: u32) -> bool {
    msg == WM_MOUSEMOVE || button_of(msg, 0) is Some || msg == WM_MOUSEWHEEL || msg == WM_MOUSEHWHEEL
}

/// The events that a message produces. `ctrl` and `shift` tell whether Ctrl
/// and the left Shift key are down, for key messages.
pub open spec fn events_of(msg: u32, wparam: usize, lparam: isize, ctrl: bool, shift: bool) -> Seq<Event> {
    if msg == WM_MOUSEMOVE {
        seq![Event::PointerMoved(pos_of(lparam))]
    } else if button_of(msg, wparam) is Some {
        let (button, pressed) = button_of(msg, wparam)->0;
        seq![
            Event::PointerButton {
                pos: pos_of(lparam),
                button,
                pressed,
                modifiers: mouse_modifiers(wparam),
            },
        ]
    } else if msg == WM_CHAR {
        let u = wparam as u32;
        if is_char_code(u) && !is_control_code(u) {
            seq![Event::Text(u as char)]
        } else {
            Seq::empty()
        }
    } else if msg == WM_MOUSEWHEEL || msg == WM_MOUSEHWHEEL {
        let delta = (wparam >> 16usize) as i16;
        if wparam & MK_CONTROL != 0 {
            seq![Event::Zoom { zoom_in: delta > 0 }]
        } else {
            seq![Event::Scroll { horizontal: msg == WM_MOUSEHWHEEL, delta }]
        }
    } else if msg == WM_KEYDOWN || msg == WM_SYSKEYDOWN {
        let m = key_modifiers(msg, ctrl, shift);
        match key_of(wparam) {
            Some(key) => {
                let copy: Seq<Event> = if key == Key::Letter(2) && m.ctrl {
                    seq![Event::Copy]
                } else {
                    Seq::empty()
                };
                let cut: Seq<Event> = if key == Key::Letter(23) && m.ctrl {
                    seq![Event::Cut]
                } else {
                    Seq::empty()
                };
                copy + cut + seq![Event::Key { key, pressed: true, repeat: lparam & KF_REPEAT > 0, modifiers: m }]
            },
            None => Seq::empty(),
        }
    } else if msg == WM_KEYUP || msg == WM_SYSKEYUP {
        match key_of(wparam) {
            Some(key) => seq![
                Event::Key { key, pressed: false, repeat: false, modifiers: key_modifiers(msg, ctrl, shift) },
            ],
            None => Seq::empty(),
        }
    } else {
        Seq::empty()
    }
}

/// The held modifiers after a message: mouse messages update them once some
/// are held; key messages set them.
pub open spec fn modifiers_after(
    held: Option<Modifiers>,
    msg: u32,
    wparam: usize,
    ctrl: bool,
    shift: bool,
) -> Option<Modifiers> {
    if msg == WM_KEYDOWN || msg == WM_SYSKEYDOWN || msg == WM_KEYUP || msg == WM_SYSKEYUP {
        Some(key_modifiers(msg, ctrl, shift))
    } else if is_mouse_message(msg) && held is Some {
        Some(mouse_modifiers(wparam))
    } else {
        held
    }
}

/// The events gathered since the last frame and the modifiers held.
#[derive(Debug)]
pub struct InputManager {
    pub events: Vec<Event>,
    pub modifiers: Option<Modifiers>,
}

impl InputManager {
    /// No events, no modifiers known.
    pub fn new() -> (res: InputManager)
        ensures
            res.events@ == Seq::<Event>::empty(),
            res.modifiers is None,
    {
        InputManager { events: Vec::new(), modifiers: None }
    }

    fn alter_modifiers(&mut self, new: Modifiers)
        ensures
            final(self).events@ == old(self).events@,
            final(self).modifiers == if old(self).modifiers is Some {
                Some(new)
            } else {
                None
            },
    {
        if self.modifiers.is_some() {
            self.modifiers = Some(new);
        }
    }

    /// Takes a window message: records the events it produces, updates the
    /// held modifiers and says what kind of message it was. `ctrl` and `shift`
    /// tell whether Ctrl and the left Shift key are down. An extra-button
    /// message names one of the two extra buttons.
    pub fn process(&mut self, umsg: u32, wparam: usize, lparam: isize, ctrl: bool, shift: bool) -> (res:
        InputResult)
        requires
            (umsg == WM_XBUTTONDOWN || umsg == WM_XBUTTONDBLCLK || umsg == WM_XBUTTONUP) ==> xbuttons(wparam)
                != 0,
        ensures
            (umsg == WM_MOUSEWHEEL || umsg == WM_MOUSEHWHEEL) ==> res == if wparam & MK_CONTROL != 0 {
                InputResult::Zoom
            } else {
                InputResult::Scroll
            },
            !(umsg == WM_MOUSEWHEEL || umsg == WM_MOUSEHWHEEL) ==> res == result_of(umsg),
            final(self).events@ == old(self).events@ + events_of(umsg, wparam, lparam, ctrl, shift),
            final(self).modifiers == modifiers_after(old(self).modifiers, umsg, wparam, ctrl, shift),
    {
        if umsg == WM_MOUSEMOVE {
            self.alter_modifiers(get_mouse_modifiers(wparam));
            self.events.push(Event::PointerMoved(get_pos(lparam)));
            return InputResult::MouseMove;
        }
        let button = if umsg == WM_LBUTTONDOWN || umsg == WM_LBUTTONDBLCLK {
            Some((PointerButton::Primary, true))
        } else if umsg == WM_LBUTTONUP {
            Some((PointerButton::Primary, false))
        } else if umsg == WM_RBUTTONDOWN || umsg == WM_RBUTTONDBLCLK {
            Some((PointerButton::Secondary, true))
        } else if umsg == WM_RBUTTONUP {
            Some((PointerButton::Secondary, false))
        } else if umsg == WM_MBUTTONDOWN || umsg == WM_MBUTTONDBLCLK {
            Some((PointerButton::Middle, true))
        } else if umsg == WM_MBUTTONUP {
            Some((PointerButton::Middle, false))
        } else if umsg == WM_XBUTTONDOWN || umsg == WM_XBUTTONDBLCLK || umsg == WM_XBUTTONUP {
            #[verifier::truncate]
            let w: u32 = wparam as u32;
            let b = if (w >> 16u32) & XBUTTON1 != 0 {
                PointerButton::Extra1
            } else {
                PointerButton::Extra2
            };
            Some((b, umsg != WM_XBUTTONUP))
        } else {
            None
        };
        if let Some((button, pressed)) = button {
            let modifiers = get_mouse_modifiers(wparam);
            self.alter_modifiers(modifiers);
            self.events.push(Event::PointerButton { pos: get_pos(lparam), button, pressed, modifiers });
            return if umsg == WM_LBUTTONDOWN || umsg == WM_LBUTTONDBLCLK || umsg == WM_LBUTTONUP {
                InputResult::MouseLeft
            } else if umsg == WM_RBUTTONDOWN || umsg == WM_RBUTTONDBLCLK || umsg == WM_RBUTTONUP {
                InputResult::MouseRight
            } else {
                InputResult::MouseMiddle
            };
        }
        if umsg == WM_CHAR {
            #[verifier::truncate]
            let u: u32 = wparam as u32;
            if let Some(ch) = char_from_u32(u) {
                if !(u < 0x20 || (0x7F <= u && u < 0xA0)) {
                    self.events.push(Event::Text(ch));
                }
            }
            return InputResult::Character;
        }
        if umsg == WM_MOUSEWHEEL || umsg == WM_MOUSEHWHEEL {
            self.alter_modifiers(get_mouse_modifiers(wparam));
            #[verifier::truncate]
            let delta: i16 = (wparam >> 16usize) as i16;
            if wparam & MK_CONTROL != 0 {
                self.events.push(Event::Zoom { zoom_in: delta > 0 });
                return InputResult::Zoom;
            } else {
                self.events.push(Event::Scroll { horizontal: umsg == WM_MOUSEHWHEEL, delta });
                return InputResult::Scroll;
            }
        }
        if umsg == WM_KEYDOWN || umsg == WM_SYSKEYDOWN {
            let modifiers = Modifiers { alt: umsg == WM_SYSKEYDOWN, mac_cmd: false, command: ctrl, shift, ctrl };
            self.modifiers = Some(modifiers);
            if let Some(key) = get_key(wparam) {
                if matches!(key, Key::Letter(2)) && modifiers.ctrl {
                    self.events.push(Event::Copy);
                }
                if matches!(key, Key::Letter(23)) && modifiers.ctrl {
                    self.events.push(Event::Cut);
                }
                self.events.push(Event::Key { key, pressed: true, repeat: lparam & KF_REPEAT > 0, modifiers });
            }
            return InputResult::Key;
        }
        if umsg == WM_KEYUP || umsg == WM_SYSKEYUP {
            let modifiers = Modifiers { alt: umsg == WM_SYSKEYDOWN, mac_cmd: false, command: ctrl, shift, ctrl };
            self.modifiers = Some(modifiers);
            if let Some(key) = get_key(wparam) {
                self.events.push(Event::Key { key, pressed: false, repeat: false, modifiers });
            }
            return InputResult::Key;
        }
        InputResult::Unknown
    }

    /// The events gathered since the last frame, which are cleared, and the
    /// held modifiers (none held counts as no modifier down).
    pub fn take_input(&mut self) -> (res: (Vec<Event>, Modifiers))
        ensures
            res.0@ == old(self).events@,
            res.1 == match old(self).modifiers {
                Some(m) => m,
                None => Modifiers { alt: false, ctrl: false, shift: false, mac_cmd: false, command: false },
            },
            final(self).events@ == Seq::<Event>::empty(),
            final(self).modifiers == old(self).modifiers,
    {
        let mut events: Vec<Event> = Vec::new();
        std::mem::swap(&mut events, &mut self.events);
        let modifiers = match self.modifiers {
            Some(m) => m,
            None => Modifiers { alt: false, ctrl: false, shift: false, mac_cmd: false, command: false },
        };
        (events, modifiers)
    }
}

} // verus!
