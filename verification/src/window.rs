//! What a window reports: keys, buttons and sizes, as they are read from
//! what the display server sends.

use vstd::prelude::*;

verus! {

/// The button code of the left mouse button.
pub const BTN_LEFT: u32 = 0x110;

/// The button code of the right mouse button.
pub const BTN_RIGHT: u32 = 0x111;

/// The button code of the middle mouse button.
pub const BTN_MIDDLE: u32 = 0x112;

/// The button code of the side button.
pub const BTN_SIDE: u32 = 0x113;

/// The button code of the extra button.
pub const BTN_EXTRA: u32 = 0x114;

/// The button code of the forward button.
pub const BTN_FORWARD: u32 = 0x115;

/// The button code of the back button.
pub const BTN_BACK: u32 = 0x116;

/// How far the key codes of the keymap lie above those of the seat.
pub const KEYCODE_OFFSET: u32 = 8;

/// A key of the keyboard.
#[derive(Clone, Copy, PartialEq, Eq, Structural, Debug)]
pub enum Key {
    A,
    B,
    C,
    D,
    E,
    F,
    G,
    H,
    I,
    J,
    K,
    L,
    M,
    N,
    O,
    P,
    Q,
    R,
    S,
    T,
    U,
    V,
    W,
    X,
    Y,
    Z,
    Space,
    ShiftL,
    ShiftR,
    Leftarrow,
    Uparrow,
    Rightarrow,
    Downarrow,
    Unknown,
}

/// Whether a key went down or came up.
#[derive(Clone, Copy, PartialEq, Eq, Structural, Debug)]
pub enum KeyState {
    Pressed,
    Released,
}

/// A button of the mouse.
#[derive(Clone, Copy, PartialEq, Eq, Structural, Debug)]
pub enum MouseKey {
    Left,
    Right,
    Middle,
    Side,
    Extra,
    Forward,
    Back,
}

/// Whether a button went down or came up.
#[derive(Clone, Copy, PartialEq, Eq, Structural, Debug)]
pub enum ButtonState {
    Pressed,
    Released,
}

/// What a window tells its owner.
#[allow(inconsistent_fields)]
#[derive(Clone, Copy, PartialEq, Eq, Structural, Debug)]
pub enum WindowEvent {
    Close,
    Key { key: Key, state: KeyState },
    Mouse { key: MouseKey, state: ButtonState },
    Draw,
}

/// The `index`-th letter key, counted from 0 for `A`.
pub open spec fn letter(index: int) -> Key {
    if index == 0 {
        Key::A
    } else if index == 1 {
        Key::B
    } else if index == 2 {
        Key::C
    } else if index == 3 {
        Key::D
    } else if index == 4 {
        Key::E
    } else if index == 5 {
        Key::F
    } else if index == 6 {
        Key::G
    } else if index == 7 {
        Key::H
    } else if index == 8 {
        Key::I
    } else if index == 9 {
        Key::J
    } else if index == 10 {
        Key::K
    } else if index == 11 {
        Key::L
    } else if index == 12 {
        Key::M
    } else if index == 13 {
        Key::N
    } else if index == 14 {
        Key::O
    } else if index == 15 {
        Key::P
    } else if index == 16 {
        Key::Q
    } else if index == 17 {
        Key::R
    } else if index == 18 {
        Key::S
    } else if index == 19 {
        Key::T
    } else if index == 20 {
        Key::U
    } else if index == 21 {
        Key::V
    } else if index == 22 {
        Key::W
    } else if index == 23 {
        Key::X
    } else if index == 24 {
        Key::Y
    } else {
        Key::Z
    }
}

/// The key that a key symbol stands for: a Latin letter in either case is
/// its letter key; the space, the two shift keys and the four arrow symbols
/// are their keys; every other symbol is unknown.
pub open spec fn key_for(raw_key: u32) -> Key {
    if 0x41 <= raw_key <= 0x5a {
        letter(raw_key - 0x41)
    } else if 0x61 <= raw_key <= 0x7a {
        letter(raw_key - 0x61)
    } else if raw_key == 0x20 {
        Key::Space
    } else if raw_key == 0xffe1 {
        Key::ShiftL
    } else if raw_key == 0xffe2 {
        Key::ShiftR
    } else if raw_key == 0x8fb {
        Key::Leftarrow
    } else if raw_key == 0x8fc {
        Key::Uparrow
    } else if raw_key == 0x8fd {
        Key::Rightarrow
    } else if raw_key == 0x8fe {
        Key::Downarrow
    } else {
        Key::Unknown
    }
}

/// The mouse button that a button code stands for, if it is one of the
/// seven that are reported.
pub open spec fn button_for(button: u32) -> Option<MouseKey> {
    if button == BTN_LEFT {
        Some(MouseKey::Left)
    } else if button == BTN_RIGHT {
        Some(MouseKey::Right)
    } else if button == BTN_MIDDLE {
        Some(MouseKey::Middle)
    } else if button == BTN_SIDE {
        Some(MouseKey::Side)
    } else if button == BTN_EXTRA {
        Some(MouseKey::Extra)
    } else if button == BTN_FORWARD {
        Some(MouseKey::Forward)
    } else if button == BTN_BACK {
        Some(MouseKey::Back)
    } else {
        None
    }
}

/// The key that the key symbol `raw_key` stands for.
pub fn convert_key(raw_key: u32) -> (key: Key)
    ensures
        key == key_for(raw_key),
{
    match raw_key {
        0x41 | 0x61 => Key::A,
        0x42 | 0x62 => Key::B,
        0x43 | 0x63 => Key::C,
        0x44 | 0x64 => Key::D,
        0x45 | 0x65 => Key::E,
        0x46 | 0x66 => Key::F,
        0x47 | 0x67 => Key::G,
        0x48 | 0x68 => Key::H,
        0x49 | 0x69 => Key::I,
        0x4a | 0x6a => Key::J,
        0x4b | 0x6b => Key::K,
        0x4c | 0x6c => Key::L,
        0x4d | 0x6d => Key::M,
        0x4e | 0x6e => Key::N,
        0x4f | 0x6f => Key::O,
        0x50 | 0x70 => Key::P,
        0x51 | 0x71 => Key::Q,
        0x52 | 0x72 => Key::R,
        0x53 | 0x73 => Key::S,
        0x54 | 0x74 => Key::T,
        0x55 | 0x75 => Key::U,
        0x56 | 0x76 => Key::V,
        0x57 | 0x77 => Key::W,
        0x58 | 0x78 => Key::X,
        0x59 | 0x79 => Key::Y,
        0x5a | 0x7a => Key::Z,
        0x20 => Key::Space,
        0xffe1 => Key::ShiftL,
        0xffe2 => Key::ShiftR,
        0x8fb => Key::Leftarrow,
        0x8fc => Key::Uparrow,
        0x8fd => Key::Rightarrow,
        0x8fe => Key::Downarrow,
        _ => Key::Unknown,
    }
}

/// The key code to look up in the keymap for the key code `key` of the
/// seat; `None` where there is none that large.
pub fn keymap_code(key: u32) -> (code: Option<u32>)
    ensures
        code == if key + KEYCODE_OFFSET <= u32::MAX {
            Some((key + KEYCODE_OFFSET) as u32)
        } else {
            None
        },
{
    key.checked_add(KEYCODE_OFFSET)
}

/// The event for a key whose symbol is `keysym`.
pub fn key_event(keysym: u32, state: KeyState) -> (event: WindowEvent)
    ensures
        event == (WindowEvent::Key { key: key_for(keysym), state }),
{
    WindowEvent::Key { key: convert_key(keysym), state }
}

/// The event for a mouse button, if the button is one that is reported. A
/// button that is not pressed counts as released.
pub fn button_event(button: u32, pressed: bool) -> (event: Option<WindowEvent>)
    ensures
        event == match button_for(button) {
            Some(key) => Some(
                WindowEvent::Mouse {
                    key,
                    state: if pressed {
                        ButtonState::Pressed
                    } else {
                        ButtonState::Released
                    },
                },
            ),
            None => None,
        },
{
    let state = if pressed {
        ButtonState::Pressed
    } else {
        ButtonState::Released
    };
    let key = if button == BTN_LEFT {
        MouseKey::Left
    } else if button == BTN_RIGHT {
        MouseKey::Right
    } else if button == BTN_MIDDLE {
        MouseKey::Middle
    } else if button == BTN_SIDE {
        MouseKey::Side
    } else if button == BTN_EXTRA {
        MouseKey::Extra
    } else if button == BTN_FORWARD {
        MouseKey::Forward
    } else if button == BTN_BACK {
        MouseKey::Back
    } else {
        return None;
    };
    Some(WindowEvent::Mouse { key, state })
}

/// What is known of a window between events.
#[derive(Clone, Copy, PartialEq, Eq, Structural, Debug)]
pub struct WindowState {
    pub running: bool,
    pub width: u32,
    pub height: u32,
    pub configured: bool,
}

impl WindowState {
    /// The state of a window that was just asked for, of the size asked
    /// for.
    pub fn new(width: u32, height: u32) -> (state: WindowState)
        ensures
            state == (WindowState { running: true, width, height, configured: false }),
    {
        WindowState { running: true, width, height, configured: false }
    }

    /// The width of the window.
    pub fn width(&self) -> (width: u32)
        ensures
            width == self.width,
    {
        self.width
    }

    /// The height of the window.
    pub fn height(&self) -> (height: u32)
        ensures
            height == self.height,
    {
        self.height
    }

    /// The display server has sized the window, or bounded its size: the
    /// state takes the size, each side reinterpreted as unsigned.
    pub fn resized(&mut self, width: i32, height: i32)
        ensures
            *final(self) == (WindowState {
                width: width as u32,
                height: height as u32,
                ..*old(self)
            }),
    {
        self.width = width as u32;
        self.height = height as u32;
    }

    /// The display server has configured the surface; returns whether a
    /// buffer is to be attached and committed, which is when there is one.
    pub fn surface_configured(&mut self, has_buffer: bool) -> (attach: bool)
        ensures
            attach == has_buffer,
            *final(self) == (WindowState { configured: true, ..*old(self) }),
    {
        self.configured = true;
        has_buffer
    }

    /// Stop the event loop after the events that are pending.
    pub fn close(&mut self)
        ensures
            *final(self) == (WindowState { running: false, ..*old(self) }),
    {
        self.running = false;
    }

    /// What one turn of the event loop hands to the owner, given the
    /// events that arrived: those events in order, then a request to draw.
    /// `None` once the window is closed: the loop ends.
    pub fn poll(&self, arrived: Vec<WindowEvent>) -> (events: Option<Vec<WindowEvent>>)
        ensures
            events is Some <==> self.running,
            events matches Some(handed) ==> handed@ == arrived@.push(WindowEvent::Draw),
    {
        if self.running {
            let mut events = arrived;
            events.push(WindowEvent::Draw);
            Some(events)
        } else {
            None
        }
    }
}

} // verus!
