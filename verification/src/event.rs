use orbclient::EventOption;
use vstd::prelude::*;

verus! {

pub const EVENT_NONE: i64 = 0;
pub const EVENT_KEY: i64 = 1;
pub const EVENT_MOUSE: i64 = 2;
pub const EVENT_BUTTON: i64 = 3;
pub const EVENT_SCROLL: i64 = 4;
pub const EVENT_QUIT: i64 = 5;
pub const EVENT_FOCUS: i64 = 6;
pub const EVENT_MOVE: i64 = 7;
pub const EVENT_RESIZE: i64 = 8;
pub const EVENT_SCREEN: i64 = 9;
pub const EVENT_CLIPBOARD: i64 = 10;
pub const EVENT_MOUSE_RELATIVE: i64 = 11;
pub const EVENT_TEXT_INPUT: i64 = 13;
pub const EVENT_HOVER: i64 = 15;
pub const EVENT_SCALE: i64 = 16;
pub const EVENT_CONTROLLER_AXIS: i64 = 20;
pub const EVENT_CONTROLLER_BUTTON: i64 = 21;

/// Scancodes of the keys the server acts on.
pub const K_TAB: u8 = 0x0F;
pub const K_Q: u8 = 0x10;
pub const K_BRACE_OPEN: u8 = 0x1A;
pub const K_BRACE_CLOSE: u8 = 0x1B;
pub const K_ENTER: u8 = 0x1C;
pub const K_CTRL: u8 = 0x1D;
pub const K_LEFT_SHIFT: u8 = 0x2A;
pub const K_BACKSLASH: u8 = 0x2B;
pub const K_X: u8 = 0x2D;
pub const K_C: u8 = 0x2E;
pub const K_V: u8 = 0x2F;
pub const K_M: u8 = 0x32;
pub const K_RIGHT_SHIFT: u8 = 0x36;
pub const K_ALT: u8 = 0x38;
pub const K_F10: u8 = 0x44;
pub const K_UP: u8 = 0x48;
pub const K_LEFT: u8 = 0x4B;
pub const K_RIGHT: u8 = 0x4D;
pub const K_DOWN: u8 = 0x50;
pub const K_F12: u8 = 0x58;
pub const K_SUPER: u8 = 0x5B;
pub const K_ALT_GR: u8 = 0x64;
pub const K_NUM_0: u8 = 0x70;
pub const K_NUM_1: u8 = 0x71;
pub const K_NUM_2: u8 = 0x72;
pub const K_NUM_3: u8 = 0x73;
pub const K_NUM_4: u8 = 0x74;
pub const K_NUM_5: u8 = 0x75;
pub const K_NUM_6: u8 = 0x76;
pub const K_NUM_7: u8 = 0x77;
pub const K_NUM_8: u8 = 0x78;
pub const K_NUM_9: u8 = 0x79;
pub const K_VOLUME_TOGGLE: u8 = 0xA0;
pub const K_VOLUME_DOWN: u8 = 0xAE;
pub const K_VOLUME_UP: u8 = 0xB0;

/// An event in the wire format shared with the clients: a kind and two
/// payload words.
#[derive(Copy, Clone, Debug, PartialEq, Eq, Structural)]
pub struct Event {
    pub code: i64,
    pub a: i64,
    pub b: i64,
}

impl Event {
    /// The null event.
    pub fn new() -> (e: Event)
        ensures
            e == (Event { code: EVENT_NONE, a: 0, b: 0 }),
    {
        Event { code: 0, a: 0, b: 0 }
    }
}

/// The number of a flag in an event word.
pub open spec fn bit(b: bool) -> i64 {
    if b {
        1
    } else {
        0
    }
}

fn bool_word(b: bool) -> (w: i64)
    ensures
        w == bit(b),
{
    if b {
        1
    } else {
        0
    }
}

/// A window gained or lost the focus.
#[derive(Copy, Clone, Debug)]
pub struct FocusEvent {
    pub focused: bool,
}

impl FocusEvent {
    pub fn to_event(&self) -> (e: Event)
        ensures
            e == (Event { code: EVENT_FOCUS, a: bit(self.focused), b: 0 }),
    {
        Event { code: EVENT_FOCUS, a: bool_word(self.focused), b: 0 }
    }
}

/// A window moved to `(x, y)`.
#[derive(Copy, Clone, Debug)]
pub struct MoveEvent {
    pub x: i32,
    pub y: i32,
}

impl MoveEvent {
    pub fn to_event(&self) -> (e: Event)
        ensures
            e == (Event { code: EVENT_MOVE, a: self.x as i64, b: self.y as i64 }),
    {
        Event { code: EVENT_MOVE, a: self.x as i64, b: self.y as i64 }
    }
}

/// A window is asked to take a new size.
#[derive(Copy, Clone, Debug)]
pub struct ResizeEvent {
    pub width: u32,
    pub height: u32,
}

impl ResizeEvent {
    pub fn to_event(&self) -> (e: Event)
        ensures
            e == (Event { code: EVENT_RESIZE, a: self.width as i64, b: self.height as i64 }),
    {
        Event { code: EVENT_RESIZE, a: self.width as i64, b: self.height as i64 }
    }
}

/// The screen took a new size.
#[derive(Copy, Clone, Debug)]
pub struct ScreenEvent {
    pub width: u32,
    pub height: u32,
}

impl ScreenEvent {
    pub fn to_event(&self) -> (e: Event)
        ensures
            e == (Event { code: EVENT_SCREEN, a: self.width as i64, b: self.height as i64 }),
    {
        Event { code: EVENT_SCREEN, a: self.width as i64, b: self.height as i64 }
    }
}

/// A window is asked to close.
#[derive(Copy, Clone, Debug)]
pub struct QuitEvent;

impl QuitEvent {
    pub fn to_event(&self) -> (e: Event)
        ensures
            e == (Event { code: EVENT_QUIT, a: 0, b: 0 }),
    {
        Event { code: EVENT_QUIT, a: 0, b: 0 }
    }
}

/// The pointer entered or left a window.
#[derive(Copy, Clone, Debug)]
pub struct HoverEvent {
    pub entered: bool,
}

impl HoverEvent {
    pub fn to_event(&self) -> (e: Event)
        ensures
            e == (Event { code: EVENT_HOVER, a: bit(self.entered), b: 0 }),
    {
        Event { code: EVENT_HOVER, a: bool_word(self.entered), b: 0 }
    }
}

/// The pointer moved to `(x, y)`.
#[derive(Copy, Clone, Debug)]
pub struct MouseEvent {
    pub x: i32,
    pub y: i32,
}

impl MouseEvent {
    pub fn to_event(&self) -> (e: Event)
        ensures
            e == (Event { code: EVENT_MOUSE, a: self.x as i64, b: self.y as i64 }),
    {
        Event { code: EVENT_MOUSE, a: self.x as i64, b: self.y as i64 }
    }
}

/// The state of the pointer buttons.
#[derive(Copy, Clone, Debug)]
pub struct ButtonEvent {
    pub left: bool,
    pub middle: bool,
    pub right: bool,
}

impl ButtonEvent {
    pub fn to_event(&self) -> (e: Event)
        ensures
            e == (Event {
                code: EVENT_BUTTON,
                a: (bit(self.left) + 2 * bit(self.middle) + 4 * bit(self.right)) as i64,
                b: 0,
            }),
    {
        Event {
            code: EVENT_BUTTON,
            a: bool_word(self.left) + 2 * bool_word(self.middle) + 4 * bool_word(self.right),
            b: 0,
        }
    }
}

/// A typed character.
#[derive(Copy, Clone, Debug)]
pub struct TextInputEvent {
    pub character: char,
}

impl TextInputEvent {
    pub fn to_event(&self) -> (e: Event)
        ensures
            e == (Event { code: EVENT_TEXT_INPUT, a: self.character as i64, b: 0 }),
    {
        Event { code: EVENT_TEXT_INPUT, a: (self.character as u32) as i64, b: 0 }
    }
}

/// A key went down or up.
#[derive(Copy, Clone, Debug)]
pub struct KeyEvent {
    pub character: char,
    pub scancode: u8,
    pub pressed: bool,
}

impl KeyEvent {
    pub fn to_event(&self) -> (e: Event)
        ensures
            e == (Event {
                code: EVENT_KEY,
                a: self.character as i64,
                b: (self.scancode + 256 * bit(self.pressed)) as i64,
            }),
    {
        Event {
            code: EVENT_KEY,
            a: (self.character as u32) as i64,
            b: self.scancode as i64 + 256 * bool_word(self.pressed),
        }
    }
}

/// A clipboard request of the user.
#[derive(Copy, Clone, Debug, PartialEq, Eq, Structural)]
pub enum ClipboardAction {
    Copy,
    Cut,
    Paste,
}

impl ClipboardAction {
    pub open spec fn code(self) -> i64 {
        match self {
            ClipboardAction::Copy => 1,
            ClipboardAction::Cut => 2,
            ClipboardAction::Paste => 3,
        }
    }

    pub fn to_u8(&self) -> (v: u8)
        ensures
            v == self.code(),
    {
        match self {
            ClipboardAction::Copy => 1,
            ClipboardAction::Cut => 2,
            ClipboardAction::Paste => 3,
        }
    }
}

/// A clipboard request sent to a window, with the size of the clipboard.
#[derive(Copy, Clone, Debug)]
pub struct ClipboardEvent {
    pub kind: ClipboardAction,
    pub size: usize,
}

impl ClipboardEvent {
    pub fn to_event(&self) -> (e: Event)
        requires
            self.size <= i64::MAX,
        ensures
            e == (Event { code: EVENT_CLIPBOARD, a: self.kind.code(), b: self.size as i64 }),
    {
        Event { code: EVENT_CLIPBOARD, a: self.kind.to_u8() as i64, b: self.size as i64 }
    }
}

/// A relative move of the pointer.
#[derive(Copy, Clone, Debug)]
pub struct MouseRelativeEvent {
    pub dx: i32,
    pub dy: i32,
}

impl MouseRelativeEvent {
    pub fn to_event(&self) -> (e: Event)
        ensures
            e == (Event { code: EVENT_MOUSE_RELATIVE, a: self.dx as i64, b: self.dy as i64 }),
    {
        Event { code: EVENT_MOUSE_RELATIVE, a: self.dx as i64, b: self.dy as i64 }
    }
}

/// An input event as the server tells it apart: keys, pointer moves and
/// buttons; scroll wheels and controllers, which go on to the front window;
/// and everything else.
#[derive(Copy, Clone, Debug)]
pub enum InputEvent {
    Key(KeyEvent),
    Mouse(MouseEvent),
    MouseRelative(MouseRelativeEvent),
    Button(ButtonEvent),
    Forward,
    Other,
}

/// The character with code `u`, or the null character where `u` is no
/// character.
pub open spec fn char_of(u: u32) -> char {
    if u < 0xD800 || (0xE000 <= u && u <= 0x10FFFF) {
        u as char
    } else {
        '\0'
    }
}

/// What an input event in the wire format is.
pub open spec fn spec_decode(e: Event) -> InputEvent {
    if e.code == EVENT_KEY {
        InputEvent::Key(
            KeyEvent { character: char_of(e.a as u32), scancode: e.b as u8, pressed: e.b & 256 == 256 },
        )
    } else if e.code == EVENT_MOUSE {
        InputEvent::Mouse(MouseEvent { x: e.a as i32, y: e.b as i32 })
    } else if e.code == EVENT_MOUSE_RELATIVE {
        InputEvent::MouseRelative(MouseRelativeEvent { dx: e.a as i32, dy: e.b as i32 })
    } else if e.code == EVENT_BUTTON {
        InputEvent::Button(ButtonEvent { left: e.a & 1 == 1, middle: e.a & 2 == 2, right: e.a & 4 == 4 })
    } else if e.code == EVENT_SCROLL || e.code == EVENT_CONTROLLER_AXIS || e.code == EVENT_CONTROLLER_BUTTON {
        InputEvent::Forward
    } else {
        InputEvent::Other
    }
}

/// Tells an input event apart with `orbclient::Event::to_option`. The
/// contract states what that function's source does: by kind, a key takes
/// its character from the first word (the null character where that is no
/// character), its scancode from the low byte of the second word and its
/// state from the bit above; pointer moves take the two words; buttons take
/// the low three bits of the first word.
#[verifier::external_body]
pub(crate) fn decode_event(e: Event) -> (d: InputEvent)
    ensures
        d == spec_decode(e),
{
    match (orbclient::Event { code: e.code, a: e.a, b: e.b }).to_option() {
        EventOption::Key(k) => InputEvent::Key(KeyEvent { character: k.character, scancode: k.scancode, pressed: k.pressed }),
        EventOption::Mouse(m) => InputEvent::Mouse(MouseEvent { x: m.x, y: m.y }),
        EventOption::MouseRelative(m) => InputEvent::MouseRelative(MouseRelativeEvent { dx: m.dx, dy: m.dy }),
        EventOption::Button(b) => InputEvent::Button(ButtonEvent { left: b.left, middle: b.middle, right: b.right }),
        EventOption::Scroll(_) => InputEvent::Forward,
        EventOption::ControllerAxis(_) => InputEvent::Forward,
        EventOption::ControllerButton(_) => InputEvent::Forward,
        _ => InputEvent::Other,
    }
}

} // verus!
