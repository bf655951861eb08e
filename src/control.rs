use vstd::prelude::*;

verus! {

/// A keyboard key, named by its position on a US qwerty layout.
#[derive(Debug, Clone, Copy, PartialEq, Eq, Structural, Hash)]
pub enum Key {
    Alt,
    AltGr,
    Backspace,
    CapsLock,
    ControlLeft,
    ControlRight,
    Delete,
    DownArrow,
    End,
    Escape,
    F1,
    F10,
    F11,
    F12,
    F2,
    F3,
    F4,
    F5,
    F6,
    F7,
    F8,
    F9,
    Home,
    LeftArrow,
    MetaLeft,
    MetaRight,
    PageDown,
    PageUp,
    Return,
    RightArrow,
    ShiftLeft,
    ShiftRight,
    Space,
    Tab,
    UpArrow,
    PrintScreen,
    ScrollLock,
    Pause,
    NumLock,
    BackQuote,
    Num1,
    Num2,
    Num3,
    Num4,
    Num5,
    Num6,
    Num7,
    Num8,
    Num9,
    Num0,
    Minus,
    Equal,
    KeyQ,
    KeyW,
    KeyE,
    KeyR,
    KeyT,
    KeyY,
    KeyU,
    KeyI,
    KeyO,
    KeyP,
    LeftBracket,
    RightBracket,
    KeyA,
    KeyS,
    KeyD,
    KeyF,
    KeyG,
    KeyH,
    KeyJ,
    KeyK,
    KeyL,
    SemiColon,
    Quote,
    BackSlash,
    IntlBackslash,
    KeyZ,
    KeyX,
    KeyC,
    KeyV,
    KeyB,
    KeyN,
    KeyM,
    Comma,
    Dot,
    Slash,
    Insert,
    KpReturn,
    KpMinus,
    KpPlus,
    KpMultiply,
    KpDivide,
    Kp0,
    Kp1,
    Kp2,
    Kp3,
    Kp4,
    Kp5,
    Kp6,
    Kp7,
    Kp8,
    Kp9,
    KpDelete,
    Function,
    Unknown(u32),
}

/// A mouse button.
#[derive(Debug, Clone, Copy, PartialEq, Eq, Structural, Hash)]
pub enum Button {
    Left,
    Right,
    Middle,
    Unknown(u8),
}

/// A physical control: a key, a mouse button, or one of the two wheel
/// directions treated as a control of its own.
#[derive(Debug, Clone, Copy, PartialEq, Eq, Structural, Hash)]
pub enum KeyButton {
    Key(Key),
    Button(Button),
    WheelUp,
    WheelDown,
}

#[derive(Debug, Clone, Copy, PartialEq, Eq, Structural, Hash)]
pub enum UpDown {
    Up,
    Down,
}

/// One step of a gesture: a control going down or up.
#[derive(Debug, Clone, Copy, PartialEq, Eq, Structural, Hash)]
pub struct KeyButtonAction(pub KeyButton, pub UpDown);

/// A raw input event as the global hook reports it, holding only what the
/// normalizer reads (pointer coordinates are not kept).
#[derive(Debug, Clone, Copy, PartialEq, Eq, Structural)]
pub enum InputEvent {
    KeyPress(Key),
    KeyRelease(Key),
    ButtonPress(Button),
    ButtonRelease(Button),
    MouseMove,
    Wheel { delta_x: i64, delta_y: i64 },
}

impl KeyButton {
    pub open spec fn is_wheel(self) -> bool {
        self is WheelUp || self is WheelDown
    }

    /// The control an event is about, if it names one: the Escape key, a
    /// pointer move and a wheel event without vertical motion name none.
    pub open spec fn spec_from_event(event: InputEvent) -> Option<KeyButton> {
        match event {
            InputEvent::KeyPress(k) | InputEvent::KeyRelease(k) => {
                if k == Key::Escape {
                    None
                } else {
                    Some(KeyButton::Key(k))
                }
            },
            InputEvent::ButtonPress(b) | InputEvent::ButtonRelease(b) => Some(KeyButton::Button(b)),
            InputEvent::MouseMove => None,
            InputEvent::Wheel { delta_x: _, delta_y } => {
                if delta_y > 0 {
                    Some(KeyButton::WheelUp)
                } else if delta_y < 0 {
                    Some(KeyButton::WheelDown)
                } else {
                    None
                }
            },
        }
    }

    pub fn from_event(event: InputEvent) -> (r: Option<KeyButton>)
        ensures
            r == Self::spec_from_event(event),
    {
        match event {
            InputEvent::KeyPress(k) | InputEvent::KeyRelease(k) => {
                if k == Key::Escape {
                    None
                } else {
                    Some(KeyButton::Key(k))
                }
            },
            InputEvent::ButtonPress(b) | InputEvent::ButtonRelease(b) => Some(KeyButton::Button(b)),
            InputEvent::MouseMove => None,
            InputEvent::Wheel { delta_x: _, delta_y } => {
                if delta_y > 0 {
                    Some(KeyButton::WheelUp)
                } else if delta_y < 0 {
                    Some(KeyButton::WheelDown)
                } else {
                    None
                }
            },
        }
    }
}

impl InputEvent {
    /// Whether the event reports a release; wheel ticks count as presses.
    pub open spec fn spec_direction(self) -> UpDown {
        match self {
            InputEvent::KeyRelease(_) | InputEvent::ButtonRelease(_) => UpDown::Up,
            _ => UpDown::Down,
        }
    }

    pub fn direction(&self) -> (r: UpDown)
        ensures
            r == self.spec_direction(),
    {
        match self {
            InputEvent::KeyRelease(_) | InputEvent::ButtonRelease(_) => UpDown::Up,
            _ => UpDown::Down,
        }
    }

    pub open spec fn spec_is_wheel(self) -> bool {
        self is Wheel
    }

    pub fn is_wheel(&self) -> (r: bool)
        ensures
            r == self.spec_is_wheel(),
    {
        matches!(self, InputEvent::Wheel { .. })
    }
}

} // verus!
