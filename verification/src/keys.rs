//! The keys that a configuration can bind, and the names it binds them by.
//!
//! A configuration names a key by the text of its name, and binds an action
//! to one key or to a list of keys. This module holds the list of keys with
//! their names, finds the key that a name stands for, and reads a binding, be
//! it a single name or a list of names, into keys. A binding that cannot be
//! read gives an error that holds what is wrong with it, and the sentence
//! that tells the user so.
use vstd::prelude::*;
use vstd::utf8::encode_utf8_decode_utf8;

verus! {

/// How many keys have a name.
pub const KEY_COUNT: usize = 163;

/// A key of the keyboard.
#[derive(Clone, Copy, Debug, PartialEq, Eq, Structural, Hash)]
pub enum KeyCode {
    Key1,
    Key2,
    Key3,
    Key4,
    Key5,
    Key6,
    Key7,
    Key8,
    Key9,
    Key0,
    A,
    B,
    C,
    D,
    E,
    F,
    G,
    H,
    I,
    J,
    K,
    L,
    M,
    N,
    O,
    P,
    Q,
    R,
    S,
    T,
    U,
    V,
    W,
    X,
    Y,
    Z,
    Escape,
    F1,
    F2,
    F3,
    F4,
    F5,
    F6,
    F7,
    F8,
    F9,
    F10,
    F11,
    F12,
    F13,
    F14,
    F15,
    F16,
    F17,
    F18,
    F19,
    F20,
    F21,
    F22,
    F23,
    F24,
    Snapshot,
    Scroll,
    Pause,
    Insert,
    Home,
    Delete,
    End,
    PageDown,
    PageUp,
    Left,
    Up,
    Right,
    Down,
    Back,
    Return,
    Space,
    Compose,
    Caret,
    Numlock,
    Numpad0,
    Numpad1,
    Numpad2,
    Numpad3,
    Numpad4,
    Numpad5,
    Numpad6,
    Numpad7,
    Numpad8,
    Numpad9,
    AbntC1,
    AbntC2,
    NumpadAdd,
    Apostrophe,
    Apps,
    Asterix,
    Plus,
    At,
    Ax,
    Backslash,
    Calculator,
    Capital,
    Colon,
    Comma,
    Convert,
    NumpadDecimal,
    NumpadDivide,
    Equals,
    Grave,
    Kana,
    Kanji,
    LAlt,
    LBracket,
    LControl,
    LShift,
    LWin,
    Mail,
    MediaSelect,
    MediaStop,
    Minus,
    NumpadMultiply,
    Mute,
    MyComputer,
    NavigateForward,
    NavigateBackward,
    NextTrack,
    NoConvert,
    NumpadComma,
    NumpadEnter,
    NumpadEquals,
    OEM102,
    Period,
    PlayPause,
    Power,
    PrevTrack,
    RAlt,
    RBracket,
    RControl,
    RShift,
    RWin,
    Semicolon,
    Slash,
    Sleep,
    Stop,
    NumpadSubtract,
    Sysrq,
    Tab,
    Underline,
    Unlabeled,
    VolumeDown,
    VolumeUp,
    Wake,
    WebBack,
    WebFavorites,
    WebForward,
    WebHome,
    WebRefresh,
    WebSearch,
    WebStop,
    Yen,
    Copy,
    Paste,
    Cut,
}

/// A button of the mouse.
#[derive(Clone, Copy, Debug, PartialEq, Eq, Structural, Hash)]
pub enum MouseButton {
    Left,
    Right,
    Middle,
    Other(u16),
}

impl KeyCode {
    /// The name of the key in a configuration.
    pub open spec fn name_of(self) -> &'static str {
        match self {
            KeyCode::Key1 => "Key1",
            KeyCode::Key2 => "Key2",
            KeyCode::Key3 => "Key3",
            KeyCode::Key4 => "Key4",
            KeyCode::Key5 => "Key5",
            KeyCode::Key6 => "Key6",
            KeyCode::Key7 => "Key7",
            KeyCode::Key8 => "Key8",
            KeyCode::Key9 => "Key9",
            KeyCode::Key0 => "Key0",
            KeyCode::A => "A",
            KeyCode::B => "B",
            KeyCode::C => "C",
            KeyCode::D => "D",
            KeyCode::E => "E",
            KeyCode::F => "F",
            KeyCode::G => "G",
            KeyCode::H => "H",
            KeyCode::I => "I",
            KeyCode::J => "J",
            KeyCode::K => "K",
            KeyCode::L => "L",
            KeyCode::M => "M",
            KeyCode::N => "N",
            KeyCode::O => "O",
            KeyCode::P => "P",
            KeyCode::Q => "Q",
            KeyCode::R => "R",
            KeyCode::S => "S",
            KeyCode::T => "T",
            KeyCode::U => "U",
            KeyCode::V => "V",
            KeyCode::W => "W",
            KeyCode::X => "X",
            KeyCode::Y => "Y",
            KeyCode::Z => "Z",
            KeyCode::Escape => "Escape",
            KeyCode::F1 => "F1",
            KeyCode::F2 => "F2",
            KeyCode::F3 => "F3",
            KeyCode::F4 => "F4",
            KeyCode::F5 => "F5",
            KeyCode::F6 => "F6",
            KeyCode::F7 => "F7",
            KeyCode::F8 => "F8",
            KeyCode::F9 => "F9",
            KeyCode::F10 => "F10",
            KeyCode::F11 => "F11",
            KeyCode::F12 => "F12",
            KeyCode::F13 => "F13",
            KeyCode::F14 => "F14",
            KeyCode::F15 => "F15",
            KeyCode::F16 => "F16",
            KeyCode::F17 => "F17",
            KeyCode::F18 => "F18",
            KeyCode::F19 => "F19",
            KeyCode::F20 => "F20",
            KeyCode::F21 => "F21",
            KeyCode::F22 => "F22",
            KeyCode::F23 => "F23",
            KeyCode::F24 => "F24",
            KeyCode::Snapshot => "Snapshot",
            KeyCode::Scroll => "Scroll",
            KeyCode::Pause => "Pause",
            KeyCode::Insert => "Insert",
            KeyCode::Home => "Home",
            KeyCode::Delete => "Delete",
            KeyCode::End => "End",
            KeyCode::PageDown => "PageDown",
            KeyCode::PageUp => "PageUp",
            KeyCode::Left => "Left",
            KeyCode::Up => "Up",
            KeyCode::Right => "Right",
            KeyCode::Down => "Down",
            KeyCode::Back => "Back",
            KeyCode::Return => "Return",
            KeyCode::Space => "Space",
            KeyCode::Compose => "Compose",
            KeyCode::Caret => "Caret",
            KeyCode::Numlock => "Numlock",
            KeyCode::Numpad0 => "Numpad0",
            KeyCode::Numpad1 => "Numpad1",
            KeyCode::Numpad2 => "Numpad2",
            KeyCode::Numpad3 => "Numpad3",
            KeyCode::Numpad4 => "Numpad4",
            KeyCode::Numpad5 => "Numpad5",
            KeyCode::Numpad6 => "Numpad6",
            KeyCode::Numpad7 => "Numpad7",
            KeyCode::Numpad8 => "Numpad8",
            KeyCode::Numpad9 => "Numpad9",
            KeyCode::AbntC1 => "AbntC1",
            KeyCode::AbntC2 => "AbntC2",
            KeyCode::NumpadAdd => "NumpadAdd",
            KeyCode::Apostrophe => "Apostrophe",
            KeyCode::Apps => "Apps",
            KeyCode::Asterix => "Asterix",
            KeyCode::Plus => "Plus",
            KeyCode::At => "At",
            KeyCode::Ax => "Ax",
            KeyCode::Backslash => "Backslash",
            KeyCode::Calculator => "Calculator",
            KeyCode::Capital => "Capital",
            KeyCode::Colon => "Colon",
            KeyCode::Comma => "Comma",
            KeyCode::Convert => "Convert",
            KeyCode::NumpadDecimal => "NumpadDecimal",
            KeyCode::NumpadDivide => "NumpadDivide",
            KeyCode::Equals => "Equals",
            KeyCode::Grave => "Grave",
            KeyCode::Kana => "Kana",
            KeyCode::Kanji => "Kanji",
            KeyCode::LAlt => "LAlt",
            KeyCode::LBracket => "LBracket",
            KeyCode::LControl => "LControl",
            KeyCode::LShift => "LShift",
            KeyCode::LWin => "LWin",
            KeyCode::Mail => "Mail",
            KeyCode::MediaSelect => "MediaSelect",
            KeyCode::MediaStop => "MediaStop",
            KeyCode::Minus => "Minus",
            KeyCode::NumpadMultiply => "NumpadMultiply",
            KeyCode::Mute => "Mute",
            KeyCode::MyComputer => "MyComputer",
            KeyCode::NavigateForward => "NavigateForward",
            KeyCode::NavigateBackward => "NavigateBackward",
            KeyCode::NextTrack => "NextTrack",
            KeyCode::NoConvert => "NoConvert",
            KeyCode::NumpadComma => "NumpadComma",
            KeyCode::NumpadEnter => "NumpadEnter",
            KeyCode::NumpadEquals => "NumpadEquals",
            KeyCode::OEM102 => "OEM102",
            KeyCode::Period => "Period",
            KeyCode::PlayPause => "PlayPause",
            KeyCode::Power => "Power",
            KeyCode::PrevTrack => "PrevTrack",
            KeyCode::RAlt => "RAlt",
            KeyCode::RBracket => "RBracket",
            KeyCode::RControl => "RControl",
            KeyCode::RShift => "RShift",
            KeyCode::RWin => "RWin",
            KeyCode::Semicolon => "Semicolon",
            KeyCode::Slash => "Slash",
            KeyCode::Sleep => "Sleep",
            KeyCode::Stop => "Stop",
            KeyCode::NumpadSubtract => "NumpadSubtract",
            KeyCode::Sysrq => "Sysrq",
            KeyCode::Tab => "Tab",
            KeyCode::Underline => "Underline",
            KeyCode::Unlabeled => "Unlabeled",
            KeyCode::VolumeDown => "VolumeDown",
            KeyCode::VolumeUp => "VolumeUp",
            KeyCode::Wake => "Wake",
            KeyCode::WebBack => "WebBack",
            KeyCode::WebFavorites => "WebFavorites",
            KeyCode::WebForward => "WebForward",
            KeyCode::WebHome => "WebHome",
            KeyCode::WebRefresh => "WebRefresh",
            KeyCode::WebSearch => "WebSearch",
            KeyCode::WebStop => "WebStop",
            KeyCode::Yen => "Yen",
            KeyCode::Copy => "Copy",
            KeyCode::Paste => "Paste",
            KeyCode::Cut => "Cut",
        }
    }

    /// The place of the key in the list of keys.
    pub open spec fn place_of(self) -> int {
        match self {
            KeyCode::Key1 => 0,
            KeyCode::Key2 => 1,
            KeyCode::Key3 => 2,
            KeyCode::Key4 => 3,
            KeyCode::Key5 => 4,
            KeyCode::Key6 => 5,
            KeyCode::Key7 => 6,
            KeyCode::Key8 => 7,
            KeyCode::Key9 => 8,
            KeyCode::Key0 => 9,
            KeyCode::A => 10,
            KeyCode::B => 11,
            KeyCode::C => 12,
            KeyCode::D => 13,
            KeyCode::E => 14,
            KeyCode::F => 15,
            KeyCode::G => 16,
            KeyCode::H => 17,
            KeyCode::I => 18,
            KeyCode::J => 19,
            KeyCode::K => 20,
            KeyCode::L => 21,
            KeyCode::M => 22,
            KeyCode::N => 23,
            KeyCode::O => 24,
            KeyCode::P => 25,
            KeyCode::Q => 26,
            KeyCode::R => 27,
            KeyCode::S => 28,
            KeyCode::T => 29,
            KeyCode::U => 30,
            KeyCode::V => 31,
            KeyCode::W => 32,
            KeyCode::X => 33,
            KeyCode::Y => 34,
            KeyCode::Z => 35,
            KeyCode::Escape => 36,
            KeyCode::F1 => 37,
            KeyCode::F2 => 38,
            KeyCode::F3 => 39,
            KeyCode::F4 => 40,
            KeyCode::F5 => 41,
            KeyCode::F6 => 42,
            KeyCode::F7 => 43,
            KeyCode::F8 => 44,
            KeyCode::F9 => 45,
            KeyCode::F10 => 46,
            KeyCode::F11 => 47,
            KeyCode::F12 => 48,
            KeyCode::F13 => 49,
            KeyCode::F14 => 50,
            KeyCode::F15 => 51,
            KeyCode::F16 => 52,
            KeyCode::F17 => 53,
            KeyCode::F18 => 54,
            KeyCode::F19 => 55,
            KeyCode::F20 => 56,
            KeyCode::F21 => 57,
            KeyCode::F22 => 58,
            KeyCode::F23 => 59,
            KeyCode::F24 => 60,
            KeyCode::Snapshot => 61,
            KeyCode::Scroll => 62,
            KeyCode::Pause => 63,
            KeyCode::Insert => 64,
            KeyCode::Home => 65,
            KeyCode::Delete => 66,
            KeyCode::End => 67,
            KeyCode::PageDown => 68,
            KeyCode::PageUp => 69,
            KeyCode::Left => 70,
            KeyCode::Up => 71,
            KeyCode::Right => 72,
            KeyCode::Down => 73,
            KeyCode::Back => 74,
            KeyCode::Return => 75,
            KeyCode::Space => 76,
            KeyCode::Compose => 77,
            KeyCode::Caret => 78,
            KeyCode::Numlock => 79,
            KeyCode::Numpad0 => 80,
            KeyCode::Numpad1 => 81,
            KeyCode::Numpad2 => 82,
            KeyCode::Numpad3 => 83,
            KeyCode::Numpad4 => 84,
            KeyCode::Numpad5 => 85,
            KeyCode::Numpad6 => 86,
            KeyCode::Numpad7 => 87,
            KeyCode::Numpad8 => 88,
            KeyCode::Numpad9 => 89,
            KeyCode::AbntC1 => 90,
            KeyCode::AbntC2 => 91,
            KeyCode::NumpadAdd => 92,
            KeyCode::Apostrophe => 93,
            KeyCode::Apps => 94,
            KeyCode::Asterix => 95,
            KeyCode::Plus => 96,
            KeyCode::At => 97,
            KeyCode::Ax => 98,
            KeyCode::Backslash => 99,
            KeyCode::Calculator => 100,
            KeyCode::Capital => 101,
            KeyCode::Colon => 102,
            KeyCode::Comma => 103,
            KeyCode::Convert => 104,
            KeyCode::NumpadDecimal => 105,
            KeyCode::NumpadDivide => 106,
            KeyCode::Equals => 107,
            KeyCode::Grave => 108,
            KeyCode::Kana => 109,
            KeyCode::Kanji => 110,
            KeyCode::LAlt => 111,
            KeyCode::LBracket => 112,
            KeyCode::LControl => 113,
            KeyCode::LShift => 114,
            KeyCode::LWin => 115,
            KeyCode::Mail => 116,
            KeyCode::MediaSelect => 117,
            KeyCode::MediaStop => 118,
            KeyCode::Minus => 119,
            KeyCode::NumpadMultiply => 120,
            KeyCode::Mute => 121,
            KeyCode::MyComputer => 122,
            KeyCode::NavigateForward => 123,
            KeyCode::NavigateBackward => 124,
            KeyCode::NextTrack => 125,
            KeyCode::NoConvert => 126,
            KeyCode::NumpadComma => 127,
            KeyCode::NumpadEnter => 128,
            KeyCode::NumpadEquals => 129,
            KeyCode::OEM102 => 130,
            KeyCode::Period => 131,
            KeyCode::PlayPause => 132,
            KeyCode::Power => 133,
            KeyCode::PrevTrack => 134,
            KeyCode::RAlt => 135,
            KeyCode::RBracket => 136,
            KeyCode::RControl => 137,
            KeyCode::RShift => 138,
            KeyCode::RWin => 139,
            KeyCode::Semicolon => 140,
            KeyCode::Slash => 141,
            KeyCode::Sleep => 142,
            KeyCode::Stop => 143,
            KeyCode::NumpadSubtract => 144,
            KeyCode::Sysrq => 145,
            KeyCode::Tab => 146,
            KeyCode::Underline => 147,
            KeyCode::Unlabeled => 148,
            KeyCode::VolumeDown => 149,
            KeyCode::VolumeUp => 150,
            KeyCode::Wake => 151,
            KeyCode::WebBack => 152,
            KeyCode::WebFavorites => 153,
            KeyCode::WebForward => 154,
            KeyCode::WebHome => 155,
            KeyCode::WebRefresh => 156,
            KeyCode::WebSearch => 157,
            KeyCode::WebStop => 158,
            KeyCode::Yen => 159,
            KeyCode::Copy => 160,
            KeyCode::Paste => 161,
            KeyCode::Cut => 162,
        }
    }

    /// The key at place `i` of the list of keys.
    pub open spec fn listed(i: int) -> KeyCode {
        if i <= 0 {
            KeyCode::Key1
        } else if i == 1 {
            KeyCode::Key2
        } else if i == 2 {
            KeyCode::Key3
        } else if i == 3 {
            KeyCode::Key4
        } else if i == 4 {
            KeyCode::Key5
        } else if i == 5 {
            KeyCode::Key6
        } else if i == 6 {
            KeyCode::Key7
        } else if i == 7 {
            KeyCode::Key8
        } else if i == 8 {
            KeyCode::Key9
        } else if i == 9 {
            KeyCode::Key0
        } else if i == 10 {
            KeyCode::A
        } else if i == 11 {
            KeyCode::B
        } else if i == 12 {
            KeyCode::C
        } else if i == 13 {
            KeyCode::D
        } else if i == 14 {
            KeyCode::E
        } else if i == 15 {
            KeyCode::F
        } else if i == 16 {
            KeyCode::G
        } else if i == 17 {
            KeyCode::H
        } else if i == 18 {
            KeyCode::I
        } else if i == 19 {
            KeyCode::J
        } else if i == 20 {
            KeyCode::K
        } else if i == 21 {
            KeyCode::L
        } else if i == 22 {
            KeyCode::M
        } else if i == 23 {
            KeyCode::N
        } else if i == 24 {
            KeyCode::O
        } else if i == 25 {
            KeyCode::P
        } else if i == 26 {
            KeyCode::Q
        } else if i == 27 {
            KeyCode::R
        } else if i == 28 {
            KeyCode::S
        } else if i == 29 {
            KeyCode::T
        } else if i == 30 {
            KeyCode::U
        } else if i == 31 {
            KeyCode::V
        } else if i == 32 {
            KeyCode::W
        } else if i == 33 {
            KeyCode::X
        } else if i == 34 {
            KeyCode::Y
        } else if i == 35 {
            KeyCode::Z
        } else if i == 36 {
            KeyCode::Escape
        } else if i == 37 {
            KeyCode::F1
        } else if i == 38 {
            KeyCode::F2
        } else if i == 39 {
            KeyCode::F3
        } else if i == 40 {
            KeyCode::F4
        } else if i == 41 {
            KeyCode::F5
        } else if i == 42 {
            KeyCode::F6
        } else if i == 43 {
            KeyCode::F7
        } else if i == 44 {
            KeyCode::F8
        } else if i == 45 {
            KeyCode::F9
        } else if i == 46 {
            KeyCode::F10
        } else if i == 47 {
            KeyCode::F11
        } else if i == 48 {
            KeyCode::F12
        } else if i == 49 {
            KeyCode::F13
        } else if i == 50 {
            KeyCode::F14
        } else if i == 51 {
            KeyCode::F15
        } else if i == 52 {
            KeyCode::F16
        } else if i == 53 {
            KeyCode::F17
        } else if i == 54 {
            KeyCode::F18
        } else if i == 55 {
            KeyCode::F19
        } else if i == 56 {
            KeyCode::F20
        } else if i == 57 {
            KeyCode::F21
        } else if i == 58 {
            KeyCode::F22
        } else if i == 59 {
            KeyCode::F23
        } else if i == 60 {
            KeyCode::F24
        } else if i == 61 {
            KeyCode::Snapshot
        } else if i == 62 {
            KeyCode::Scroll
        } else if i == 63 {
            KeyCode::Pause
        } else if i == 64 {
            KeyCode::Insert
        } else if i == 65 {
            KeyCode::Home
        } else if i == 66 {
            KeyCode::Delete
        } else if i == 67 {
            KeyCode::End
        } else if i == 68 {
            KeyCode::PageDown
        } else if i == 69 {
            KeyCode::PageUp
        } else if i == 70 {
            KeyCode::Left
        } else if i == 71 {
            KeyCode::Up
        } else if i == 72 {
            KeyCode::Right
        } else if i == 73 {
            KeyCode::Down
        } else if i == 74 {
            KeyCode::Back
        } else if i == 75 {
            KeyCode::Return
        } else if i == 76 {
            KeyCode::Space
        } else if i == 77 {
            KeyCode::Compose
        } else if i == 78 {
            KeyCode::Caret
        } else if i == 79 {
            KeyCode::Numlock
        } else if i == 80 {
            KeyCode::Numpad0
        } else if i == 81 {
            KeyCode::Numpad1
        } else if i == 82 {
            KeyCode::Numpad2
        } else if i == 83 {
            KeyCode::Numpad3
        } else if i == 84 {
            KeyCode::Numpad4
        } else if i == 85 {
            KeyCode::Numpad5
        } else if i == 86 {
            KeyCode::Numpad6
        } else if i == 87 {
            KeyCode::Numpad7
        } else if i == 88 {
            KeyCode::Numpad8
        } else if i == 89 {
            KeyCode::Numpad9
        } else if i == 90 {
            KeyCode::AbntC1
        } else if i == 91 {
            KeyCode::AbntC2
        } else if i == 92 {
            KeyCode::NumpadAdd
        } else if i == 93 {
            KeyCode::Apostrophe
        } else if i == 94 {
            KeyCode::Apps
        } else if i == 95 {
            KeyCode::Asterix
        } else if i == 96 {
            KeyCode::Plus
        } else if i == 97 {
            KeyCode::At
        } else if i == 98 {
            KeyCode::Ax
        } else if i == 99 {
            KeyCode::Backslash
        } else if i == 100 {
            KeyCode::Calculator
        } else if i == 101 {
            KeyCode::Capital
        } else if i == 102 {
            KeyCode::Colon
        } else if i == 103 {
            KeyCode::Comma
        } else if i == 104 {
            KeyCode::Convert
        } else if i == 105 {
            KeyCode::NumpadDecimal
        } else if i == 106 {
            KeyCode::NumpadDivide
        } else if i == 107 {
            KeyCode::Equals
        } else if i == 108 {
            KeyCode::Grave
        } else if i == 109 {
            KeyCode::Kana
        } else if i == 110 {
            KeyCode::Kanji
        } else if i == 111 {
            KeyCode::LAlt
        } else if i == 112 {
            KeyCode::LBracket
        } else if i == 113 {
            KeyCode::LControl
        } else if i == 114 {
            KeyCode::LShift
        } else if i == 115 {
            KeyCode::LWin
        } else if i == 116 {
            KeyCode::Mail
        } else if i == 117 {
            KeyCode::MediaSelect
        } else if i == 118 {
            KeyCode::MediaStop
        } else if i == 119 {
            KeyCode::Minus
        } else if i == 120 {
            KeyCode::NumpadMultiply
        } else if i == 121 {
            KeyCode::Mute
        } else if i == 122 {
            KeyCode::MyComputer
        } else if i == 123 {
            KeyCode::NavigateForward
        } else if i == 124 {
            KeyCode::NavigateBackward
        } else if i == 125 {
            KeyCode::NextTrack
        } else if i == 126 {
            KeyCode::NoConvert
        } else if i == 127 {
            KeyCode::NumpadComma
        } else if i == 128 {
            KeyCode::NumpadEnter
        } else if i == 129 {
            KeyCode::NumpadEquals
        } else if i == 130 {
            KeyCode::OEM102
        } else if i == 131 {
            KeyCode::Period
        } else if i == 132 {
            KeyCode::PlayPause
        } else if i == 133 {
            KeyCode::Power
        } else if i == 134 {
            KeyCode::PrevTrack
        } else if i == 135 {
            KeyCode::RAlt
        } else if i == 136 {
            KeyCode::RBracket
        } else if i == 137 {
            KeyCode::RControl
        } else if i == 138 {
            KeyCode::RShift
        } else if i == 139 {
            KeyCode::RWin
        } else if i == 140 {
            KeyCode::Semicolon
        } else if i == 141 {
            KeyCode::Slash
        } else if i == 142 {
            KeyCode::Sleep
        } else if i == 143 {
            KeyCode::Stop
        } else if i == 144 {
            KeyCode::NumpadSubtract
        } else if i == 145 {
            KeyCode::Sysrq
        } else if i == 146 {
            KeyCode::Tab
        } else if i == 147 {
            KeyCode::Underline
        } else if i == 148 {
            KeyCode::Unlabeled
        } else if i == 149 {
            KeyCode::VolumeDown
        } else if i == 150 {
            KeyCode::VolumeUp
        } else if i == 151 {
            KeyCode::Wake
        } else if i == 152 {
            KeyCode::WebBack
        } else if i == 153 {
            KeyCode::WebFavorites
        } else if i == 154 {
            KeyCode::WebForward
        } else if i == 155 {
            KeyCode::WebHome
        } else if i == 156 {
            KeyCode::WebRefresh
        } else if i == 157 {
            KeyCode::WebSearch
        } else if i == 158 {
            KeyCode::WebStop
        } else if i == 159 {
            KeyCode::Yen
        } else if i == 160 {
            KeyCode::Copy
        } else if i == 161 {
            KeyCode::Paste
        } else {
            KeyCode::Cut
        }
    }

    /// The name of the key in a configuration.
    pub fn name(self) -> (r: &'static str)
        ensures
            r == self.name_of(),
    {
        match self {
            KeyCode::Key1 => "Key1",
            KeyCode::Key2 => "Key2",
            KeyCode::Key3 => "Key3",
            KeyCode::Key4 => "Key4",
            KeyCode::Key5 => "Key5",
            KeyCode::Key6 => "Key6",
            KeyCode::Key7 => "Key7",
            KeyCode::Key8 => "Key8",
            KeyCode::Key9 => "Key9",
            KeyCode::Key0 => "Key0",
            KeyCode::A => "A",
            KeyCode::B => "B",
            KeyCode::C => "C",
            KeyCode::D => "D",
            KeyCode::E => "E",
            KeyCode::F => "F",
            KeyCode::G => "G",
            KeyCode::H => "H",
            KeyCode::I => "I",
            KeyCode::J => "J",
            KeyCode::K => "K",
            KeyCode::L => "L",
            KeyCode::M => "M",
            KeyCode::N => "N",
            KeyCode::O => "O",
            KeyCode::P => "P",
            KeyCode::Q => "Q",
            KeyCode::R => "R",
            KeyCode::S => "S",
            KeyCode::T => "T",
            KeyCode::U => "U",
            KeyCode::V => "V",
            KeyCode::W => "W",
            KeyCode::X => "X",
            KeyCode::Y => "Y",
            KeyCode::Z => "Z",
            KeyCode::Escape => "Escape",
            KeyCode::F1 => "F1",
            KeyCode::F2 => "F2",
            KeyCode::F3 => "F3",
            KeyCode::F4 => "F4",
            KeyCode::F5 => "F5",
            KeyCode::F6 => "F6",
            KeyCode::F7 => "F7",
            KeyCode::F8 => "F8",
            KeyCode::F9 => "F9",
            KeyCode::F10 => "F10",
            KeyCode::F11 => "F11",
            KeyCode::F12 => "F12",
            KeyCode::F13 => "F13",
            KeyCode::F14 => "F14",
            KeyCode::F15 => "F15",
            KeyCode::F16 => "F16",
            KeyCode::F17 => "F17",
            KeyCode::F18 => "F18",
            KeyCode::F19 => "F19",
            KeyCode::F20 => "F20",
            KeyCode::F21 => "F21",
            KeyCode::F22 => "F22",
            KeyCode::F23 => "F23",
            KeyCode::F24 => "F24",
            KeyCode::Snapshot => "Snapshot",
            KeyCode::Scroll => "Scroll",
            KeyCode::Pause => "Pause",
            KeyCode::Insert => "Insert",
            KeyCode::Home => "Home",
            KeyCode::Delete => "Delete",
            KeyCode::End => "End",
            KeyCode::PageDown => "PageDown",
            KeyCode::PageUp => "PageUp",
            KeyCode::Left => "Left",
            KeyCode::Up => "Up",
            KeyCode::Right => "Right",
            KeyCode::Down => "Down",
            KeyCode::Back => "Back",
            KeyCode::Return => "Return",
            KeyCode::Space => "Space",
            KeyCode::Compose => "Compose",
            KeyCode::Caret => "Caret",
            KeyCode::Numlock => "Numlock",
            KeyCode::Numpad0 => "Numpad0",
            KeyCode::Numpad1 => "Numpad1",
            KeyCode::Numpad2 => "Numpad2",
            KeyCode::Numpad3 => "Numpad3",
            KeyCode::Numpad4 => "Numpad4",
            KeyCode::Numpad5 => "Numpad5",
            KeyCode::Numpad6 => "Numpad6",
            KeyCode::Numpad7 => "Numpad7",
            KeyCode::Numpad8 => "Numpad8",
            KeyCode::Numpad9 => "Numpad9",
            KeyCode::AbntC1 => "AbntC1",
            KeyCode::AbntC2 => "AbntC2",
            KeyCode::NumpadAdd => "NumpadAdd",
            KeyCode::Apostrophe => "Apostrophe",
            KeyCode::Apps => "Apps",
            KeyCode::Asterix => "Asterix",
            KeyCode::Plus => "Plus",
            KeyCode::At => "At",
            KeyCode::Ax => "Ax",
            KeyCode::Backslash => "Backslash",
            KeyCode::Calculator => "Calculator",
            KeyCode::Capital => "Capital",
            KeyCode::Colon => "Colon",
            KeyCode::Comma => "Comma",
            KeyCode::Convert => "Convert",
            KeyCode::NumpadDecimal => "NumpadDecimal",
            KeyCode::NumpadDivide => "NumpadDivide",
            KeyCode::Equals => "Equals",
            KeyCode::Grave => "Grave",
            KeyCode::Kana => "Kana",
            KeyCode::Kanji => "Kanji",
            KeyCode::LAlt => "LAlt",
            KeyCode::LBracket => "LBracket",
            KeyCode::LControl => "LControl",
            KeyCode::LShift => "LShift",
            KeyCode::LWin => "LWin",
            KeyCode::Mail => "Mail",
            KeyCode::MediaSelect => "MediaSelect",
            KeyCode::MediaStop => "MediaStop",
            KeyCode::Minus => "Minus",
            KeyCode::NumpadMultiply => "NumpadMultiply",
            KeyCode::Mute => "Mute",
            KeyCode::MyComputer => "MyComputer",
            KeyCode::NavigateForward => "NavigateForward",
            KeyCode::NavigateBackward => "NavigateBackward",
            KeyCode::NextTrack => "NextTrack",
            KeyCode::NoConvert => "NoConvert",
            KeyCode::NumpadComma => "NumpadComma",
            KeyCode::NumpadEnter => "NumpadEnter",
            KeyCode::NumpadEquals => "NumpadEquals",
            KeyCode::OEM102 => "OEM102",
            KeyCode::Period => "Period",
            KeyCode::PlayPause => "PlayPause",
            KeyCode::Power => "Power",
            KeyCode::PrevTrack => "PrevTrack",
            KeyCode::RAlt => "RAlt",
            KeyCode::RBracket => "RBracket",
            KeyCode::RControl => "RControl",
            KeyCode::RShift => "RShift",
            KeyCode::RWin => "RWin",
            KeyCode::Semicolon => "Semicolon",
            KeyCode::Slash => "Slash",
            KeyCode::Sleep => "Sleep",
            KeyCode::Stop => "Stop",
            KeyCode::NumpadSubtract => "NumpadSubtract",
            KeyCode::Sysrq => "Sysrq",
            KeyCode::Tab => "Tab",
            KeyCode::Underline => "Underline",
            KeyCode::Unlabeled => "Unlabeled",
            KeyCode::VolumeDown => "VolumeDown",
            KeyCode::VolumeUp => "VolumeUp",
            KeyCode::Wake => "Wake",
            KeyCode::WebBack => "WebBack",
            KeyCode::WebFavorites => "WebFavorites",
            KeyCode::WebForward => "WebForward",
            KeyCode::WebHome => "WebHome",
            KeyCode::WebRefresh => "WebRefresh",
            KeyCode::WebSearch => "WebSearch",
            KeyCode::WebStop => "WebStop",
            KeyCode::Yen => "Yen",
            KeyCode::Copy => "Copy",
            KeyCode::Paste => "Paste",
            KeyCode::Cut => "Cut",
        }
    }

    /// The place of the key in the list of keys.
    pub fn place(self) -> (i: usize)
        ensures
            i == self.place_of(),
            i < KEY_COUNT,
    {
        match self {
            KeyCode::Key1 => 0,
            KeyCode::Key2 => 1,
            KeyCode::Key3 => 2,
            KeyCode::Key4 => 3,
            KeyCode::Key5 => 4,
            KeyCode::Key6 => 5,
            KeyCode::Key7 => 6,
            KeyCode::Key8 => 7,
            KeyCode::Key9 => 8,
            KeyCode::Key0 => 9,
            KeyCode::A => 10,
            KeyCode::B => 11,
            KeyCode::C => 12,
            KeyCode::D => 13,
            KeyCode::E => 14,
            KeyCode::F => 15,
            KeyCode::G => 16,
            KeyCode::H => 17,
            KeyCode::I => 18,
            KeyCode::J => 19,
            KeyCode::K => 20,
            KeyCode::L => 21,
            KeyCode::M => 22,
            KeyCode::N => 23,
            KeyCode::O => 24,
            KeyCode::P => 25,
            KeyCode::Q => 26,
            KeyCode::R => 27,
            KeyCode::S => 28,
            KeyCode::T => 29,
            KeyCode::U => 30,
            KeyCode::V => 31,
            KeyCode::W => 32,
            KeyCode::X => 33,
            KeyCode::Y => 34,
            KeyCode::Z => 35,
            KeyCode::Escape => 36,
            KeyCode::F1 => 37,
            KeyCode::F2 => 38,
            KeyCode::F3 => 39,
            KeyCode::F4 => 40,
            KeyCode::F5 => 41,
            KeyCode::F6 => 42,
            KeyCode::F7 => 43,
            KeyCode::F8 => 44,
            KeyCode::F9 => 45,
            KeyCode::F10 => 46,
            KeyCode::F11 => 47,
            KeyCode::F12 => 48,
            KeyCode::F13 => 49,
            KeyCode::F14 => 50,
            KeyCode::F15 => 51,
            KeyCode::F16 => 52,
            KeyCode::F17 => 53,
            KeyCode::F18 => 54,
            KeyCode::F19 => 55,
            KeyCode::F20 => 56,
            KeyCode::F21 => 57,
            KeyCode::F22 => 58,
            KeyCode::F23 => 59,
            KeyCode::F24 => 60,
            KeyCode::Snapshot => 61,
            KeyCode::Scroll => 62,
            KeyCode::Pause => 63,
            KeyCode::Insert => 64,
            KeyCode::Home => 65,
            KeyCode::Delete => 66,
            KeyCode::End => 67,
            KeyCode::PageDown => 68,
            KeyCode::PageUp => 69,
            KeyCode::Left => 70,
            KeyCode::Up => 71,
            KeyCode::Right => 72,
            KeyCode::Down => 73,
            KeyCode::Back => 74,
            KeyCode::Return => 75,
            KeyCode::Space => 76,
            KeyCode::Compose => 77,
            KeyCode::Caret => 78,
            KeyCode::Numlock => 79,
            KeyCode::Numpad0 => 80,
            KeyCode::Numpad1 => 81,
            KeyCode::Numpad2 => 82,
            KeyCode::Numpad3 => 83,
            KeyCode::Numpad4 => 84,
            KeyCode::Numpad5 => 85,
            KeyCode::Numpad6 => 86,
            KeyCode::Numpad7 => 87,
            KeyCode::Numpad8 => 88,
            KeyCode::Numpad9 => 89,
            KeyCode::AbntC1 => 90,
            KeyCode::AbntC2 => 91,
            KeyCode::NumpadAdd => 92,
            KeyCode::Apostrophe => 93,
            KeyCode::Apps => 94,
            KeyCode::Asterix => 95,
            KeyCode::Plus => 96,
            KeyCode::At => 97,
            KeyCode::Ax => 98,
            KeyCode::Backslash => 99,
            KeyCode::Calculator => 100,
            KeyCode::Capital => 101,
            KeyCode::Colon => 102,
            KeyCode::Comma => 103,
            KeyCode::Convert => 104,
            KeyCode::NumpadDecimal => 105,
            KeyCode::NumpadDivide => 106,
            KeyCode::Equals => 107,
            KeyCode::Grave => 108,
            KeyCode::Kana => 109,
            KeyCode::Kanji => 110,
            KeyCode::LAlt => 111,
            KeyCode::LBracket => 112,
            KeyCode::LControl => 113,
            KeyCode::LShift => 114,
            KeyCode::LWin => 115,
            KeyCode::Mail => 116,
            KeyCode::MediaSelect => 117,
            KeyCode::MediaStop => 118,
            KeyCode::Minus => 119,
            KeyCode::NumpadMultiply => 120,
            KeyCode::Mute => 121,
            KeyCode::MyComputer => 122,
            KeyCode::NavigateForward => 123,
            KeyCode::NavigateBackward => 124,
            KeyCode::NextTrack => 125,
            KeyCode::NoConvert => 126,
            KeyCode::NumpadComma => 127,
            KeyCode::NumpadEnter => 128,
            KeyCode::NumpadEquals => 129,
            KeyCode::OEM102 => 130,
            KeyCode::Period => 131,
            KeyCode::PlayPause => 132,
            KeyCode::Power => 133,
            KeyCode::PrevTrack => 134,
            KeyCode::RAlt => 135,
            KeyCode::RBracket => 136,
            KeyCode::RControl => 137,
            KeyCode::RShift => 138,
            KeyCode::RWin => 139,
            KeyCode::Semicolon => 140,
            KeyCode::Slash => 141,
            KeyCode::Sleep => 142,
            KeyCode::Stop => 143,
            KeyCode::NumpadSubtract => 144,
            KeyCode::Sysrq => 145,
            KeyCode::Tab => 146,
            KeyCode::Underline => 147,
            KeyCode::Unlabeled => 148,
            KeyCode::VolumeDown => 149,
            KeyCode::VolumeUp => 150,
            KeyCode::Wake => 151,
            KeyCode::WebBack => 152,
            KeyCode::WebFavorites => 153,
            KeyCode::WebForward => 154,
            KeyCode::WebHome => 155,
            KeyCode::WebRefresh => 156,
            KeyCode::WebSearch => 157,
            KeyCode::WebStop => 158,
            KeyCode::Yen => 159,
            KeyCode::Copy => 160,
            KeyCode::Paste => 161,
            KeyCode::Cut => 162,
        }
    }

    /// The key at place `i` of the list of keys.
    pub fn nth(i: usize) -> (k: KeyCode)
        requires
            i < KEY_COUNT,
        ensures
            k == KeyCode::listed(i as int),
    {
        match i {
            0 => KeyCode::Key1,
            1 => KeyCode::Key2,
            2 => KeyCode::Key3,
            3 => KeyCode::Key4,
            4 => KeyCode::Key5,
            5 => KeyCode::Key6,
            6 => KeyCode::Key7,
            7 => KeyCode::Key8,
            8 => KeyCode::Key9,
            9 => KeyCode::Key0,
            10 => KeyCode::A,
            11 => KeyCode::B,
            12 => KeyCode::C,
            13 => KeyCode::D,
            14 => KeyCode::E,
            15 => KeyCode::F,
            16 => KeyCode::G,
            17 => KeyCode::H,
            18 => KeyCode::I,
            19 => KeyCode::J,
            20 => KeyCode::K,
            21 => KeyCode::L,
            22 => KeyCode::M,
            23 => KeyCode::N,
            24 => KeyCode::O,
            25 => KeyCode::P,
            26 => KeyCode::Q,
            27 => KeyCode::R,
            28 => KeyCode::S,
            29 => KeyCode::T,
            30 => KeyCode::U,
            31 => KeyCode::V,
            32 => KeyCode::W,
            33 => KeyCode::X,
            34 => KeyCode::Y,
            35 => KeyCode::Z,
            36 => KeyCode::Escape,
            37 => KeyCode::F1,
            38 => KeyCode::F2,
            39 => KeyCode::F3,
            40 => KeyCode::F4,
            41 => KeyCode::F5,
            42 => KeyCode::F6,
            43 => KeyCode::F7,
            44 => KeyCode::F8,
            45 => KeyCode::F9,
            46 => KeyCode::F10,
            47 => KeyCode::F11,
            48 => KeyCode::F12,
            49 => KeyCode::F13,
            50 => KeyCode::F14,
            51 => KeyCode::F15,
            52 => KeyCode::F16,
            53 => KeyCode::F17,
            54 => KeyCode::F18,
            55 => KeyCode::F19,
            56 => KeyCode::F20,
            57 => KeyCode::F21,
            58 => KeyCode::F22,
            59 => KeyCode::F23,
            60 => KeyCode::F24,
            61 => KeyCode::Snapshot,
            62 => KeyCode::Scroll,
            63 => KeyCode::Pause,
            64 => KeyCode::Insert,
            65 => KeyCode::Home,
            66 => KeyCode::Delete,
            67 => KeyCode::End,
            68 => KeyCode::PageDown,
            69 => KeyCode::PageUp,
            70 => KeyCode::Left,
            71 => KeyCode::Up,
            72 => KeyCode::Right,
            73 => KeyCode::Down,
            74 => KeyCode::Back,
            75 => KeyCode::Return,
            76 => KeyCode::Space,
            77 => KeyCode::Compose,
            78 => KeyCode::Caret,
            79 => KeyCode::Numlock,
            80 => KeyCode::Numpad0,
            81 => KeyCode::Numpad1,
            82 => KeyCode::Numpad2,
            83 => KeyCode::Numpad3,
            84 => KeyCode::Numpad4,
            85 => KeyCode::Numpad5,
            86 => KeyCode::Numpad6,
            87 => KeyCode::Numpad7,
            88 => KeyCode::Numpad8,
            89 => KeyCode::Numpad9,
            90 => KeyCode::AbntC1,
            91 => KeyCode::AbntC2,
            92 => KeyCode::NumpadAdd,
            93 => KeyCode::Apostrophe,
            94 => KeyCode::Apps,
            95 => KeyCode::Asterix,
            96 => KeyCode::Plus,
            97 => KeyCode::At,
            98 => KeyCode::Ax,
            99 => KeyCode::Backslash,
            100 => KeyCode::Calculator,
            101 => KeyCode::Capital,
            102 => KeyCode::Colon,
            103 => KeyCode::Comma,
            104 => KeyCode::Convert,
            105 => KeyCode::NumpadDecimal,
            106 => KeyCode::NumpadDivide,
            107 => KeyCode::Equals,
            108 => KeyCode::Grave,
            109 => KeyCode::Kana,
            110 => KeyCode::Kanji,
            111 => KeyCode::LAlt,
            112 => KeyCode::LBracket,
            113 => KeyCode::LControl,
            114 => KeyCode::LShift,
            115 => KeyCode::LWin,
            116 => KeyCode::Mail,
            117 => KeyCode::MediaSelect,
            118 => KeyCode::MediaStop,
            119 => KeyCode::Minus,
            120 => KeyCode::NumpadMultiply,
            121 => KeyCode::Mute,
            122 => KeyCode::MyComputer,
            123 => KeyCode::NavigateForward,
            124 => KeyCode::NavigateBackward,
            125 => KeyCode::NextTrack,
            126 => KeyCode::NoConvert,
            127 => KeyCode::NumpadComma,
            128 => KeyCode::NumpadEnter,
            129 => KeyCode::NumpadEquals,
            130 => KeyCode::OEM102,
            131 => KeyCode::Period,
            132 => KeyCode::PlayPause,
            133 => KeyCode::Power,
            134 => KeyCode::PrevTrack,
            135 => KeyCode::RAlt,
            136 => KeyCode::RBracket,
            137 => KeyCode::RControl,
            138 => KeyCode::RShift,
            139 => KeyCode::RWin,
            140 => KeyCode::Semicolon,
            141 => KeyCode::Slash,
            142 => KeyCode::Sleep,
            143 => KeyCode::Stop,
            144 => KeyCode::NumpadSubtract,
            145 => KeyCode::Sysrq,
            146 => KeyCode::Tab,
            147 => KeyCode::Underline,
            148 => KeyCode::Unlabeled,
            149 => KeyCode::VolumeDown,
            150 => KeyCode::VolumeUp,
            151 => KeyCode::Wake,
            152 => KeyCode::WebBack,
            153 => KeyCode::WebFavorites,
            154 => KeyCode::WebForward,
            155 => KeyCode::WebHome,
            156 => KeyCode::WebRefresh,
            157 => KeyCode::WebSearch,
            158 => KeyCode::WebStop,
            159 => KeyCode::Yen,
            160 => KeyCode::Copy,
            161 => KeyCode::Paste,
            _ => KeyCode::Cut,
        }
    }
}

/// Every key stands in the list, at its place.
pub proof fn lemma_every_key_is_listed(k: KeyCode)
    ensures
        0 <= k.place_of() < KEY_COUNT,
        KeyCode::listed(k.place_of()) == k,
{
}

/// What tells the names apart: the length of a name, its first three
/// letters as far as it has them, and its last.
pub open spec fn name_mark(name: Seq<char>) -> (nat, char, char, char, char) {
    (
        name.len(),
        name[0],
        if name.len() > 1 {
            name[1]
        } else {
            ' '
        },
        if name.len() > 2 {
            name[2]
        } else {
            ' '
        },
        name[name.len() - 1],
    )
}

impl KeyCode {
    /// The mark of the name of the key.
    pub open spec fn mark_of(self) -> (nat, char, char, char, char) {
        match self {
            KeyCode::Key1 => (4, 'K', 'e', 'y', '1'),
            KeyCode::Key2 => (4, 'K', 'e', 'y', '2'),
            KeyCode::Key3 => (4, 'K', 'e', 'y', '3'),
            KeyCode::Key4 => (4, 'K', 'e', 'y', '4'),
            KeyCode::Key5 => (4, 'K', 'e', 'y', '5'),
            KeyCode::Key6 => (4, 'K', 'e', 'y', '6'),
            KeyCode::Key7 => (4, 'K', 'e', 'y', '7'),
            KeyCode::Key8 => (4, 'K', 'e', 'y', '8'),
            KeyCode::Key9 => (4, 'K', 'e', 'y', '9'),
            KeyCode::Key0 => (4, 'K', 'e', 'y', '0'),
            KeyCode::A => (1, 'A', ' ', ' ', 'A'),
            KeyCode::B => (1, 'B', ' ', ' ', 'B'),
            KeyCode::C => (1, 'C', ' ', ' ', 'C'),
            KeyCode::D => (1, 'D', ' ', ' ', 'D'),
            KeyCode::E => (1, 'E', ' ', ' ', 'E'),
            KeyCode::F => (1, 'F', ' ', ' ', 'F'),
            KeyCode::G => (1, 'G', ' ', ' ', 'G'),
            KeyCode::H => (1, 'H', ' ', ' ', 'H'),
            KeyCode::I => (1, 'I', ' ', ' ', 'I'),
            KeyCode::J => (1, 'J', ' ', ' ', 'J'),
            KeyCode::K => (1, 'K', ' ', ' ', 'K'),
            KeyCode::L => (1, 'L', ' ', ' ', 'L'),
            KeyCode::M => (1, 'M', ' ', ' ', 'M'),
            KeyCode::N => (1, 'N', ' ', ' ', 'N'),
            KeyCode::O => (1, 'O', ' ', ' ', 'O'),
            KeyCode::P => (1, 'P', ' ', ' ', 'P'),
            KeyCode::Q => (1, 'Q', ' ', ' ', 'Q'),
            KeyCode::R => (1, 'R', ' ', ' ', 'R'),
            KeyCode::S => (1, 'S', ' ', ' ', 'S'),
            KeyCode::T => (1, 'T', ' ', ' ', 'T'),
            KeyCode::U => (1, 'U', ' ', ' ', 'U'),
            KeyCode::V => (1, 'V', ' ', ' ', 'V'),
            KeyCode::W => (1, 'W', ' ', ' ', 'W'),
            KeyCode::X => (1, 'X', ' ', ' ', 'X'),
            KeyCode::Y => (1, 'Y', ' ', ' ', 'Y'),
            KeyCode::Z => (1, 'Z', ' ', ' ', 'Z'),
            KeyCode::Escape => (6, 'E', 's', 'c', 'e'),
            KeyCode::F1 => (2, 'F', '1', ' ', '1'),
            KeyCode::F2 => (2, 'F', '2', ' ', '2'),
            KeyCode::F3 => (2, 'F', '3', ' ', '3'),
            KeyCode::F4 => (2, 'F', '4', ' ', '4'),
            KeyCode::F5 => (2, 'F', '5', ' ', '5'),
            KeyCode::F6 => (2, 'F', '6', ' ', '6'),
            KeyCode::F7 => (2, 'F', '7', ' ', '7'),
            KeyCode::F8 => (2, 'F', '8', ' ', '8'),
            KeyCode::F9 => (2, 'F', '9', ' ', '9'),
            KeyCode::F10 => (3, 'F', '1', '0', '0'),
            KeyCode::F11 => (3, 'F', '1', '1', '1'),
            KeyCode::F12 => (3, 'F', '1', '2', '2'),
            KeyCode::F13 => (3, 'F', '1', '3', '3'),
            KeyCode::F14 => (3, 'F', '1', '4', '4'),
            KeyCode::F15 => (3, 'F', '1', '5', '5'),
            KeyCode::F16 => (3, 'F', '1', '6', '6'),
            KeyCode::F17 => (3, 'F', '1', '7', '7'),
            KeyCode::F18 => (3, 'F', '1', '8', '8'),
            KeyCode::F19 => (3, 'F', '1', '9', '9'),
            KeyCode::F20 => (3, 'F', '2', '0', '0'),
            KeyCode::F21 => (3, 'F', '2', '1', '1'),
            KeyCode::F22 => (3, 'F', '2', '2', '2'),
            KeyCode::F23 => (3, 'F', '2', '3', '3'),
            KeyCode::F24 => (3, 'F', '2', '4', '4'),
            KeyCode::Snapshot => (8, 'S', 'n', 'a', 't'),
            KeyCode::Scroll => (6, 'S', 'c', 'r', 'l'),
            KeyCode::Pause => (5, 'P', 'a', 'u', 'e'),
            KeyCode::Insert => (6, 'I', 'n', 's', 't'),
            KeyCode::Home => (4, 'H', 'o', 'm', 'e'),
            KeyCode::Delete => (6, 'D', 'e', 'l', 'e'),
            KeyCode::End => (3, 'E', 'n', 'd', 'd'),
            KeyCode::PageDown => (8, 'P', 'a', 'g', 'n'),
            KeyCode::PageUp => (6, 'P', 'a', 'g', 'p'),
            KeyCode::Left => (4, 'L', 'e', 'f', 't'),
            KeyCode::Up => (2, 'U', 'p', ' ', 'p'),
            KeyCode::Right => (5, 'R', 'i', 'g', 't'),
            KeyCode::Down => (4, 'D', 'o', 'w', 'n'),
            KeyCode::Back => (4, 'B', 'a', 'c', 'k'),
            KeyCode::Return => (6, 'R', 'e', 't', 'n'),
            KeyCode::Space => (5, 'S', 'p', 'a', 'e'),
            KeyCode::Compose => (7, 'C', 'o', 'm', 'e'),
            KeyCode::Caret => (5, 'C', 'a', 'r', 't'),
            KeyCode::Numlock => (7, 'N', 'u', 'm', 'k'),
            KeyCode::Numpad0 => (7, 'N', 'u', 'm', '0'),
            KeyCode::Numpad1 => (7, 'N', 'u', 'm', '1'),
            KeyCode::Numpad2 => (7, 'N', 'u', 'm', '2'),
            KeyCode::Numpad3 => (7, 'N', 'u', 'm', '3'),
            KeyCode::Numpad4 => (7, 'N', 'u', 'm', '4'),
            KeyCode::Numpad5 => (7, 'N', 'u', 'm', '5'),
            KeyCode::Numpad6 => (7, 'N', 'u', 'm', '6'),
            KeyCode::Numpad7 => (7, 'N', 'u', 'm', '7'),
            KeyCode::Numpad8 => (7, 'N', 'u', 'm', '8'),
            KeyCode::Numpad9 => (7, 'N', 'u', 'm', '9'),
            KeyCode::AbntC1 => (6, 'A', 'b', 'n', '1'),
            KeyCode::AbntC2 => (6, 'A', 'b', 'n', '2'),
            KeyCode::NumpadAdd => (9, 'N', 'u', 'm', 'd'),
            KeyCode::Apostrophe => (10, 'A', 'p', 'o', 'e'),
            KeyCode::Apps => (4, 'A', 'p', 'p', 's'),
            KeyCode::Asterix => (7, 'A', 's', 't', 'x'),
            KeyCode::Plus => (4, 'P', 'l', 'u', 's'),
            KeyCode::At => (2, 'A', 't', ' ', 't'),
            KeyCode::Ax => (2, 'A', 'x', ' ', 'x'),
            KeyCode::Backslash => (9, 'B', 'a', 'c', 'h'),
            KeyCode::Calculator => (10, 'C', 'a', 'l', 'r'),
            KeyCode::Capital => (7, 'C', 'a', 'p', 'l'),
            KeyCode::Colon => (5, 'C', 'o', 'l', 'n'),
            KeyCode::Comma => (5, 'C', 'o', 'm', 'a'),
            KeyCode::Convert => (7, 'C', 'o', 'n', 't'),
            KeyCode::NumpadDecimal => (13, 'N', 'u', 'm', 'l'),
            KeyCode::NumpadDivide => (12, 'N', 'u', 'm', 'e'),
            KeyCode::Equals => (6, 'E', 'q', 'u', 's'),
            KeyCode::Grave => (5, 'G', 'r', 'a', 'e'),
            KeyCode::Kana => (4, 'K', 'a', 'n', 'a'),
            KeyCode::Kanji => (5, 'K', 'a', 'n', 'i'),
            KeyCode::LAlt => (4, 'L', 'A', 'l', 't'),
            KeyCode::LBracket => (8, 'L', 'B', 'r', 't'),
            KeyCode::LControl => (8, 'L', 'C', 'o', 'l'),
            KeyCode::LShift => (6, 'L', 'S', 'h', 't'),
            KeyCode::LWin => (4, 'L', 'W', 'i', 'n'),
            KeyCode::Mail => (4, 'M', 'a', 'i', 'l'),
            KeyCode::MediaSelect => (11, 'M', 'e', 'd', 't'),
            KeyCode::MediaStop => (9, 'M', 'e', 'd', 'p'),
            KeyCode::Minus => (5, 'M', 'i', 'n', 's'),
            KeyCode::NumpadMultiply => (14, 'N', 'u', 'm', 'y'),
            KeyCode::Mute => (4, 'M', 'u', 't', 'e'),
            KeyCode::MyComputer => (10, 'M', 'y', 'C', 'r'),
            KeyCode::NavigateForward => (15, 'N', 'a', 'v', 'd'),
            KeyCode::NavigateBackward => (16, 'N', 'a', 'v', 'd'),
            KeyCode::NextTrack => (9, 'N', 'e', 'x', 'k'),
            KeyCode::NoConvert => (9, 'N', 'o', 'C', 't'),
            KeyCode::NumpadComma => (11, 'N', 'u', 'm', 'a'),
            KeyCode::NumpadEnter => (11, 'N', 'u', 'm', 'r'),
            KeyCode::NumpadEquals => (12, 'N', 'u', 'm', 's'),
            KeyCode::OEM102 => (6, 'O', 'E', 'M', '2'),
            KeyCode::Period => (6, 'P', 'e', 'r', 'd'),
            KeyCode::PlayPause => (9, 'P', 'l', 'a', 'e'),
            KeyCode::Power => (5, 'P', 'o', 'w', 'r'),
            KeyCode::PrevTrack => (9, 'P', 'r', 'e', 'k'),
            KeyCode::RAlt => (4, 'R', 'A', 'l', 't'),
            KeyCode::RBracket => (8, 'R', 'B', 'r', 't'),
            KeyCode::RControl => (8, 'R', 'C', 'o', 'l'),
            KeyCode::RShift => (6, 'R', 'S', 'h', 't'),
            KeyCode::RWin => (4, 'R', 'W', 'i', 'n'),
            KeyCode::Semicolon => (9, 'S', 'e', 'm', 'n'),
            KeyCode::Slash => (5, 'S', 'l', 'a', 'h'),
            KeyCode::Sleep => (5, 'S', 'l', 'e', 'p'),
            KeyCode::Stop => (4, 'S', 't', 'o', 'p'),
            KeyCode::NumpadSubtract => (14, 'N', 'u', 'm', 't'),
            KeyCode::Sysrq => (5, 'S', 'y', 's', 'q'),
            KeyCode::Tab => (3, 'T', 'a', 'b', 'b'),
            KeyCode::Underline => (9, 'U', 'n', 'd', 'e'),
            KeyCode::Unlabeled => (9, 'U', 'n', 'l', 'd'),
            KeyCode::VolumeDown => (10, 'V', 'o', 'l', 'n'),
            KeyCode::VolumeUp => (8, 'V', 'o', 'l', 'p'),
            KeyCode::Wake => (4, 'W', 'a', 'k', 'e'),
            KeyCode::WebBack => (7, 'W', 'e', 'b', 'k'),
            KeyCode::WebFavorites => (12, 'W', 'e', 'b', 's'),
            KeyCode::WebForward => (10, 'W', 'e', 'b', 'd'),
            KeyCode::WebHome => (7, 'W', 'e', 'b', 'e'),
            KeyCode::WebRefresh => (10, 'W', 'e', 'b', 'h'),
            KeyCode::WebSearch => (9, 'W', 'e', 'b', 'h'),
            KeyCode::WebStop => (7, 'W', 'e', 'b', 'p'),
            KeyCode::Yen => (3, 'Y', 'e', 'n', 'n'),
            KeyCode::Copy => (4, 'C', 'o', 'p', 'y'),
            KeyCode::Paste => (5, 'P', 'a', 's', 'e'),
            KeyCode::Cut => (3, 'C', 'u', 't', 't'),
        }
    }
}

proof fn lemma_name_marks(k: KeyCode)
    ensures
        name_mark(k.name_of()@) == k.mark_of(),
{
    reveal_strlit("Key1");
    reveal_strlit("Key2");
    reveal_strlit("Key3");
    reveal_strlit("Key4");
    reveal_strlit("Key5");
    reveal_strlit("Key6");
    reveal_strlit("Key7");
    reveal_strlit("Key8");
    reveal_strlit("Key9");
    reveal_strlit("Key0");
    reveal_strlit("A");
    reveal_strlit("B");
    reveal_strlit("C");
    reveal_strlit("D");
    reveal_strlit("E");
    reveal_strlit("F");
    reveal_strlit("G");
    reveal_strlit("H");
    reveal_strlit("I");
    reveal_strlit("J");
    reveal_strlit("K");
    reveal_strlit("L");
    reveal_strlit("M");
    reveal_strlit("N");
    reveal_strlit("O");
    reveal_strlit("P");
    reveal_strlit("Q");
    reveal_strlit("R");
    reveal_strlit("S");
    reveal_strlit("T");
    reveal_strlit("U");
    reveal_strlit("V");
    reveal_strlit("W");
    reveal_strlit("X");
    reveal_strlit("Y");
    reveal_strlit("Z");
    reveal_strlit("Escape");
    reveal_strlit("F1");
    reveal_strlit("F2");
    reveal_strlit("F3");
    reveal_strlit("F4");
    reveal_strlit("F5");
    reveal_strlit("F6");
    reveal_strlit("F7");
    reveal_strlit("F8");
    reveal_strlit("F9");
    reveal_strlit("F10");
    reveal_strlit("F11");
    reveal_strlit("F12");
    reveal_strlit("F13");
    reveal_strlit("F14");
    reveal_strlit("F15");
    reveal_strlit("F16");
    reveal_strlit("F17");
    reveal_strlit("F18");
    reveal_strlit("F19");
    reveal_strlit("F20");
    reveal_strlit("F21");
    reveal_strlit("F22");
    reveal_strlit("F23");
    reveal_strlit("F24");
    reveal_strlit("Snapshot");
    reveal_strlit("Scroll");
    reveal_strlit("Pause");
    reveal_strlit("Insert");
    reveal_strlit("Home");
    reveal_strlit("Delete");
    reveal_strlit("End");
    reveal_strlit("PageDown");
    reveal_strlit("PageUp");
    reveal_strlit("Left");
    reveal_strlit("Up");
    reveal_strlit("Right");
    reveal_strlit("Down");
    reveal_strlit("Back");
    reveal_strlit("Return");
    reveal_strlit("Space");
    reveal_strlit("Compose");
    reveal_strlit("Caret");
    reveal_strlit("Numlock");
    reveal_strlit("Numpad0");
    reveal_strlit("Numpad1");
    reveal_strlit("Numpad2");
    reveal_strlit("Numpad3");
    reveal_strlit("Numpad4");
    reveal_strlit("Numpad5");
    reveal_strlit("Numpad6");
    reveal_strlit("Numpad7");
    reveal_strlit("Numpad8");
    reveal_strlit("Numpad9");
    reveal_strlit("AbntC1");
    reveal_strlit("AbntC2");
    reveal_strlit("NumpadAdd");
    reveal_strlit("Apostrophe");
    reveal_strlit("Apps");
    reveal_strlit("Asterix");
    reveal_strlit("Plus");
    reveal_strlit("At");
    reveal_strlit("Ax");
    reveal_strlit("Backslash");
    reveal_strlit("Calculator");
    reveal_strlit("Capital");
    reveal_strlit("Colon");
    reveal_strlit("Comma");
    reveal_strlit("Convert");
    reveal_strlit("NumpadDecimal");
    reveal_strlit("NumpadDivide");
    reveal_strlit("Equals");
    reveal_strlit("Grave");
    reveal_strlit("Kana");
    reveal_strlit("Kanji");
    reveal_strlit("LAlt");
    reveal_strlit("LBracket");
    reveal_strlit("LControl");
    reveal_strlit("LShift");
    reveal_strlit("LWin");
    reveal_strlit("Mail");
    reveal_strlit("MediaSelect");
    reveal_strlit("MediaStop");
    reveal_strlit("Minus");
    reveal_strlit("NumpadMultiply");
    reveal_strlit("Mute");
    reveal_strlit("MyComputer");
    reveal_strlit("NavigateForward");
    reveal_strlit("NavigateBackward");
    reveal_strlit("NextTrack");
    reveal_strlit("NoConvert");
    reveal_strlit("NumpadComma");
    reveal_strlit("NumpadEnter");
    reveal_strlit("NumpadEquals");
    reveal_strlit("OEM102");
    reveal_strlit("Period");
    reveal_strlit("PlayPause");
    reveal_strlit("Power");
    reveal_strlit("PrevTrack");
    reveal_strlit("RAlt");
    reveal_strlit("RBracket");
    reveal_strlit("RControl");
    reveal_strlit("RShift");
    reveal_strlit("RWin");
    reveal_strlit("Semicolon");
    reveal_strlit("Slash");
    reveal_strlit("Sleep");
    reveal_strlit("Stop");
    reveal_strlit("NumpadSubtract");
    reveal_strlit("Sysrq");
    reveal_strlit("Tab");
    reveal_strlit("Underline");
    reveal_strlit("Unlabeled");
    reveal_strlit("VolumeDown");
    reveal_strlit("VolumeUp");
    reveal_strlit("Wake");
    reveal_strlit("WebBack");
    reveal_strlit("WebFavorites");
    reveal_strlit("WebForward");
    reveal_strlit("WebHome");
    reveal_strlit("WebRefresh");
    reveal_strlit("WebSearch");
    reveal_strlit("WebStop");
    reveal_strlit("Yen");
    reveal_strlit("Copy");
    reveal_strlit("Paste");
    reveal_strlit("Cut");
}

/// No two keys have the same name.
pub proof fn lemma_names_differ(a: KeyCode, b: KeyCode)
    requires
        a != b,
    ensures
        a.name_of()@ != b.name_of()@,
{
    lemma_name_marks(a);
    lemma_name_marks(b);
}

/// The first key from place `from` of the list on whose name is `name`.
pub open spec fn key_named_from(name: Seq<char>, from: int) -> Option<KeyCode>
    decreases KEY_COUNT - from,
{
    if from >= KEY_COUNT {
        None
    } else if from >= 0 && KeyCode::listed(from).name_of()@ == name {
        Some(KeyCode::listed(from))
    } else {
        key_named_from(name, from + 1)
    }
}

/// The key whose name is `name`, if there is one.
pub open spec fn key_named(name: Seq<char>) -> Option<KeyCode> {
    key_named_from(name, 0)
}

proof fn lemma_key_named_from(name: Seq<char>, from: int)
    requires
        0 <= from,
    ensures
        match key_named_from(name, from) {
            Some(k) => k.name_of()@ == name,
            None => forall|i: int| from <= i < KEY_COUNT ==> KeyCode::listed(i).name_of()@ != name,
        },
    decreases KEY_COUNT - from,
{
    if from < KEY_COUNT && KeyCode::listed(from).name_of()@ != name {
        lemma_key_named_from(name, from + 1);
    }
}

/// The key that is found for a name has that name, and where none is found
/// no key has it.
pub proof fn lemma_key_named(name: Seq<char>)
    ensures
        match key_named(name) {
            Some(k) => k.name_of()@ == name,
            None => forall|k: KeyCode| k.name_of()@ != name,
        },
{
    lemma_key_named_from(name, 0);
    if key_named(name).is_none() {
        assert forall|k: KeyCode| k.name_of()@ != name by {
            lemma_every_key_is_listed(k);
        }
    }
}

/// A name stands for the one key that has it.
pub proof fn lemma_key_named_is_the_key(k: KeyCode)
    ensures
        key_named(k.name_of()@) == Some(k),
{
    lemma_key_named(k.name_of()@);
    let found = key_named(k.name_of()@);
    if found.is_some() && found.unwrap() != k {
        lemma_names_differ(found.unwrap(), k);
    }
}

/// Why a binding could not be read.
#[derive(Clone, Debug)]
pub enum KeybindError {
    /// The text is not the name of a key.
    UnknownKey(String),
    /// The list ended after the first number of names; the action takes the
    /// second number of keys.
    InvalidLength(usize, usize),
    /// A single name stands where a list of this many names is needed.
    NotAList(usize),
}

/// The character that stands for a digit.
pub open spec fn digit_of(d: nat) -> char {
    if d == 0 {
        '0'
    } else if d == 1 {
        '1'
    } else if d == 2 {
        '2'
    } else if d == 3 {
        '3'
    } else if d == 4 {
        '4'
    } else if d == 5 {
        '5'
    } else if d == 6 {
        '6'
    } else if d == 7 {
        '7'
    } else if d == 8 {
        '8'
    } else {
        '9'
    }
}

/// A number written in decimal digits, without leading zeros.
pub open spec fn decimal_of(n: nat) -> Seq<char>
    decreases n,
{
    if n < 10 {
        seq![digit_of(n)]
    } else {
        decimal_of(n / 10).push(digit_of(n % 10))
    }
}

/// What a reader of bindings says it expects for an action of `n` keys.
pub open spec fn expecting_of(n: nat) -> Seq<char> {
    "sequence of "@ + decimal_of(n) + " keybinds"@
}

fn digit_text(d: usize) -> (r: &'static str)
    requires
        d < 10,
    ensures
        r@ == seq![digit_of(d as nat)],
{
    proof {
        reveal_strlit("0");
        reveal_strlit("1");
        reveal_strlit("2");
        reveal_strlit("3");
        reveal_strlit("4");
        reveal_strlit("5");
        reveal_strlit("6");
        reveal_strlit("7");
        reveal_strlit("8");
        reveal_strlit("9");
    }
    let r = if d == 0 {
        "0"
    } else if d == 1 {
        "1"
    } else if d == 2 {
        "2"
    } else if d == 3 {
        "3"
    } else if d == 4 {
        "4"
    } else if d == 5 {
        "5"
    } else if d == 6 {
        "6"
    } else if d == 7 {
        "7"
    } else if d == 8 {
        "8"
    } else {
        "9"
    };
    assert(r@ =~= seq![digit_of(d as nat)]);
    r
}

fn push_decimal(out: &mut String, n: usize)
    ensures
        final(out)@ == old(out)@ + decimal_of(n as nat),
    decreases n,
{
    if n >= 10 {
        push_decimal(out, n / 10);
    }
    out.append(digit_text(n % 10));
    assert(out@ =~= old(out)@ + decimal_of(n as nat));
}

/// What a reader of bindings says it expects for an action of `n` keys: the
/// words "sequence of", the number and the word "keybinds".
pub fn expecting(n: usize) -> (r: String)
    ensures
        r@ == expecting_of(n as nat),
{
    let mut out = String::from_str("sequence of ");
    push_decimal(&mut out, n);
    out.append(" keybinds");
    out
}

impl KeybindError {
    /// The sentence that tells a user what is wrong with the binding.
    pub open spec fn message_of(self) -> Seq<char> {
        match self {
            KeybindError::UnknownKey(name) => name@ + " is not the name of a valid key"@,
            KeybindError::InvalidLength(found, expected) => "invalid length "@ + decimal_of(
                found as nat,
            ) + ", expected "@ + expecting_of(expected as nat),
            KeybindError::NotAList(n) => "This field should be a list of "@ + decimal_of(n as nat)
                + " binds, not a single bind"@,
        }
    }

    /// The sentence that tells a user what is wrong with the binding: that a
    /// text names no key, that a list has fewer names than the action takes
    /// keys, or that one name stands where a list is needed.
    pub fn message(&self) -> (r: String)
        ensures
            r@ == self.message_of(),
    {
        match self {
            KeybindError::UnknownKey(name) => {
                let mut out = name.clone();
                out.append(" is not the name of a valid key");
                out
            },
            KeybindError::InvalidLength(found, expected) => {
                let mut out = String::from_str("invalid length ");
                push_decimal(&mut out, *found);
                out.append(", expected ");
                out.append("sequence of ");
                push_decimal(&mut out, *expected);
                out.append(" keybinds");
                assert(out@ =~= self.message_of());
                out
            },
            KeybindError::NotAList(n) => {
                let mut out = String::from_str("This field should be a list of ");
                push_decimal(&mut out, *n);
                out.append(" binds, not a single bind");
                out
            },
        }
    }
}

/// What a configuration binds to an action.
#[derive(Clone, Debug)]
pub enum Binding {
    /// The name of one key.
    Name(String),
    /// The names of several keys, in order.
    List(Vec<String>),
}

/// What reading a binding comes to.
pub enum Reading {
    /// The keys that the names stand for.
    Keys(Seq<KeyCode>),
    /// The name at this place of the list is not the name of a key.
    Unknown(int),
    /// The list ended at this place.
    TooShort(int),
    /// A single name was given for several keys.
    NotAList,
}

/// Reads the names of a list from place `i` on, until `n` keys are read;
/// `keys` are the keys read before.
pub open spec fn list_reading_from(names: Seq<String>, n: int, i: int, keys: Seq<KeyCode>)
    -> Reading
    decreases n - i,
{
    if i >= n {
        Reading::Keys(keys)
    } else if i < 0 || i >= names.len() {
        Reading::TooShort(i)
    } else {
        match key_named(names[i]@) {
            None => Reading::Unknown(i),
            Some(k) => list_reading_from(names, n, i + 1, keys.push(k)),
        }
    }
}

/// What reading `value` as the binding of an action with `n` keys comes to.
/// A list gives its first `n` names, each of which has to name a key. A
/// single name is a binding for one key only.
pub open spec fn reading_of(value: Binding, n: int) -> Reading {
    match value {
        Binding::Name(name) => if n != 1 {
            Reading::NotAList
        } else {
            match key_named(name@) {
                None => Reading::Unknown(0),
                Some(k) => Reading::Keys(seq![k]),
            }
        },
        Binding::List(names) => list_reading_from(names@, n, 0, Seq::empty()),
    }
}

/// The name that a failed reading of `value` complains about.
pub open spec fn name_at(value: Binding, i: int) -> Seq<char> {
    match value {
        Binding::Name(name) => name@,
        Binding::List(names) => names[i]@,
    }
}

/// Whether `r` is what the reading `reading` of `value`, as the binding of
/// an action with `n` keys, gives. An error holds what it complains about:
/// the name, or the numbers of names found and needed.
pub open spec fn gives(
    value: Binding,
    n: int,
    reading: Reading,
    r: Result<Vec<KeyCode>, KeybindError>,
) -> bool {
    match reading {
        Reading::Keys(keys) => r matches Ok(v) && v@ == keys,
        Reading::Unknown(i) => r matches Err(KeybindError::UnknownKey(name)) && name@ == name_at(
            value,
            i,
        ),
        Reading::TooShort(i) => r matches Err(KeybindError::InvalidLength(found, expected))
            && found == i && expected == n,
        Reading::NotAList => r matches Err(KeybindError::NotAList(k)) && k == n,
    }
}

/// Whether `e` is the error that reading `value`, as the binding of an
/// action with `n` keys, ends in. No error is that of a binding that can be
/// read.
pub open spec fn complains(value: Binding, n: int, e: KeybindError) -> bool {
    !(reading_of(value, n) is Keys) && gives(value, n, reading_of(value, n), Err(e))
}

fn same_bytes(a: &[u8], b: &[u8]) -> (r: bool)
    ensures
        r == (a@ == b@),
{
    if a.len() != b.len() {
        return false;
    }
    let mut i: usize = 0;
    while i < a.len()
        invariant
            a@.len() == b@.len(),
            i <= a@.len(),
            forall|j: int| 0 <= j < i ==> a@[j] == b@[j],
        decreases a@.len() - i,
    {
        if a[i] != b[i] {
            return false;
        }
        i = i + 1;
    }
    assert(a@ =~= b@);
    true
}

fn same_text(a: &str, b: &str) -> (r: bool)
    ensures
        r == (a@ == b@),
{
    proof {
        encode_utf8_decode_utf8(a@);
        encode_utf8_decode_utf8(b@);
    }
    same_bytes(a.as_bytes(), b.as_bytes())
}

/// The key that the name `s` stands for. Names are matched letter for
/// letter, upper and lower case apart.
pub fn str_to_keybind(s: &str) -> (r: Result<KeyCode, KeybindError>)
    ensures
        match key_named(s@) {
            Some(k) => r matches Ok(found) && found == k,
            None => r matches Err(KeybindError::UnknownKey(name)) && name@ == s@,
        },
        r matches Ok(k) ==> k.name_of()@ == s@,
        r is Err <==> (forall|k: KeyCode| k.name_of()@ != s@),
{
    proof {
        lemma_key_named(s@);
    }
    let mut i: usize = 0;
    while i < KEY_COUNT
        invariant
            i <= KEY_COUNT,
            key_named(s@) == key_named_from(s@, i as int),
        decreases KEY_COUNT - i,
    {
        let k = KeyCode::nth(i);
        if same_text(k.name(), s) {
            return Ok(k);
        }
        i = i + 1;
    }
    Err(KeybindError::UnknownKey(s.to_owned()))
}

/// Reads the binding of an action that takes `n` keys. Of a list the first
/// `n` names are read, in order, and reading stops at the first that names no
/// key or at the end of a list that is too short. A single name binds one
/// key: for an action with any other number of keys it is refused.
pub fn keybind_list(value: &Binding, n: usize) -> (r: Result<Vec<KeyCode>, KeybindError>)
    ensures
        gives(*value, n as int, reading_of(*value, n as int), r),
{
    match value {
        Binding::Name(name) => {
            if n != 1 {
                return Err(KeybindError::NotAList(n));
            }
            match str_to_keybind(name.as_str()) {
                Ok(k) => {
                    let mut keys: Vec<KeyCode> = Vec::new();
                    keys.push(k);
                    assert(keys@ =~= seq![k]);
                    Ok(keys)
                },
                Err(e) => Err(e),
            }
        },
        Binding::List(names) => {
            let mut keys: Vec<KeyCode> = Vec::new();
            let mut i: usize = 0;
            while i < n
                invariant
                    i <= n,
                    reading_of(*value, n as int) == list_reading_from(
                        names@,
                        n as int,
                        i as int,
                        keys@,
                    ),
                    *value == Binding::List(*names),
                decreases n - i,
            {
                if i >= names.len() {
                    return Err(KeybindError::InvalidLength(i, n));
                }
                match str_to_keybind(names[i].as_str()) {
                    Ok(k) => {
                        keys.push(k);
                    },
                    Err(e) => {
                        return Err(e);
                    },
                }
                i = i + 1;
            }
            Ok(keys)
        },
    }
}

/// What `keybind` returns for a given reading of one key.
pub open spec fn gives_one(value: Binding, reading: Reading, r: Result<KeyCode, KeybindError>)
    -> bool {
    match reading {
        Reading::Keys(keys) => r matches Ok(k) && keys.len() == 1 && k == keys[0],
        Reading::Unknown(i) => r matches Err(KeybindError::UnknownKey(name)) && name@ == name_at(
            value,
            i,
        ),
        Reading::TooShort(i) => r matches Err(KeybindError::InvalidLength(found, expected))
            && found == i && expected == 1,
        Reading::NotAList => r matches Err(KeybindError::NotAList(k)) && k == 1,
    }
}

proof fn lemma_reading_length(names: Seq<String>, n: int, i: int, keys: Seq<KeyCode>)
    requires
        0 <= i <= n,
        keys.len() == i,
    ensures
        list_reading_from(names, n, i, keys) matches Reading::Keys(all) ==> all.len() == n,
    decreases n - i,
{
    if i < n && i < names.len() {
        match key_named(names[i]@) {
            None => {},
            Some(k) => {
                lemma_reading_length(names, n, i + 1, keys.push(k));
            },
        }
    }
}

/// A binding that can be read gives as many keys as the action takes.
pub proof fn lemma_reading_has_all(value: Binding, n: int)
    requires
        0 <= n,
    ensures
        reading_of(value, n) matches Reading::Keys(keys) ==> keys.len() == n,
{
    if let Binding::List(names) = value {
        lemma_reading_length(names@, n, 0, Seq::empty());
    }
}

/// Reads the binding of an action that takes one key: the name of the key,
/// or a list that starts with it.
pub fn keybind(value: &Binding) -> (r: Result<KeyCode, KeybindError>)
    ensures
        gives_one(*value, reading_of(*value, 1), r),
{
    proof {
        lemma_reading_has_all(*value, 1);
    }
    match keybind_list(value, 1) {
        Ok(keys) => Ok(keys[0]),
        Err(e) => Err(e),
    }
}

} // verus!
