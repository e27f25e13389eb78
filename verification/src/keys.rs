//! Hardware keys, the tokens that stand for them, and their names.

use crate::text::lex_le;
use vstd::prelude::*;

verus! {

/// A physical key as the keyboard hook reports it.
#[derive(Clone, Copy, Debug, PartialEq, Eq, Structural)]
pub enum Key {
    Alt,
    AltGr,
    Backspace,
    CapsLock,
    ControlLeft,
    ControlRight,
    Delete,
    DownArrow,
    End,
    Escape,
    F1,
    F10,
    F11,
    F12,
    F2,
    F3,
    F4,
    F5,
    F6,
    F7,
    F8,
    F9,
    Home,
    LeftArrow,
    MetaLeft,
    MetaRight,
    PageDown,
    PageUp,
    Return,
    RightArrow,
    ShiftLeft,
    ShiftRight,
    Space,
    Tab,
    UpArrow,
    PrintScreen,
    ScrollLock,
    Pause,
    NumLock,
    BackQuote,
    Num1,
    Num2,
    Num3,
    Num4,
    Num5,
    Num6,
    Num7,
    Num8,
    Num9,
    Num0,
    Minus,
    Equal,
    KeyQ,
    KeyW,
    KeyE,
    KeyR,
    KeyT,
    KeyY,
    KeyU,
    KeyI,
    KeyO,
    KeyP,
    LeftBracket,
    RightBracket,
    KeyA,
    KeyS,
    KeyD,
    KeyF,
    KeyG,
    KeyH,
    KeyJ,
    KeyK,
    KeyL,
    SemiColon,
    Quote,
    BackSlash,
    IntlBackslash,
    KeyZ,
    KeyX,
    KeyC,
    KeyV,
    KeyB,
    KeyN,
    KeyM,
    Comma,
    Dot,
    Slash,
    Insert,
    KpReturn,
    KpMinus,
    KpPlus,
    KpMultiply,
    KpDivide,
    Kp0,
    Kp1,
    Kp2,
    Kp3,
    Kp4,
    Kp5,
    Kp6,
    Kp7,
    Kp8,
    Kp9,
    KpDelete,
    Function,
    /// A key that the hook could not identify, with its raw code.
    Unknown(u32),
}

/// The canonical token of a key. The left and right keys of a modifier share
/// one token.
#[derive(Clone, Copy, Debug, PartialEq, Eq, Structural)]
pub enum KeyToken {
    A,
    B,
    C,
    D,
    E,
    F,
    G,
    H,
    I,
    J,
    K,
    L,
    M,
    N,
    O,
    P,
    Q,
    R,
    S,
    T,
    U,
    V,
    W,
    X,
    Y,
    Z,
    Digit0,
    Digit1,
    Digit2,
    Digit3,
    Digit4,
    Digit5,
    Digit6,
    Digit7,
    Digit8,
    Digit9,
    F1,
    F2,
    F3,
    F4,
    F5,
    F6,
    F7,
    F8,
    F9,
    F10,
    F11,
    F12,
    Numpad0,
    Numpad1,
    Numpad2,
    Numpad3,
    Numpad4,
    Numpad5,
    Numpad6,
    Numpad7,
    Numpad8,
    Numpad9,
    NumpadMinus,
    NumpadPlus,
    NumpadMultiply,
    NumpadDivide,
    Space,
    Enter,
    Escape,
    Backspace,
    Tab,
    Delete,
    Insert,
    Home,
    End,
    PageUp,
    PageDown,
    ArrowUp,
    ArrowDown,
    ArrowLeft,
    ArrowRight,
    Minus,
    Equal,
    LeftBracket,
    RightBracket,
    Backslash,
    Semicolon,
    Quote,
    Comma,
    Dot,
    Slash,
    Backquote,
    Ctrl,
    Shift,
    Alt,
    Meta,
}

/// The token of a hardware key, if it has one.
pub open spec fn token_of(key: Key) -> Option<KeyToken> {
    match key {
        Key::KeyA => Some(KeyToken::A),
        Key::KeyB => Some(KeyToken::B),
        Key::KeyC => Some(KeyToken::C),
        Key::KeyD => Some(KeyToken::D),
        Key::KeyE => Some(KeyToken::E),
        Key::KeyF => Some(KeyToken::F),
        Key::KeyG => Some(KeyToken::G),
        Key::KeyH => Some(KeyToken::H),
        Key::KeyI => Some(KeyToken::I),
        Key::KeyJ => Some(KeyToken::J),
        Key::KeyK => Some(KeyToken::K),
        Key::KeyL => Some(KeyToken::L),
        Key::KeyM => Some(KeyToken::M),
        Key::KeyN => Some(KeyToken::N),
        Key::KeyO => Some(KeyToken::O),
        Key::KeyP => Some(KeyToken::P),
        Key::KeyQ => Some(KeyToken::Q),
        Key::KeyR => Some(KeyToken::R),
        Key::KeyS => Some(KeyToken::S),
        Key::KeyT => Some(KeyToken::T),
        Key::KeyU => Some(KeyToken::U),
        Key::KeyV => Some(KeyToken::V),
        Key::KeyW => Some(KeyToken::W),
        Key::KeyX => Some(KeyToken::X),
        Key::KeyY => Some(KeyToken::Y),
        Key::KeyZ => Some(KeyToken::Z),
        Key::Num0 => Some(KeyToken::Digit0),
        Key::Num1 => Some(KeyToken::Digit1),
        Key::Num2 => Some(KeyToken::Digit2),
        Key::Num3 => Some(KeyToken::Digit3),
        Key::Num4 => Some(KeyToken::Digit4),
        Key::Num5 => Some(KeyToken::Digit5),
        Key::Num6 => Some(KeyToken::Digit6),
        Key::Num7 => Some(KeyToken::Digit7),
        Key::Num8 => Some(KeyToken::Digit8),
        Key::Num9 => Some(KeyToken::Digit9),
        Key::F1 => Some(KeyToken::F1),
        Key::F2 => Some(KeyToken::F2),
        Key::F3 => Some(KeyToken::F3),
        Key::F4 => Some(KeyToken::F4),
        Key::F5 => Some(KeyToken::F5),
        Key::F6 => Some(KeyToken::F6),
        Key::F7 => Some(KeyToken::F7),
        Key::F8 => Some(KeyToken::F8),
        Key::F9 => Some(KeyToken::F9),
        Key::F10 => Some(KeyToken::F10),
        Key::F11 => Some(KeyToken::F11),
        Key::F12 => Some(KeyToken::F12),
        Key::Kp0 => Some(KeyToken::Numpad0),
        Key::Kp1 => Some(KeyToken::Numpad1),
        Key::Kp2 => Some(KeyToken::Numpad2),
        Key::Kp3 => Some(KeyToken::Numpad3),
        Key::Kp4 => Some(KeyToken::Numpad4),
        Key::Kp5 => Some(KeyToken::Numpad5),
        Key::Kp6 => Some(KeyToken::Numpad6),
        Key::Kp7 => Some(KeyToken::Numpad7),
        Key::Kp8 => Some(KeyToken::Numpad8),
        Key::Kp9 => Some(KeyToken::Numpad9),
        Key::KpMinus => Some(KeyToken::NumpadMinus),
        Key::KpPlus => Some(KeyToken::NumpadPlus),
        Key::KpMultiply => Some(KeyToken::NumpadMultiply),
        Key::KpDivide => Some(KeyToken::NumpadDivide),
        Key::Space => Some(KeyToken::Space),
        Key::Return => Some(KeyToken::Enter),
        Key::Escape => Some(KeyToken::Escape),
        Key::Backspace => Some(KeyToken::Backspace),
        Key::Tab => Some(KeyToken::Tab),
        Key::Delete => Some(KeyToken::Delete),
        Key::Insert => Some(KeyToken::Insert),
        Key::Home => Some(KeyToken::Home),
        Key::End => Some(KeyToken::End),
        Key::PageUp => Some(KeyToken::PageUp),
        Key::PageDown => Some(KeyToken::PageDown),
        Key::UpArrow => Some(KeyToken::ArrowUp),
        Key::DownArrow => Some(KeyToken::ArrowDown),
        Key::LeftArrow => Some(KeyToken::ArrowLeft),
        Key::RightArrow => Some(KeyToken::ArrowRight),
        Key::Minus => Some(KeyToken::Minus),
        Key::Equal => Some(KeyToken::Equal),
        Key::LeftBracket => Some(KeyToken::LeftBracket),
        Key::RightBracket => Some(KeyToken::RightBracket),
        Key::BackSlash => Some(KeyToken::Backslash),
        Key::SemiColon => Some(KeyToken::Semicolon),
        Key::Quote => Some(KeyToken::Quote),
        Key::Comma => Some(KeyToken::Comma),
        Key::Dot => Some(KeyToken::Dot),
        Key::Slash => Some(KeyToken::Slash),
        Key::BackQuote => Some(KeyToken::Backquote),
        Key::ControlLeft | Key::ControlRight => Some(KeyToken::Ctrl),
        Key::ShiftLeft | Key::ShiftRight => Some(KeyToken::Shift),
        Key::Alt | Key::AltGr => Some(KeyToken::Alt),
        Key::MetaLeft | Key::MetaRight => Some(KeyToken::Meta),
        _ => None,
    }
}

/// The name of a token.
pub open spec fn token_name(token: KeyToken) -> Seq<char> {
    match token {
        KeyToken::A => "A"@,
        KeyToken::B => "B"@,
        KeyToken::C => "C"@,
        KeyToken::D => "D"@,
        KeyToken::E => "E"@,
        KeyToken::F => "F"@,
        KeyToken::G => "G"@,
        KeyToken::H => "H"@,
        KeyToken::I => "I"@,
        KeyToken::J => "J"@,
        KeyToken::K => "K"@,
        KeyToken::L => "L"@,
        KeyToken::M => "M"@,
        KeyToken::N => "N"@,
        KeyToken::O => "O"@,
        KeyToken::P => "P"@,
        KeyToken::Q => "Q"@,
        KeyToken::R => "R"@,
        KeyToken::S => "S"@,
        KeyToken::T => "T"@,
        KeyToken::U => "U"@,
        KeyToken::V => "V"@,
        KeyToken::W => "W"@,
        KeyToken::X => "X"@,
        KeyToken::Y => "Y"@,
        KeyToken::Z => "Z"@,
        KeyToken::Digit0 => "0"@,
        KeyToken::Digit1 => "1"@,
        KeyToken::Digit2 => "2"@,
        KeyToken::Digit3 => "3"@,
        KeyToken::Digit4 => "4"@,
        KeyToken::Digit5 => "5"@,
        KeyToken::Digit6 => "6"@,
        KeyToken::Digit7 => "7"@,
        KeyToken::Digit8 => "8"@,
        KeyToken::Digit9 => "9"@,
        KeyToken::F1 => "F1"@,
        KeyToken::F2 => "F2"@,
        KeyToken::F3 => "F3"@,
        KeyToken::F4 => "F4"@,
        KeyToken::F5 => "F5"@,
        KeyToken::F6 => "F6"@,
        KeyToken::F7 => "F7"@,
        KeyToken::F8 => "F8"@,
        KeyToken::F9 => "F9"@,
        KeyToken::F10 => "F10"@,
        KeyToken::F11 => "F11"@,
        KeyToken::F12 => "F12"@,
        KeyToken::Numpad0 => "NUMPAD0"@,
        KeyToken::Numpad1 => "NUMPAD1"@,
        KeyToken::Numpad2 => "NUMPAD2"@,
        KeyToken::Numpad3 => "NUMPAD3"@,
        KeyToken::Numpad4 => "NUMPAD4"@,
        KeyToken::Numpad5 => "NUMPAD5"@,
        KeyToken::Numpad6 => "NUMPAD6"@,
        KeyToken::Numpad7 => "NUMPAD7"@,
        KeyToken::Numpad8 => "NUMPAD8"@,
        KeyToken::Numpad9 => "NUMPAD9"@,
        KeyToken::NumpadMinus => "NUMPAD-"@,
        KeyToken::NumpadPlus => "NUMPAD+"@,
        KeyToken::NumpadMultiply => "NUMPAD*"@,
        KeyToken::NumpadDivide => "NUMPAD/"@,
        KeyToken::Space => "SPACE"@,
        KeyToken::Enter => "ENTER"@,
        KeyToken::Escape => "ESCAPE"@,
        KeyToken::Backspace => "BACKSPACE"@,
        KeyToken::Tab => "TAB"@,
        KeyToken::Delete => "DELETE"@,
        KeyToken::Insert => "INSERT"@,
        KeyToken::Home => "HOME"@,
        KeyToken::End => "END"@,
        KeyToken::PageUp => "PAGEUP"@,
        KeyToken::PageDown => "PAGEDOWN"@,
        KeyToken::ArrowUp => "ARROWUP"@,
        KeyToken::ArrowDown => "ARROWDOWN"@,
        KeyToken::ArrowLeft => "ARROWLEFT"@,
        KeyToken::ArrowRight => "ARROWRIGHT"@,
        KeyToken::Minus => "-"@,
        KeyToken::Equal => "="@,
        KeyToken::LeftBracket => "["@,
        KeyToken::RightBracket => "]"@,
        KeyToken::Backslash => "\\"@,
        KeyToken::Semicolon => ";"@,
        KeyToken::Quote => "'"@,
        KeyToken::Comma => ","@,
        KeyToken::Dot => "."@,
        KeyToken::Slash => "/"@,
        KeyToken::Backquote => "`"@,
        KeyToken::Ctrl => "CTRL"@,
        KeyToken::Shift => "SHIFT"@,
        KeyToken::Alt => "ALT"@,
        KeyToken::Meta => "META"@,
    }
}

/// Whether a token is one of the four modifiers.
pub open spec fn is_modifier(token: KeyToken) -> bool {
    token == KeyToken::Ctrl || token == KeyToken::Shift || token == KeyToken::Alt || token
        == KeyToken::Meta
}

/// How a token is written inside a chord: a modifier by its label, any other
/// key by its name.
pub open spec fn token_label(token: KeyToken) -> Seq<char> {
    match token {
        KeyToken::Ctrl => "Ctrl"@,
        KeyToken::Shift => "Shift"@,
        KeyToken::Alt => "Alt"@,
        KeyToken::Meta => "Meta"@,
        _ => token_name(token),
    }
}

/// The name under which a hardware key is tracked, if it is tracked at all.
pub open spec fn key_name(key: Key) -> Option<Seq<char>> {
    match token_of(key) {
        Some(token) => Some(token_name(token)),
        None => None,
    }
}

impl Key {
    /// The token of this key; `None` for a key that is not tracked.
    pub fn token(self) -> (r: Option<KeyToken>)
        ensures
            r == token_of(self),
    {
        match self {
            Key::KeyA => Some(KeyToken::A),
            Key::KeyB => Some(KeyToken::B),
            Key::KeyC => Some(KeyToken::C),
            Key::KeyD => Some(KeyToken::D),
            Key::KeyE => Some(KeyToken::E),
            Key::KeyF => Some(KeyToken::F),
            Key::KeyG => Some(KeyToken::G),
            Key::KeyH => Some(KeyToken::H),
            Key::KeyI => Some(KeyToken::I),
            Key::KeyJ => Some(KeyToken::J),
            Key::KeyK => Some(KeyToken::K),
            Key::KeyL => Some(KeyToken::L),
            Key::KeyM => Some(KeyToken::M),
            Key::KeyN => Some(KeyToken::N),
            Key::KeyO => Some(KeyToken::O),
            Key::KeyP => Some(KeyToken::P),
            Key::KeyQ => Some(KeyToken::Q),
            Key::KeyR => Some(KeyToken::R),
            Key::KeyS => Some(KeyToken::S),
            Key::KeyT => Some(KeyToken::T),
            Key::KeyU => Some(KeyToken::U),
            Key::KeyV => Some(KeyToken::V),
            Key::KeyW => Some(KeyToken::W),
            Key::KeyX => Some(KeyToken::X),
            Key::KeyY => Some(KeyToken::Y),
            Key::KeyZ => Some(KeyToken::Z),
            Key::Num0 => Some(KeyToken::Digit0),
            Key::Num1 => Some(KeyToken::Digit1),
            Key::Num2 => Some(KeyToken::Digit2),
            Key::Num3 => Some(KeyToken::Digit3),
            Key::Num4 => Some(KeyToken::Digit4),
            Key::Num5 => Some(KeyToken::Digit5),
            Key::Num6 => Some(KeyToken::Digit6),
            Key::Num7 => Some(KeyToken::Digit7),
            Key::Num8 => Some(KeyToken::Digit8),
            Key::Num9 => Some(KeyToken::Digit9),
            Key::F1 => Some(KeyToken::F1),
            Key::F2 => Some(KeyToken::F2),
            Key::F3 => Some(KeyToken::F3),
            Key::F4 => Some(KeyToken::F4),
            Key::F5 => Some(KeyToken::F5),
            Key::F6 => Some(KeyToken::F6),
            Key::F7 => Some(KeyToken::F7),
            Key::F8 => Some(KeyToken::F8),
            Key::F9 => Some(KeyToken::F9),
            Key::F10 => Some(KeyToken::F10),
            Key::F11 => Some(KeyToken::F11),
            Key::F12 => Some(KeyToken::F12),
            Key::Kp0 => Some(KeyToken::Numpad0),
            Key::Kp1 => Some(KeyToken::Numpad1),
            Key::Kp2 => Some(KeyToken::Numpad2),
            Key::Kp3 => Some(KeyToken::Numpad3),
            Key::Kp4 => Some(KeyToken::Numpad4),
            Key::Kp5 => Some(KeyToken::Numpad5),
            Key::Kp6 => Some(KeyToken::Numpad6),
            Key::Kp7 => Some(KeyToken::Numpad7),
            Key::Kp8 => Some(KeyToken::Numpad8),
            Key::Kp9 => Some(KeyToken::Numpad9),
            Key::KpMinus => Some(KeyToken::NumpadMinus),
            Key::KpPlus => Some(KeyToken::NumpadPlus),
            Key::KpMultiply => Some(KeyToken::NumpadMultiply),
            Key::KpDivide => Some(KeyToken::NumpadDivide),
            Key::Space => Some(KeyToken::Space),
            Key::Return => Some(KeyToken::Enter),
            Key::Escape => Some(KeyToken::Escape),
            Key::Backspace => Some(KeyToken::Backspace),
            Key::Tab => Some(KeyToken::Tab),
            Key::Delete => Some(KeyToken::Delete),
            Key::Insert => Some(KeyToken::Insert),
            Key::Home => Some(KeyToken::Home),
            Key::End => Some(KeyToken::End),
            Key::PageUp => Some(KeyToken::PageUp),
            Key::PageDown => Some(KeyToken::PageDown),
            Key::UpArrow => Some(KeyToken::ArrowUp),
            Key::DownArrow => Some(KeyToken::ArrowDown),
            Key::LeftArrow => Some(KeyToken::ArrowLeft),
            Key::RightArrow => Some(KeyToken::ArrowRight),
            Key::Minus => Some(KeyToken::Minus),
            Key::Equal => Some(KeyToken::Equal),
            Key::LeftBracket => Some(KeyToken::LeftBracket),
            Key::RightBracket => Some(KeyToken::RightBracket),
            Key::BackSlash => Some(KeyToken::Backslash),
            Key::SemiColon => Some(KeyToken::Semicolon),
            Key::Quote => Some(KeyToken::Quote),
            Key::Comma => Some(KeyToken::Comma),
            Key::Dot => Some(KeyToken::Dot),
            Key::Slash => Some(KeyToken::Slash),
            Key::BackQuote => Some(KeyToken::Backquote),
            Key::ControlLeft | Key::ControlRight => Some(KeyToken::Ctrl),
            Key::ShiftLeft | Key::ShiftRight => Some(KeyToken::Shift),
            Key::Alt | Key::AltGr => Some(KeyToken::Alt),
            Key::MetaLeft | Key::MetaRight => Some(KeyToken::Meta),
            _ => None,
        }
    }
}

impl KeyToken {
    /// The name of this token.
    pub fn name(self) -> (r: &'static str)
        ensures
            r@ == token_name(self),
    {
        match self {
            KeyToken::A => "A",
            KeyToken::B => "B",
            KeyToken::C => "C",
            KeyToken::D => "D",
            KeyToken::E => "E",
            KeyToken::F => "F",
            KeyToken::G => "G",
            KeyToken::H => "H",
            KeyToken::I => "I",
            KeyToken::J => "J",
            KeyToken::K => "K",
            KeyToken::L => "L",
            KeyToken::M => "M",
            KeyToken::N => "N",
            KeyToken::O => "O",
            KeyToken::P => "P",
            KeyToken::Q => "Q",
            KeyToken::R => "R",
            KeyToken::S => "S",
            KeyToken::T => "T",
            KeyToken::U => "U",
            KeyToken::V => "V",
            KeyToken::W => "W",
            KeyToken::X => "X",
            KeyToken::Y => "Y",
            KeyToken::Z => "Z",
            KeyToken::Digit0 => "0",
            KeyToken::Digit1 => "1",
            KeyToken::Digit2 => "2",
            KeyToken::Digit3 => "3",
            KeyToken::Digit4 => "4",
            KeyToken::Digit5 => "5",
            KeyToken::Digit6 => "6",
            KeyToken::Digit7 => "7",
            KeyToken::Digit8 => "8",
            KeyToken::Digit9 => "9",
            KeyToken::F1 => "F1",
            KeyToken::F2 => "F2",
            KeyToken::F3 => "F3",
            KeyToken::F4 => "F4",
            KeyToken::F5 => "F5",
            KeyToken::F6 => "F6",
            KeyToken::F7 => "F7",
            KeyToken::F8 => "F8",
            KeyToken::F9 => "F9",
            KeyToken::F10 => "F10",
            KeyToken::F11 => "F11",
            KeyToken::F12 => "F12",
            KeyToken::Numpad0 => "NUMPAD0",
            KeyToken::Numpad1 => "NUMPAD1",
            KeyToken::Numpad2 => "NUMPAD2",
            KeyToken::Numpad3 => "NUMPAD3",
            KeyToken::Numpad4 => "NUMPAD4",
            KeyToken::Numpad5 => "NUMPAD5",
            KeyToken::Numpad6 => "NUMPAD6",
            KeyToken::Numpad7 => "NUMPAD7",
            KeyToken::Numpad8 => "NUMPAD8",
            KeyToken::Numpad9 => "NUMPAD9",
            KeyToken::NumpadMinus => "NUMPAD-",
            KeyToken::NumpadPlus => "NUMPAD+",
            KeyToken::NumpadMultiply => "NUMPAD*",
            KeyToken::NumpadDivide => "NUMPAD/",
            KeyToken::Space => "SPACE",
            KeyToken::Enter => "ENTER",
            KeyToken::Escape => "ESCAPE",
            KeyToken::Backspace => "BACKSPACE",
            KeyToken::Tab => "TAB",
            KeyToken::Delete => "DELETE",
            KeyToken::Insert => "INSERT",
            KeyToken::Home => "HOME",
            KeyToken::End => "END",
            KeyToken::PageUp => "PAGEUP",
            KeyToken::PageDown => "PAGEDOWN",
            KeyToken::ArrowUp => "ARROWUP",
            KeyToken::ArrowDown => "ARROWDOWN",
            KeyToken::ArrowLeft => "ARROWLEFT",
            KeyToken::ArrowRight => "ARROWRIGHT",
            KeyToken::Minus => "-",
            KeyToken::Equal => "=",
            KeyToken::LeftBracket => "[",
            KeyToken::RightBracket => "]",
            KeyToken::Backslash => "\\",
            KeyToken::Semicolon => ";",
            KeyToken::Quote => "'",
            KeyToken::Comma => ",",
            KeyToken::Dot => ".",
            KeyToken::Slash => "/",
            KeyToken::Backquote => "`",
            KeyToken::Ctrl => "CTRL",
            KeyToken::Shift => "SHIFT",
            KeyToken::Alt => "ALT",
            KeyToken::Meta => "META",
        }
    }

    /// Whether this token is a modifier.
    pub fn is_modifier(self) -> (r: bool)
        ensures
            r == is_modifier(self),
    {
        match self {
            KeyToken::Ctrl | KeyToken::Shift | KeyToken::Alt | KeyToken::Meta => true,
            _ => false,
        }
    }

    /// How this token is written inside a chord.
    pub fn label(self) -> (r: &'static str)
        ensures
            r@ == token_label(self),
    {
        match self {
            KeyToken::Ctrl => "Ctrl",
            KeyToken::Shift => "Shift",
            KeyToken::Alt => "Alt",
            KeyToken::Meta => "Meta",
            _ => self.name(),
        }
    }
}

/// The name of a hardware key: `None` for a key that is not tracked.
pub fn key_to_string(key: Key) -> (r: Option<String>)
    ensures
        r.is_some() == key_name(key).is_some(),
        r.is_some() ==> r.unwrap()@ == key_name(key).unwrap(),
{
    match key.token() {
        Some(token) => Some(token.name().to_string()),
        None => None,
    }
}

/// What a name gives away of its token: its length and its first and last
/// characters.
pub open spec fn name_marks(name: Seq<char>) -> (nat, char, char) {
    (name.len(), name.first(), name.last())
}

/// The marks of the name of each token. No two tokens have the same.
pub open spec fn token_marks(token: KeyToken) -> (nat, char, char) {
    match token {
        KeyToken::A => (1, 'A', 'A'),
        KeyToken::B => (1, 'B', 'B'),
        KeyToken::C => (1, 'C', 'C'),
        KeyToken::D => (1, 'D', 'D'),
        KeyToken::E => (1, 'E', 'E'),
        KeyToken::F => (1, 'F', 'F'),
        KeyToken::G => (1, 'G', 'G'),
        KeyToken::H => (1, 'H', 'H'),
        KeyToken::I => (1, 'I', 'I'),
        KeyToken::J => (1, 'J', 'J'),
        KeyToken::K => (1, 'K', 'K'),
        KeyToken::L => (1, 'L', 'L'),
        KeyToken::M => (1, 'M', 'M'),
        KeyToken::N => (1, 'N', 'N'),
        KeyToken::O => (1, 'O', 'O'),
        KeyToken::P => (1, 'P', 'P'),
        KeyToken::Q => (1, 'Q', 'Q'),
        KeyToken::R => (1, 'R', 'R'),
        KeyToken::S => (1, 'S', 'S'),
        KeyToken::T => (1, 'T', 'T'),
        KeyToken::U => (1, 'U', 'U'),
        KeyToken::V => (1, 'V', 'V'),
        KeyToken::W => (1, 'W', 'W'),
        KeyToken::X => (1, 'X', 'X'),
        KeyToken::Y => (1, 'Y', 'Y'),
        KeyToken::Z => (1, 'Z', 'Z'),
        KeyToken::Digit0 => (1, '0', '0'),
        KeyToken::Digit1 => (1, '1', '1'),
        KeyToken::Digit2 => (1, '2', '2'),
        KeyToken::Digit3 => (1, '3', '3'),
        KeyToken::Digit4 => (1, '4', '4'),
        KeyToken::Digit5 => (1, '5', '5'),
        KeyToken::Digit6 => (1, '6', '6'),
        KeyToken::Digit7 => (1, '7', '7'),
        KeyToken::Digit8 => (1, '8', '8'),
        KeyToken::Digit9 => (1, '9', '9'),
        KeyToken::F1 => (2, 'F', '1'),
        KeyToken::F2 => (2, 'F', '2'),
        KeyToken::F3 => (2, 'F', '3'),
        KeyToken::F4 => (2, 'F', '4'),
        KeyToken::F5 => (2, 'F', '5'),
        KeyToken::F6 => (2, 'F', '6'),
        KeyToken::F7 => (2, 'F', '7'),
        KeyToken::F8 => (2, 'F', '8'),
        KeyToken::F9 => (2, 'F', '9'),
        KeyToken::F10 => (3, 'F', '0'),
        KeyToken::F11 => (3, 'F', '1'),
        KeyToken::F12 => (3, 'F', '2'),
        KeyToken::Numpad0 => (7, 'N', '0'),
        KeyToken::Numpad1 => (7, 'N', '1'),
        KeyToken::Numpad2 => (7, 'N', '2'),
        KeyToken::Numpad3 => (7, 'N', '3'),
        KeyToken::Numpad4 => (7, 'N', '4'),
        KeyToken::Numpad5 => (7, 'N', '5'),
        KeyToken::Numpad6 => (7, 'N', '6'),
        KeyToken::Numpad7 => (7, 'N', '7'),
        KeyToken::Numpad8 => (7, 'N', '8'),
        KeyToken::Numpad9 => (7, 'N', '9'),
        KeyToken::NumpadMinus => (7, 'N', '-'),
        KeyToken::NumpadPlus => (7, 'N', '+'),
        KeyToken::NumpadMultiply => (7, 'N', '*'),
        KeyToken::NumpadDivide => (7, 'N', '/'),
        KeyToken::Space => (5, 'S', 'E'),
        KeyToken::Enter => (5, 'E', 'R'),
        KeyToken::Escape => (6, 'E', 'E'),
        KeyToken::Backspace => (9, 'B', 'E'),
        KeyToken::Tab => (3, 'T', 'B'),
        KeyToken::Delete => (6, 'D', 'E'),
        KeyToken::Insert => (6, 'I', 'T'),
        KeyToken::Home => (4, 'H', 'E'),
        KeyToken::End => (3, 'E', 'D'),
        KeyToken::PageUp => (6, 'P', 'P'),
        KeyToken::PageDown => (8, 'P', 'N'),
        KeyToken::ArrowUp => (7, 'A', 'P'),
        KeyToken::ArrowDown => (9, 'A', 'N'),
        KeyToken::ArrowLeft => (9, 'A', 'T'),
        KeyToken::ArrowRight => (10, 'A', 'T'),
        KeyToken::Minus => (1, '-', '-'),
        KeyToken::Equal => (1, '=', '='),
        KeyToken::LeftBracket => (1, '[', '['),
        KeyToken::RightBracket => (1, ']', ']'),
        KeyToken::Backslash => (1, '\\', '\\'),
        KeyToken::Semicolon => (1, ';', ';'),
        KeyToken::Quote => (1, '\'', '\''),
        KeyToken::Comma => (1, ',', ','),
        KeyToken::Dot => (1, '.', '.'),
        KeyToken::Slash => (1, '/', '/'),
        KeyToken::Backquote => (1, '`', '`'),
        KeyToken::Ctrl => (4, 'C', 'L'),
        KeyToken::Shift => (5, 'S', 'T'),
        KeyToken::Alt => (3, 'A', 'T'),
        KeyToken::Meta => (4, 'M', 'A'),
    }
}

/// The name of a token has the marks listed for it, and holds no chord
/// separator unless it is that of the plus key of the number pad.
pub proof fn lemma_name_facts(token: KeyToken)
    ensures
        name_marks(token_name(token)) == token_marks(token),
        token != KeyToken::NumpadPlus ==> !token_name(token).contains('+'),
{
    let name = token_name(token);
    match token {
        KeyToken::A => reveal_strlit("A"),
        KeyToken::B => reveal_strlit("B"),
        KeyToken::C => reveal_strlit("C"),
        KeyToken::D => reveal_strlit("D"),
        KeyToken::E => reveal_strlit("E"),
        KeyToken::F => reveal_strlit("F"),
        KeyToken::G => reveal_strlit("G"),
        KeyToken::H => reveal_strlit("H"),
        KeyToken::I => reveal_strlit("I"),
        KeyToken::J => reveal_strlit("J"),
        KeyToken::K => reveal_strlit("K"),
        KeyToken::L => reveal_strlit("L"),
        KeyToken::M => reveal_strlit("M"),
        KeyToken::N => reveal_strlit("N"),
        KeyToken::O => reveal_strlit("O"),
        KeyToken::P => reveal_strlit("P"),
        KeyToken::Q => reveal_strlit("Q"),
        KeyToken::R => reveal_strlit("R"),
        KeyToken::S => reveal_strlit("S"),
        KeyToken::T => reveal_strlit("T"),
        KeyToken::U => reveal_strlit("U"),
        KeyToken::V => reveal_strlit("V"),
        KeyToken::W => reveal_strlit("W"),
        KeyToken::X => reveal_strlit("X"),
        KeyToken::Y => reveal_strlit("Y"),
        KeyToken::Z => reveal_strlit("Z"),
        KeyToken::Digit0 => reveal_strlit("0"),
        KeyToken::Digit1 => reveal_strlit("1"),
        KeyToken::Digit2 => reveal_strlit("2"),
        KeyToken::Digit3 => reveal_strlit("3"),
        KeyToken::Digit4 => reveal_strlit("4"),
        KeyToken::Digit5 => reveal_strlit("5"),
        KeyToken::Digit6 => reveal_strlit("6"),
        KeyToken::Digit7 => reveal_strlit("7"),
        KeyToken::Digit8 => reveal_strlit("8"),
        KeyToken::Digit9 => reveal_strlit("9"),
        KeyToken::F1 => reveal_strlit("F1"),
        KeyToken::F2 => reveal_strlit("F2"),
        KeyToken::F3 => reveal_strlit("F3"),
        KeyToken::F4 => reveal_strlit("F4"),
        KeyToken::F5 => reveal_strlit("F5"),
        KeyToken::F6 => reveal_strlit("F6"),
        KeyToken::F7 => reveal_strlit("F7"),
        KeyToken::F8 => reveal_strlit("F8"),
        KeyToken::F9 => reveal_strlit("F9"),
        KeyToken::F10 => reveal_strlit("F10"),
        KeyToken::F11 => reveal_strlit("F11"),
        KeyToken::F12 => reveal_strlit("F12"),
        KeyToken::Numpad0 => reveal_strlit("NUMPAD0"),
        KeyToken::Numpad1 => reveal_strlit("NUMPAD1"),
        KeyToken::Numpad2 => reveal_strlit("NUMPAD2"),
        KeyToken::Numpad3 => reveal_strlit("NUMPAD3"),
        KeyToken::Numpad4 => reveal_strlit("NUMPAD4"),
        KeyToken::Numpad5 => reveal_strlit("NUMPAD5"),
        KeyToken::Numpad6 => reveal_strlit("NUMPAD6"),
        KeyToken::Numpad7 => reveal_strlit("NUMPAD7"),
        KeyToken::Numpad8 => reveal_strlit("NUMPAD8"),
        KeyToken::Numpad9 => reveal_strlit("NUMPAD9"),
        KeyToken::NumpadMinus => reveal_strlit("NUMPAD-"),
        KeyToken::NumpadPlus => reveal_strlit("NUMPAD+"),
        KeyToken::NumpadMultiply => reveal_strlit("NUMPAD*"),
        KeyToken::NumpadDivide => reveal_strlit("NUMPAD/"),
        KeyToken::Space => reveal_strlit("SPACE"),
        KeyToken::Enter => reveal_strlit("ENTER"),
        KeyToken::Escape => reveal_strlit("ESCAPE"),
        KeyToken::Backspace => reveal_strlit("BACKSPACE"),
        KeyToken::Tab => reveal_strlit("TAB"),
        KeyToken::Delete => reveal_strlit("DELETE"),
        KeyToken::Insert => reveal_strlit("INSERT"),
        KeyToken::Home => reveal_strlit("HOME"),
        KeyToken::End => reveal_strlit("END"),
        KeyToken::PageUp => reveal_strlit("PAGEUP"),
        KeyToken::PageDown => reveal_strlit("PAGEDOWN"),
        KeyToken::ArrowUp => reveal_strlit("ARROWUP"),
        KeyToken::ArrowDown => reveal_strlit("ARROWDOWN"),
        KeyToken::ArrowLeft => reveal_strlit("ARROWLEFT"),
        KeyToken::ArrowRight => reveal_strlit("ARROWRIGHT"),
        KeyToken::Minus => reveal_strlit("-"),
        KeyToken::Equal => reveal_strlit("="),
        KeyToken::LeftBracket => reveal_strlit("["),
        KeyToken::RightBracket => reveal_strlit("]"),
        KeyToken::Backslash => reveal_strlit("\\"),
        KeyToken::Semicolon => reveal_strlit(";"),
        KeyToken::Quote => reveal_strlit("'"),
        KeyToken::Comma => reveal_strlit(","),
        KeyToken::Dot => reveal_strlit("."),
        KeyToken::Slash => reveal_strlit("/"),
        KeyToken::Backquote => reveal_strlit("`"),
        KeyToken::Ctrl => reveal_strlit("CTRL"),
        KeyToken::Shift => reveal_strlit("SHIFT"),
        KeyToken::Alt => reveal_strlit("ALT"),
        KeyToken::Meta => reveal_strlit("META"),
    }
    if token != KeyToken::NumpadPlus {
        assert forall|i: int| 0 <= i < name.len() implies name[i] != '+' by {}
    }
}

/// No name holds the chord separator but that of the plus key of the number
/// pad.
pub proof fn lemma_name_without_separator(token: KeyToken)
    requires
        token != KeyToken::NumpadPlus,
    ensures
        !token_name(token).contains('+'),
{
    lemma_name_facts(token);
}

/// No two tokens share a name: to track the tokens that are held is to
/// track the names.
pub proof fn lemma_names_distinct(a: KeyToken, b: KeyToken)
    requires
        token_name(a) == token_name(b),
    ensures
        a == b,
{
    lemma_name_facts(a);
    lemma_name_facts(b);
}

/// The labels of the four modifiers hold no chord separator, and stand in
/// alphabetical order: Alt, Ctrl, Meta, Shift.
pub proof fn lemma_modifier_labels()
    ensures
        !token_label(KeyToken::Alt).contains('+'),
        !token_label(KeyToken::Ctrl).contains('+'),
        !token_label(KeyToken::Meta).contains('+'),
        !token_label(KeyToken::Shift).contains('+'),
        lex_le(token_label(KeyToken::Alt), token_label(KeyToken::Ctrl)),
        lex_le(token_label(KeyToken::Ctrl), token_label(KeyToken::Meta)),
        lex_le(token_label(KeyToken::Meta), token_label(KeyToken::Shift)),
{
    reveal_strlit("Alt");
    reveal_strlit("Ctrl");
    reveal_strlit("Meta");
    reveal_strlit("Shift");
    let alt = token_label(KeyToken::Alt);
    let ctrl = token_label(KeyToken::Ctrl);
    let meta = token_label(KeyToken::Meta);
    let shift = token_label(KeyToken::Shift);
    assert forall|i: int| 0 <= i < alt.len() implies alt[i] != '+' by {}
    assert forall|i: int| 0 <= i < ctrl.len() implies ctrl[i] != '+' by {}
    assert forall|i: int| 0 <= i < meta.len() implies meta[i] != '+' by {}
    assert forall|i: int| 0 <= i < shift.len() implies shift[i] != '+' by {}
    assert(lex_le(alt, ctrl));
    assert(lex_le(ctrl, meta));
    assert(lex_le(meta, shift));
}

} // verus!
