//! Input mapping: evdev key codes and pointer buttons to keyboard and mouse
//! values, and keyboard and pointer input to egui input events.

use vstd::prelude::*;
use vstd::string::*;

verus! {

/// Physical keys, named after the position they have on a US keyboard.
#[derive(Debug, Clone, Copy, PartialEq, Eq, Structural)]
pub enum KeyCode {
    Escape,
    Digit1,
    Digit2,
    Digit3,
    Digit4,
    Digit5,
    Digit6,
    Digit7,
    Digit8,
    Digit9,
    Digit0,
    Backspace,
    Tab,
    KeyQ,
    KeyW,
    KeyE,
    KeyR,
    KeyT,
    KeyY,
    KeyU,
    KeyI,
    KeyO,
    KeyP,
    Enter,
    ControlLeft,
    KeyA,
    KeyS,
    KeyD,
    KeyF,
    KeyG,
    KeyH,
    KeyJ,
    KeyK,
    KeyL,
    ShiftLeft,
    KeyZ,
    KeyX,
    KeyC,
    KeyV,
    KeyB,
    KeyN,
    KeyM,
    ShiftRight,
    AltLeft,
    Space,
    Unidentified,
}

/// Logical keys: the character a key types, or the name of a key that
/// types none.
#[derive(Debug)]
pub enum LogicalKey {
    Character(String),
    Enter,
    Tab,
    Backspace,
    Delete,
    ArrowLeft,
    ArrowRight,
    ArrowUp,
    ArrowDown,
    Home,
    End,
    Escape,
    Control,
    Shift,
    Alt,
    Unidentified,
}

/// The physical key of each evdev key code of the keyboard.
pub open spec fn keycode_code(k: u32) -> KeyCode {
    match k {
        9 => KeyCode::Escape,
        10 => KeyCode::Digit1,
        11 => KeyCode::Digit2,
        12 => KeyCode::Digit3,
        13 => KeyCode::Digit4,
        14 => KeyCode::Digit5,
        15 => KeyCode::Digit6,
        16 => KeyCode::Digit7,
        17 => KeyCode::Digit8,
        18 => KeyCode::Digit9,
        19 => KeyCode::Digit0,
        22 => KeyCode::Backspace,
        23 => KeyCode::Tab,
        24 => KeyCode::KeyQ,
        25 => KeyCode::KeyW,
        26 => KeyCode::KeyE,
        27 => KeyCode::KeyR,
        28 => KeyCode::KeyT,
        29 => KeyCode::KeyY,
        30 => KeyCode::KeyU,
        31 => KeyCode::KeyI,
        32 => KeyCode::KeyO,
        33 => KeyCode::KeyP,
        36 => KeyCode::Enter,
        37 => KeyCode::ControlLeft,
        38 => KeyCode::KeyA,
        39 => KeyCode::KeyS,
        40 => KeyCode::KeyD,
        41 => KeyCode::KeyF,
        42 => KeyCode::KeyG,
        43 => KeyCode::KeyH,
        44 => KeyCode::KeyJ,
        45 => KeyCode::KeyK,
        46 => KeyCode::KeyL,
        50 => KeyCode::ShiftLeft,
        52 => KeyCode::KeyZ,
        53 => KeyCode::KeyX,
        54 => KeyCode::KeyC,
        55 => KeyCode::KeyV,
        56 => KeyCode::KeyB,
        57 => KeyCode::KeyN,
        58 => KeyCode::KeyM,
        62 => KeyCode::ShiftRight,
        64 => KeyCode::AltLeft,
        65 => KeyCode::Space,
        _ => KeyCode::Unidentified,
    }
}

/// The character typed by each evdev key code, without modifiers.
pub open spec fn keycode_char(k: u32) -> Option<char> {
    match k {
        10 => Some('1'),
        11 => Some('2'),
        12 => Some('3'),
        13 => Some('4'),
        14 => Some('5'),
        15 => Some('6'),
        16 => Some('7'),
        17 => Some('8'),
        18 => Some('9'),
        19 => Some('0'),
        24 => Some('q'),
        25 => Some('w'),
        26 => Some('e'),
        27 => Some('r'),
        28 => Some('t'),
        29 => Some('y'),
        30 => Some('u'),
        31 => Some('i'),
        32 => Some('o'),
        33 => Some('p'),
        38 => Some('a'),
        39 => Some('s'),
        40 => Some('d'),
        41 => Some('f'),
        42 => Some('g'),
        43 => Some('h'),
        44 => Some('j'),
        45 => Some('k'),
        46 => Some('l'),
        52 => Some('z'),
        53 => Some('x'),
        54 => Some('c'),
        55 => Some('v'),
        56 => Some('b'),
        57 => Some('n'),
        58 => Some('m'),
        65 => Some(' '),
        _ => None,
    }
}

/// The named key of each evdev key code that types no character.
pub open spec fn keycode_named(k: u32) -> LogicalKey {
    match k {
        9 => LogicalKey::Escape,
        22 => LogicalKey::Backspace,
        23 => LogicalKey::Tab,
        36 => LogicalKey::Enter,
        37 => LogicalKey::Control,
        50 => LogicalKey::Shift,
        62 => LogicalKey::Shift,
        64 => LogicalKey::Alt,
        _ => LogicalKey::Unidentified,
    }
}

/// The character that the key at a physical position types, without modifiers.
pub open spec fn code_char(c: KeyCode) -> Option<char> {
    match c {
        KeyCode::Digit1 => Some('1'),
        KeyCode::Digit2 => Some('2'),
        KeyCode::Digit3 => Some('3'),
        KeyCode::Digit4 => Some('4'),
        KeyCode::Digit5 => Some('5'),
        KeyCode::Digit6 => Some('6'),
        KeyCode::Digit7 => Some('7'),
        KeyCode::Digit8 => Some('8'),
        KeyCode::Digit9 => Some('9'),
        KeyCode::Digit0 => Some('0'),
        KeyCode::KeyQ => Some('q'),
        KeyCode::KeyW => Some('w'),
        KeyCode::KeyE => Some('e'),
        KeyCode::KeyR => Some('r'),
        KeyCode::KeyT => Some('t'),
        KeyCode::KeyY => Some('y'),
        KeyCode::KeyU => Some('u'),
        KeyCode::KeyI => Some('i'),
        KeyCode::KeyO => Some('o'),
        KeyCode::KeyP => Some('p'),
        KeyCode::KeyA => Some('a'),
        KeyCode::KeyS => Some('s'),
        KeyCode::KeyD => Some('d'),
        KeyCode::KeyF => Some('f'),
        KeyCode::KeyG => Some('g'),
        KeyCode::KeyH => Some('h'),
        KeyCode::KeyJ => Some('j'),
        KeyCode::KeyK => Some('k'),
        KeyCode::KeyL => Some('l'),
        KeyCode::KeyZ => Some('z'),
        KeyCode::KeyX => Some('x'),
        KeyCode::KeyC => Some('c'),
        KeyCode::KeyV => Some('v'),
        KeyCode::KeyB => Some('b'),
        KeyCode::KeyN => Some('n'),
        KeyCode::KeyM => Some('m'),
        KeyCode::Space => Some(' '),
        _ => None,
    }
}

/// The physical key of an evdev key code.
pub fn smithay_keycode_to_blitz_code(keycode: u32) -> (c: KeyCode)
    ensures
        c == keycode_code(keycode),
{
    match keycode {
        9 => KeyCode::Escape,
        10 => KeyCode::Digit1,
        11 => KeyCode::Digit2,
        12 => KeyCode::Digit3,
        13 => KeyCode::Digit4,
        14 => KeyCode::Digit5,
        15 => KeyCode::Digit6,
        16 => KeyCode::Digit7,
        17 => KeyCode::Digit8,
        18 => KeyCode::Digit9,
        19 => KeyCode::Digit0,
        22 => KeyCode::Backspace,
        23 => KeyCode::Tab,
        24 => KeyCode::KeyQ,
        25 => KeyCode::KeyW,
        26 => KeyCode::KeyE,
        27 => KeyCode::KeyR,
        28 => KeyCode::KeyT,
        29 => KeyCode::KeyY,
        30 => KeyCode::KeyU,
        31 => KeyCode::KeyI,
        32 => KeyCode::KeyO,
        33 => KeyCode::KeyP,
        36 => KeyCode::Enter,
        37 => KeyCode::ControlLeft,
        38 => KeyCode::KeyA,
        39 => KeyCode::KeyS,
        40 => KeyCode::KeyD,
        41 => KeyCode::KeyF,
        42 => KeyCode::KeyG,
        43 => KeyCode::KeyH,
        44 => KeyCode::KeyJ,
        45 => KeyCode::KeyK,
        46 => KeyCode::KeyL,
        50 => KeyCode::ShiftLeft,
        52 => KeyCode::KeyZ,
        53 => KeyCode::KeyX,
        54 => KeyCode::KeyC,
        55 => KeyCode::KeyV,
        56 => KeyCode::KeyB,
        57 => KeyCode::KeyN,
        58 => KeyCode::KeyM,
        62 => KeyCode::ShiftRight,
        64 => KeyCode::AltLeft,
        65 => KeyCode::Space,
        _ => KeyCode::Unidentified,
    }
}

/// The logical key of an evdev key code: the character it types, or its name.
pub fn smithay_keycode_to_blitz_key(keycode: u32) -> (key: LogicalKey)
    ensures
        match keycode_char(keycode) {
            Some(ch) => key matches LogicalKey::Character(s) && s@ == seq![ch],
            None => key == keycode_named(keycode),
        },
{
    match keycode {
        9 => LogicalKey::Escape,
        10 => {
            proof {
                reveal_strlit("1");
            }
            LogicalKey::Character(String::from_str("1"))
        },
        11 => {
            proof {
                reveal_strlit("2");
            }
            LogicalKey::Character(String::from_str("2"))
        },
        12 => {
            proof {
                reveal_strlit("3");
            }
            LogicalKey::Character(String::from_str("3"))
        },
        13 => {
            proof {
                reveal_strlit("4");
            }
            LogicalKey::Character(String::from_str("4"))
        },
        14 => {
            proof {
                reveal_strlit("5");
            }
            LogicalKey::Character(String::from_str("5"))
        },
        15 => {
            proof {
                reveal_strlit("6");
            }
            LogicalKey::Character(String::from_str("6"))
        },
        16 => {
            proof {
                reveal_strlit("7");
            }
            LogicalKey::Character(String::from_str("7"))
        },
        17 => {
            proof {
                reveal_strlit("8");
            }
            LogicalKey::Character(String::from_str("8"))
        },
        18 => {
            proof {
                reveal_strlit("9");
            }
            LogicalKey::Character(String::from_str("9"))
        },
        19 => {
            proof {
                reveal_strlit("0");
            }
            LogicalKey::Character(String::from_str("0"))
        },
        22 => LogicalKey::Backspace,
        23 => LogicalKey::Tab,
        24 => {
            proof {
                reveal_strlit("q");
            }
            LogicalKey::Character(String::from_str("q"))
        },
        25 => {
            proof {
                reveal_strlit("w");
            }
            LogicalKey::Character(String::from_str("w"))
        },
        26 => {
            proof {
                reveal_strlit("e");
            }
            LogicalKey::Character(String::from_str("e"))
        },
        27 => {
            proof {
                reveal_strlit("r");
            }
            LogicalKey::Character(String::from_str("r"))
        },
        28 => {
            proof {
                reveal_strlit("t");
            }
            LogicalKey::Character(String::from_str("t"))
        },
        29 => {
            proof {
                reveal_strlit("y");
            }
            LogicalKey::Character(String::from_str("y"))
        },
        30 => {
            proof {
                reveal_strlit("u");
            }
            LogicalKey::Character(String::from_str("u"))
        },
        31 => {
            proof {
                reveal_strlit("i");
            }
            LogicalKey::Character(String::from_str("i"))
        },
        32 => {
            proof {
                reveal_strlit("o");
            }
            LogicalKey::Character(String::from_str("o"))
        },
        33 => {
            proof {
                reveal_strlit("p");
            }
            LogicalKey::Character(String::from_str("p"))
        },
        36 => LogicalKey::Enter,
        37 => LogicalKey::Control,
        38 => {
            proof {
                reveal_strlit("a");
            }
            LogicalKey::Character(String::from_str("a"))
        },
        39 => {
            proof {
                reveal_strlit("s");
            }
            LogicalKey::Character(String::from_str("s"))
        },
        40 => {
            proof {
                reveal_strlit("d");
            }
            LogicalKey::Character(String::from_str("d"))
        },
        41 => {
            proof {
                reveal_strlit("f");
            }
            LogicalKey::Character(String::from_str("f"))
        },
        42 => {
            proof {
                reveal_strlit("g");
            }
            LogicalKey::Character(String::from_str("g"))
        },
        43 => {
            proof {
                reveal_strlit("h");
            }
            LogicalKey::Character(String::from_str("h"))
        },
        44 => {
            proof {
                reveal_strlit("j");
            }
            LogicalKey::Character(String::from_str("j"))
        },
        45 => {
            proof {
                reveal_strlit("k");
            }
            LogicalKey::Character(String::from_str("k"))
        },
        46 => {
            proof {
                reveal_strlit("l");
            }
            LogicalKey::Character(String::from_str("l"))
        },
        50 => LogicalKey::Shift,
        52 => {
            proof {
                reveal_strlit("z");
            }
            LogicalKey::Character(String::from_str("z"))
        },
        53 => {
            proof {
                reveal_strlit("x");
            }
            LogicalKey::Character(String::from_str("x"))
        },
        54 => {
            proof {
                reveal_strlit("c");
            }
            LogicalKey::Character(String::from_str("c"))
        },
        55 => {
            proof {
                reveal_strlit("v");
            }
            LogicalKey::Character(String::from_str("v"))
        },
        56 => {
            proof {
                reveal_strlit("b");
            }
            LogicalKey::Character(String::from_str("b"))
        },
        57 => {
            proof {
                reveal_strlit("n");
            }
            LogicalKey::Character(String::from_str("n"))
        },
        58 => {
            proof {
                reveal_strlit("m");
            }
            LogicalKey::Character(String::from_str("m"))
        },
        62 => LogicalKey::Shift,
        64 => LogicalKey::Alt,
        65 => {
            proof {
                reveal_strlit(" ");
            }
            LogicalKey::Character(String::from_str(" "))
        },
        _ => LogicalKey::Unidentified,
    }
}

/// Law: the character a key code types is the character of its physical key.
pub proof fn law_key_agrees_with_code(keycode: u32)
    ensures
        keycode_char(keycode) == code_char(keycode_code(keycode)),
{
}

/// The Linux input event code (`KEY_*` in `linux/input-event-codes.h`) of
/// each physical key; an evdev key code as a keyboard reports it is that
/// number plus 8.
pub open spec fn input_event_code(c: KeyCode) -> Option<u32> {
    match c {
        KeyCode::Escape => Some(1u32),
        KeyCode::Digit1 => Some(2u32),
        KeyCode::Digit2 => Some(3u32),
        KeyCode::Digit3 => Some(4u32),
        KeyCode::Digit4 => Some(5u32),
        KeyCode::Digit5 => Some(6u32),
        KeyCode::Digit6 => Some(7u32),
        KeyCode::Digit7 => Some(8u32),
        KeyCode::Digit8 => Some(9u32),
        KeyCode::Digit9 => Some(10u32),
        KeyCode::Digit0 => Some(11u32),
        KeyCode::Backspace => Some(14u32),
        KeyCode::Tab => Some(15u32),
        KeyCode::KeyQ => Some(16u32),
        KeyCode::KeyW => Some(17u32),
        KeyCode::KeyE => Some(18u32),
        KeyCode::KeyR => Some(19u32),
        KeyCode::KeyT => Some(20u32),
        KeyCode::KeyY => Some(21u32),
        KeyCode::KeyU => Some(22u32),
        KeyCode::KeyI => Some(23u32),
        KeyCode::KeyO => Some(24u32),
        KeyCode::KeyP => Some(25u32),
        KeyCode::Enter => Some(28u32),
        KeyCode::ControlLeft => Some(29u32),
        KeyCode::KeyA => Some(30u32),
        KeyCode::KeyS => Some(31u32),
        KeyCode::KeyD => Some(32u32),
        KeyCode::KeyF => Some(33u32),
        KeyCode::KeyG => Some(34u32),
        KeyCode::KeyH => Some(35u32),
        KeyCode::KeyJ => Some(36u32),
        KeyCode::KeyK => Some(37u32),
        KeyCode::KeyL => Some(38u32),
        KeyCode::ShiftLeft => Some(42u32),
        KeyCode::KeyZ => Some(44u32),
        KeyCode::KeyX => Some(45u32),
        KeyCode::KeyC => Some(46u32),
        KeyCode::KeyV => Some(47u32),
        KeyCode::KeyB => Some(48u32),
        KeyCode::KeyN => Some(49u32),
        KeyCode::KeyM => Some(50u32),
        KeyCode::ShiftRight => Some(54u32),
        KeyCode::AltLeft => Some(56u32),
        KeyCode::Space => Some(57u32),
        KeyCode::Unidentified => None,
    }
}

/// The named logical key of each physical key that types no character.
pub open spec fn code_named(c: KeyCode) -> LogicalKey {
    match c {
        KeyCode::Escape => LogicalKey::Escape,
        KeyCode::Backspace => LogicalKey::Backspace,
        KeyCode::Tab => LogicalKey::Tab,
        KeyCode::Enter => LogicalKey::Enter,
        KeyCode::ControlLeft => LogicalKey::Control,
        KeyCode::ShiftLeft | KeyCode::ShiftRight => LogicalKey::Shift,
        KeyCode::AltLeft => LogicalKey::Alt,
        _ => LogicalKey::Unidentified,
    }
}

/// Law: an evdev key code names the physical key whose input event code
/// is 8 less, and every physical key is named by exactly that code.
pub proof fn law_keycode_is_input_event_code(keycode: u32, c: KeyCode)
    ensures
        keycode_code(keycode) != KeyCode::Unidentified
            ==> keycode >= 8 && input_event_code(keycode_code(keycode)) == Some((keycode - 8) as u32),
        input_event_code(c) matches Some(e) ==> e + 8 <= u32::MAX && keycode_code((e + 8) as u32) == c,
{
}

/// Law: no two key codes name the same physical key.
pub proof fn law_keycodes_distinct(a: u32, b: u32)
    ensures
        (keycode_code(a) == keycode_code(b) && keycode_code(a) != KeyCode::Unidentified) ==> a == b,
{
    law_keycode_is_input_event_code(a, KeyCode::Unidentified);
    law_keycode_is_input_event_code(b, KeyCode::Unidentified);
}

/// Law: a key code that types no character gives the named key of its
/// physical key: Tab for Tab, Enter for Enter, and so on.
pub proof fn law_named_key_agrees_with_code(keycode: u32)
    ensures
        keycode_char(keycode) is None ==> keycode_named(keycode) == code_named(keycode_code(keycode)),
        code_char(keycode_code(keycode)) is None
            ==> keycode_named(keycode) == code_named(keycode_code(keycode)),
{
}

/// Whether a key went down or up.
#[derive(Debug, Clone, Copy, PartialEq, Eq, Structural)]
pub enum KeyState {
    Pressed,
    Released,
}

/// Where on the keyboard a key is.
#[derive(Debug, Clone, Copy, PartialEq, Eq, Structural)]
pub enum KeyLocation {
    Standard,
    Left,
    Right,
    Numpad,
}

/// A keyboard event for Blitz.
#[derive(Debug)]
pub struct BlitzKeyEvent {
    pub key: LogicalKey,
    pub code: KeyCode,
    pub modifiers: KeyModifiers,
    pub location: KeyLocation,
    pub is_auto_repeating: bool,
    pub is_composing: bool,
    pub state: KeyState,
    pub text: Option<String>,
}

/// The Blitz event of a compositor key event: the key and the physical key
/// of its evdev code, the held modifiers, pressed or released; it is
/// reported at the standard location, not repeating, not composing and
/// without text.
pub fn smithay_keyboard_to_blitz(key_code: u32, pressed: bool, modifiers: KeyModifiers) -> (e: BlitzKeyEvent)
    ensures
        e.code == keycode_code(key_code),
        match keycode_char(key_code) {
            Some(ch) => e.key matches LogicalKey::Character(s) && s@ == seq![ch],
            None => e.key == keycode_named(key_code),
        },
        e.modifiers == modifiers,
        e.location == KeyLocation::Standard,
        !e.is_auto_repeating,
        !e.is_composing,
        e.state == if pressed { KeyState::Pressed } else { KeyState::Released },
        e.text is None,
{
    let state = if pressed { KeyState::Pressed } else { KeyState::Released };
    BlitzKeyEvent {
        key: smithay_keycode_to_blitz_key(key_code),
        code: smithay_keycode_to_blitz_code(key_code),
        modifiers,
        location: KeyLocation::Standard,
        is_auto_repeating: false,
        is_composing: false,
        state,
        text: None,
    }
}

/// Mouse buttons.
#[derive(Debug, Clone, Copy, PartialEq, Eq, Structural)]
pub enum MouseButton {
    NoButton,
    Left,
    Right,
    Middle,
    Other(u16),
}

/// The mouse button of an evdev button code; other codes keep their low
/// sixteen bits.
pub open spec fn button_of(code: u32) -> MouseButton {
    if code == 0x110 {
        MouseButton::Left
    } else if code == 0x111 {
        MouseButton::Right
    } else if code == 0x112 {
        MouseButton::Middle
    } else {
        MouseButton::Other(code as u16)
    }
}

/// The mouse button of an evdev button code.
pub fn smithay_button_to_blitz_button(button_code: u32) -> (b: MouseButton)
    ensures
        b == button_of(button_code),
{
    match button_code {
        0x110 => MouseButton::Left,
        0x111 => MouseButton::Right,
        0x112 => MouseButton::Middle,
        _ => MouseButton::Other(button_code as u16),
    }
}

/// Law: different button codes below 65536 give different buttons, and a
/// button that is not one of the three named ones keeps the code's low
/// sixteen bits.
pub proof fn law_buttons_distinct(a: u32, b: u32)
    ensures
        (a < 0x10000 && b < 0x10000 && button_of(a) == button_of(b)) ==> a == b,
        button_of(a) matches MouseButton::Other(n) ==> n == a % 0x10000,
{
    assert((a as u16) == a % 0x10000) by (bit_vector);
}

/// Which modifier keys are held.
#[derive(Debug, Clone, Copy, PartialEq, Eq, Structural)]
pub struct KeyModifiers {
    pub control: bool,
    pub alt: bool,
    pub shift: bool,
    pub meta: bool,
    pub super_key: bool,
}

/// The modifiers of a keyboard's state: control, alt and shift as they
/// are, the logo key as super; meta is never set.
pub fn smithay_modifiers_to_blitz_modifiers(ctrl: bool, alt: bool, shift: bool, logo: bool) -> (m: KeyModifiers)
    ensures
        m == (KeyModifiers { control: ctrl, alt, shift, meta: false, super_key: logo }),
{
    let mut modifiers = KeyModifiers { control: false, alt: false, shift: false, meta: false, super_key: false };
    if ctrl {
        modifiers.control = true;
    }
    if alt {
        modifiers.alt = true;
    }
    if shift {
        modifiers.shift = true;
    }
    if logo {
        modifiers.super_key = true;
    }
    modifiers
}

/// Keys that egui knows.
#[derive(Debug, Clone, Copy, PartialEq, Eq, Structural)]
pub enum EguiKey {
    A,
    B,
    C,
    D,
    E,
    F,
    G,
    H,
    I,
    J,
    K,
    L,
    M,
    N,
    O,
    P,
    Q,
    R,
    S,
    T,
    U,
    V,
    W,
    X,
    Y,
    Z,
    Num0,
    Num1,
    Num2,
    Num3,
    Num4,
    Num5,
    Num6,
    Num7,
    Num8,
    Num9,
    Space,
    Enter,
    Tab,
    Backspace,
    Delete,
    ArrowLeft,
    ArrowRight,
    ArrowUp,
    ArrowDown,
    Home,
    End,
    Escape,
}

/// The egui key of a typed character: letters of either case, digits and
/// space; no other character has one.
pub open spec fn egui_key_for_char(c: char) -> Option<EguiKey> {
    match c {
        'A' | 'a' => Some(EguiKey::A),
        'B' | 'b' => Some(EguiKey::B),
        'C' | 'c' => Some(EguiKey::C),
        'D' | 'd' => Some(EguiKey::D),
        'E' | 'e' => Some(EguiKey::E),
        'F' | 'f' => Some(EguiKey::F),
        'G' | 'g' => Some(EguiKey::G),
        'H' | 'h' => Some(EguiKey::H),
        'I' | 'i' => Some(EguiKey::I),
        'J' | 'j' => Some(EguiKey::J),
        'K' | 'k' => Some(EguiKey::K),
        'L' | 'l' => Some(EguiKey::L),
        'M' | 'm' => Some(EguiKey::M),
        'N' | 'n' => Some(EguiKey::N),
        'O' | 'o' => Some(EguiKey::O),
        'P' | 'p' => Some(EguiKey::P),
        'Q' | 'q' => Some(EguiKey::Q),
        'R' | 'r' => Some(EguiKey::R),
        'S' | 's' => Some(EguiKey::S),
        'T' | 't' => Some(EguiKey::T),
        'U' | 'u' => Some(EguiKey::U),
        'V' | 'v' => Some(EguiKey::V),
        'W' | 'w' => Some(EguiKey::W),
        'X' | 'x' => Some(EguiKey::X),
        'Y' | 'y' => Some(EguiKey::Y),
        'Z' | 'z' => Some(EguiKey::Z),
        '0' => Some(EguiKey::Num0),
        '1' => Some(EguiKey::Num1),
        '2' => Some(EguiKey::Num2),
        '3' => Some(EguiKey::Num3),
        '4' => Some(EguiKey::Num4),
        '5' => Some(EguiKey::Num5),
        '6' => Some(EguiKey::Num6),
        '7' => Some(EguiKey::Num7),
        '8' => Some(EguiKey::Num8),
        '9' => Some(EguiKey::Num9),
        ' ' => Some(EguiKey::Space),
        _ => None,
    }
}

/// The egui key of a logical key: named keys by name, character keys by
/// the first character of their text.
pub open spec fn egui_key_of(key: LogicalKey) -> Option<EguiKey> {
    match key {
        LogicalKey::Character(s) => if s@.len() > 0 { egui_key_for_char(s@[0]) } else { None },
        LogicalKey::Enter => Some(EguiKey::Enter),
        LogicalKey::Tab => Some(EguiKey::Tab),
        LogicalKey::Backspace => Some(EguiKey::Backspace),
        LogicalKey::Delete => Some(EguiKey::Delete),
        LogicalKey::ArrowLeft => Some(EguiKey::ArrowLeft),
        LogicalKey::ArrowRight => Some(EguiKey::ArrowRight),
        LogicalKey::ArrowUp => Some(EguiKey::ArrowUp),
        LogicalKey::ArrowDown => Some(EguiKey::ArrowDown),
        LogicalKey::Home => Some(EguiKey::Home),
        LogicalKey::End => Some(EguiKey::End),
        LogicalKey::Escape => Some(EguiKey::Escape),
        _ => None,
    }
}

fn egui_key_for_char_exec(c: char) -> (k: Option<EguiKey>)
    ensures
        k == egui_key_for_char(c),
{
    match c {
        'A' | 'a' => Some(EguiKey::A),
        'B' | 'b' => Some(EguiKey::B),
        'C' | 'c' => Some(EguiKey::C),
        'D' | 'd' => Some(EguiKey::D),
        'E' | 'e' => Some(EguiKey::E),
        'F' | 'f' => Some(EguiKey::F),
        'G' | 'g' => Some(EguiKey::G),
        'H' | 'h' => Some(EguiKey::H),
        'I' | 'i' => Some(EguiKey::I),
        'J' | 'j' => Some(EguiKey::J),
        'K' | 'k' => Some(EguiKey::K),
        'L' | 'l' => Some(EguiKey::L),
        'M' | 'm' => Some(EguiKey::M),
        'N' | 'n' => Some(EguiKey::N),
        'O' | 'o' => Some(EguiKey::O),
        'P' | 'p' => Some(EguiKey::P),
        'Q' | 'q' => Some(EguiKey::Q),
        'R' | 'r' => Some(EguiKey::R),
        'S' | 's' => Some(EguiKey::S),
        'T' | 't' => Some(EguiKey::T),
        'U' | 'u' => Some(EguiKey::U),
        'V' | 'v' => Some(EguiKey::V),
        'W' | 'w' => Some(EguiKey::W),
        'X' | 'x' => Some(EguiKey::X),
        'Y' | 'y' => Some(EguiKey::Y),
        'Z' | 'z' => Some(EguiKey::Z),
        '0' => Some(EguiKey::Num0),
        '1' => Some(EguiKey::Num1),
        '2' => Some(EguiKey::Num2),
        '3' => Some(EguiKey::Num3),
        '4' => Some(EguiKey::Num4),
        '5' => Some(EguiKey::Num5),
        '6' => Some(EguiKey::Num6),
        '7' => Some(EguiKey::Num7),
        '8' => Some(EguiKey::Num8),
        '9' => Some(EguiKey::Num9),
        ' ' => Some(EguiKey::Space),
        _ => None,
    }
}

/// The character printed on each egui key that types one, in lower case.
pub open spec fn egui_key_text(e: EguiKey) -> Option<char> {
    match e {
        EguiKey::A => Some('a'),
        EguiKey::B => Some('b'),
        EguiKey::C => Some('c'),
        EguiKey::D => Some('d'),
        EguiKey::E => Some('e'),
        EguiKey::F => Some('f'),
        EguiKey::G => Some('g'),
        EguiKey::H => Some('h'),
        EguiKey::I => Some('i'),
        EguiKey::J => Some('j'),
        EguiKey::K => Some('k'),
        EguiKey::L => Some('l'),
        EguiKey::M => Some('m'),
        EguiKey::N => Some('n'),
        EguiKey::O => Some('o'),
        EguiKey::P => Some('p'),
        EguiKey::Q => Some('q'),
        EguiKey::R => Some('r'),
        EguiKey::S => Some('s'),
        EguiKey::T => Some('t'),
        EguiKey::U => Some('u'),
        EguiKey::V => Some('v'),
        EguiKey::W => Some('w'),
        EguiKey::X => Some('x'),
        EguiKey::Y => Some('y'),
        EguiKey::Z => Some('z'),
        EguiKey::Num0 => Some('0'),
        EguiKey::Num1 => Some('1'),
        EguiKey::Num2 => Some('2'),
        EguiKey::Num3 => Some('3'),
        EguiKey::Num4 => Some('4'),
        EguiKey::Num5 => Some('5'),
        EguiKey::Num6 => Some('6'),
        EguiKey::Num7 => Some('7'),
        EguiKey::Num8 => Some('8'),
        EguiKey::Num9 => Some('9'),
        EguiKey::Space => Some(' '),
        _ => None,
    }
}

/// The logical key named like each egui key that types no character.
pub open spec fn egui_key_name(e: EguiKey) -> LogicalKey {
    match e {
        EguiKey::Enter => LogicalKey::Enter,
        EguiKey::Tab => LogicalKey::Tab,
        EguiKey::Backspace => LogicalKey::Backspace,
        EguiKey::Delete => LogicalKey::Delete,
        EguiKey::ArrowLeft => LogicalKey::ArrowLeft,
        EguiKey::ArrowRight => LogicalKey::ArrowRight,
        EguiKey::ArrowUp => LogicalKey::ArrowUp,
        EguiKey::ArrowDown => LogicalKey::ArrowDown,
        EguiKey::Home => LogicalKey::Home,
        EguiKey::End => LogicalKey::End,
        EguiKey::Escape => LogicalKey::Escape,
        _ => LogicalKey::Unidentified,
    }
}

/// Law: a named logical key goes to the egui key of the same name, and
/// every egui key that types no character is reached so from its name;
/// the modifier keys and unidentified keys have no egui key.
pub proof fn law_egui_named_keys(key: LogicalKey, e: EguiKey)
    ensures
        !(key is Character) ==> match egui_key_of(key) {
            Some(k) => egui_key_name(k) == key && egui_key_text(k) is None,
            None => key is Control || key is Shift || key is Alt || key is Unidentified,
        },
        egui_key_text(e) is None ==> egui_key_of(egui_key_name(e)) == Some(e),
{
}

/// Law: no two different named logical keys go to the same egui key.
pub proof fn law_egui_named_keys_distinct(a: LogicalKey, b: LogicalKey)
    requires
        !(a is Character),
        !(b is Character),
        egui_key_of(a) is Some,
        egui_key_of(a) == egui_key_of(b),
    ensures
        a == b,
{
    law_egui_named_keys(a, EguiKey::Enter);
    law_egui_named_keys(b, EguiKey::Enter);
}

/// Law: a typed character goes to the egui key printed with it, in either
/// case: letters, digits and space have one and no other character does;
/// and each egui key that types a character is reached from it.
pub proof fn law_egui_char_keys(c: char, e: EguiKey)
    ensures
        egui_key_for_char(c) is Some <==> (('a' <= c && c <= 'z') || ('A' <= c && c <= 'Z')
            || ('0' <= c && c <= '9') || c == ' '),
        egui_key_for_char(c) matches Some(k) ==> (egui_key_text(k) matches Some(t)
            && (t == c || ('A' <= c && c <= 'Z' && t as u32 == c as u32 + 32))),
        egui_key_text(e) matches Some(t) ==> egui_key_for_char(t) == Some(e),
{
}

/// The egui key of a logical key.
pub fn egui_key(key: &LogicalKey) -> (k: Option<EguiKey>)
    ensures
        k == egui_key_of(*key),
{
    match key {
        LogicalKey::Character(s) => {
            if s.as_str().unicode_len() > 0 {
                egui_key_for_char_exec(s.as_str().get_char(0))
            } else {
                None
            }
        },
        LogicalKey::Enter => Some(EguiKey::Enter),
        LogicalKey::Tab => Some(EguiKey::Tab),
        LogicalKey::Backspace => Some(EguiKey::Backspace),
        LogicalKey::Delete => Some(EguiKey::Delete),
        LogicalKey::ArrowLeft => Some(EguiKey::ArrowLeft),
        LogicalKey::ArrowRight => Some(EguiKey::ArrowRight),
        LogicalKey::ArrowUp => Some(EguiKey::ArrowUp),
        LogicalKey::ArrowDown => Some(EguiKey::ArrowDown),
        LogicalKey::Home => Some(EguiKey::Home),
        LogicalKey::End => Some(EguiKey::End),
        LogicalKey::Escape => Some(EguiKey::Escape),
        _ => None,
    }
}

/// Modifier keys as egui knows them.
#[derive(Debug, Clone, Copy, PartialEq, Eq, Structural)]
pub struct EguiModifiers {
    pub ctrl: bool,
    pub shift: bool,
    pub alt: bool,
    pub mac_cmd: bool,
}

/// One input event for egui, without positions.
#[derive(Debug)]
pub enum EguiEvent {
    Key { key: EguiKey, pressed: bool, repeat: bool, modifiers: EguiModifiers },
    Text(String),
}

/// The text a key event types: its text, when the key is pressed and the
/// text is not empty.
pub open spec fn typed_text(pressed: bool, text: Option<&str>) -> Option<Seq<char>> {
    match text {
        Some(t) => if pressed && t@.len() > 0 { Some(t@) } else { None },
        None => None,
    }
}

/// The egui events of a key event: none when egui has no such key; else
/// the key event, followed by the typed text when the key is pressed and
/// the text is not empty.
pub fn key_event_to_egui(key: &LogicalKey, modifiers: KeyModifiers, pressed: bool, repeat: bool, text: Option<&str>) -> (r: Option<Vec<EguiEvent>>)
    ensures
        egui_key_of(*key) is None ==> r is None,
        egui_key_of(*key) matches Some(k) ==> (r matches Some(v) && {
            let m = EguiModifiers { ctrl: modifiers.control, shift: modifiers.shift, alt: modifiers.alt, mac_cmd: modifiers.meta };
            &&& v@.len() >= 1
            &&& v@[0] == (EguiEvent::Key { key: k, pressed, repeat, modifiers: m })
            &&& match typed_text(pressed, text) {
                Some(t) => v@.len() == 2 && (v@[1] matches EguiEvent::Text(s) && s@ == t),
                None => v@.len() == 1,
            }
        }),
{
    let k = match egui_key(key) {
        Some(k) => k,
        None => return None,
    };
    let mut m = EguiModifiers { ctrl: false, shift: false, alt: false, mac_cmd: false };
    if modifiers.control {
        m.ctrl = true;
    }
    if modifiers.shift {
        m.shift = true;
    }
    if modifiers.alt {
        m.alt = true;
    }
    if modifiers.meta {
        m.mac_cmd = true;
    }
    let mut events: Vec<EguiEvent> = Vec::new();
    events.push(EguiEvent::Key { key: k, pressed, repeat, modifiers: m });
    if pressed {
        match text {
            Some(t) => {
                if t.unicode_len() > 0 {
                    events.push(EguiEvent::Text(String::from_str(t)));
                }
            },
            None => {},
        }
    }
    Some(events)
}

/// What a pointer event does, without its position.
#[derive(Debug, Clone, Copy, PartialEq, Eq, Structural)]
pub enum PointerAction {
    Moved,
    Button { pressed: bool },
}

/// The pointer actions of a named DOM pointer event; none for other names.
pub open spec fn pointer_actions_of(event_type: Seq<char>) -> Option<Seq<PointerAction>> {
    if event_type == "mousemove"@ {
        Some(seq![PointerAction::Moved])
    } else if event_type == "mousedown"@ {
        Some(seq![PointerAction::Button { pressed: true }])
    } else if event_type == "mouseup"@ {
        Some(seq![PointerAction::Button { pressed: false }])
    } else if event_type == "click"@ {
        Some(seq![PointerAction::Button { pressed: true }, PointerAction::Button { pressed: false }])
    } else {
        None
    }
}

/// The pointer actions of a named DOM pointer event: a click is a press
/// followed by a release of the primary button.
pub fn pointer_actions(event_type: &str) -> (r: Option<Vec<PointerAction>>)
    ensures
        match pointer_actions_of(event_type@) {
            Some(s) => r matches Some(v) && v@ == s,
            None => r is None,
        },
{
    let mut v: Vec<PointerAction> = Vec::new();
    if crate::text::str_eq(event_type, "mousemove") {
        v.push(PointerAction::Moved);
    } else if crate::text::str_eq(event_type, "mousedown") {
        v.push(PointerAction::Button { pressed: true });
    } else if crate::text::str_eq(event_type, "mouseup") {
        v.push(PointerAction::Button { pressed: false });
    } else if crate::text::str_eq(event_type, "click") {
        v.push(PointerAction::Button { pressed: true });
        v.push(PointerAction::Button { pressed: false });
    } else {
        return None;
    }
    assert(v@ =~= pointer_actions_of(event_type@).unwrap());
    Some(v)
}

/// Input method events.
#[derive(Debug)]
pub enum ImeEvent {
    Preedit(String, Option<(usize, usize)>),
    Commit(String),
    Enabled,
    Disabled,
}

/// The text that an input method event hands to egui: the preedit or
/// committed text, nothing for the others.
pub fn ime_event_text(event: &ImeEvent) -> (r: Option<String>)
    ensures
        match *event {
            ImeEvent::Preedit(t, _) => r matches Some(s) && s@ == t@,
            ImeEvent::Commit(t) => r matches Some(s) && s@ == t@,
            _ => r is None,
        },
{
    match event {
        ImeEvent::Preedit(text, _) => Some(text.clone()),
        ImeEvent::Commit(text) => Some(text.clone()),
        ImeEvent::Enabled => None,
        ImeEvent::Disabled => None,
    }
}

} // verus!
