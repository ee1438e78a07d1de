//! W3C key names for the standard Linux input-event code range (1-88).
//!
//! Codes in this range are numerically identical in the Linux input-event
//! table and in the V1 (IOHook) soundpack format, so the runtime listener and
//! the V1 converter share this one table. Above 88 the two keyspaces diverge
//! and each consumer owns its extended entries.

use vstd::prelude::*;

verus! {

/// The shared table: the W3C name of a standard-range code, or `None` for a
/// code outside the table (84 is reserved in `linux/input-event-codes.h` and
/// deliberately unmapped).
pub open spec fn spec_w3c_name(code: u16) -> Option<&'static str> {
    match code {
        1 => Some("Escape"),
        2 => Some("Digit1"),
        3 => Some("Digit2"),
        4 => Some("Digit3"),
        5 => Some("Digit4"),
        6 => Some("Digit5"),
        7 => Some("Digit6"),
        8 => Some("Digit7"),
        9 => Some("Digit8"),
        10 => Some("Digit9"),
        11 => Some("Digit0"),
        12 => Some("Minus"),
        13 => Some("Equal"),
        14 => Some("Backspace"),
        15 => Some("Tab"),
        16 => Some("KeyQ"),
        17 => Some("KeyW"),
        18 => Some("KeyE"),
        19 => Some("KeyR"),
        20 => Some("KeyT"),
        21 => Some("KeyY"),
        22 => Some("KeyU"),
        23 => Some("KeyI"),
        24 => Some("KeyO"),
        25 => Some("KeyP"),
        26 => Some("BracketLeft"),
        27 => Some("BracketRight"),
        28 => Some("Enter"),
        29 => Some("ControlLeft"),
        30 => Some("KeyA"),
        31 => Some("KeyS"),
        32 => Some("KeyD"),
        33 => Some("KeyF"),
        34 => Some("KeyG"),
        35 => Some("KeyH"),
        36 => Some("KeyJ"),
        37 => Some("KeyK"),
        38 => Some("KeyL"),
        39 => Some("Semicolon"),
        40 => Some("Quote"),
        41 => Some("Backquote"),
        42 => Some("ShiftLeft"),
        43 => Some("Backslash"),
        44 => Some("KeyZ"),
        45 => Some("KeyX"),
        46 => Some("KeyC"),
        47 => Some("KeyV"),
        48 => Some("KeyB"),
        49 => Some("KeyN"),
        50 => Some("KeyM"),
        51 => Some("Comma"),
        52 => Some("Period"),
        53 => Some("Slash"),
        54 => Some("ShiftRight"),
        55 => Some("NumpadMultiply"),
        56 => Some("AltLeft"),
        57 => Some("Space"),
        58 => Some("CapsLock"),
        59 => Some("F1"),
        60 => Some("F2"),
        61 => Some("F3"),
        62 => Some("F4"),
        63 => Some("F5"),
        64 => Some("F6"),
        65 => Some("F7"),
        66 => Some("F8"),
        67 => Some("F9"),
        68 => Some("F10"),
        69 => Some("NumLock"),
        70 => Some("ScrollLock"),
        71 => Some("Numpad7"),
        72 => Some("Numpad8"),
        73 => Some("Numpad9"),
        74 => Some("NumpadSubtract"),
        75 => Some("Numpad4"),
        76 => Some("Numpad5"),
        77 => Some("Numpad6"),
        78 => Some("NumpadAdd"),
        79 => Some("Numpad1"),
        80 => Some("Numpad2"),
        81 => Some("Numpad3"),
        82 => Some("Numpad0"),
        83 => Some("NumpadDecimal"),
        85 => Some("ZenkakuHankaku"),
        86 => Some("IntlBackslash"),
        87 => Some("F11"),
        88 => Some("F12"),
        _ => None,
    }
}

/// W3C name for a Linux input-event code in the shared range.
pub fn w3c_name(code: u16) -> (name: Option<&'static str>)
    ensures
        name == spec_w3c_name(code),
{
    match code {
        1 => Some("Escape"),
        2 => Some("Digit1"),
        3 => Some("Digit2"),
        4 => Some("Digit3"),
        5 => Some("Digit4"),
        6 => Some("Digit5"),
        7 => Some("Digit6"),
        8 => Some("Digit7"),
        9 => Some("Digit8"),
        10 => Some("Digit9"),
        11 => Some("Digit0"),
        12 => Some("Minus"),
        13 => Some("Equal"),
        14 => Some("Backspace"),
        15 => Some("Tab"),
        16 => Some("KeyQ"),
        17 => Some("KeyW"),
        18 => Some("KeyE"),
        19 => Some("KeyR"),
        20 => Some("KeyT"),
        21 => Some("KeyY"),
        22 => Some("KeyU"),
        23 => Some("KeyI"),
        24 => Some("KeyO"),
        25 => Some("KeyP"),
        26 => Some("BracketLeft"),
        27 => Some("BracketRight"),
        28 => Some("Enter"),
        29 => Some("ControlLeft"),
        30 => Some("KeyA"),
        31 => Some("KeyS"),
        32 => Some("KeyD"),
        33 => Some("KeyF"),
        34 => Some("KeyG"),
        35 => Some("KeyH"),
        36 => Some("KeyJ"),
        37 => Some("KeyK"),
        38 => Some("KeyL"),
        39 => Some("Semicolon"),
        40 => Some("Quote"),
        41 => Some("Backquote"),
        42 => Some("ShiftLeft"),
        43 => Some("Backslash"),
        44 => Some("KeyZ"),
        45 => Some("KeyX"),
        46 => Some("KeyC"),
        47 => Some("KeyV"),
        48 => Some("KeyB"),
        49 => Some("KeyN"),
        50 => Some("KeyM"),
        51 => Some("Comma"),
        52 => Some("Period"),
        53 => Some("Slash"),
        54 => Some("ShiftRight"),
        55 => Some("NumpadMultiply"),
        56 => Some("AltLeft"),
        57 => Some("Space"),
        58 => Some("CapsLock"),
        59 => Some("F1"),
        60 => Some("F2"),
        61 => Some("F3"),
        62 => Some("F4"),
        63 => Some("F5"),
        64 => Some("F6"),
        65 => Some("F7"),
        66 => Some("F8"),
        67 => Some("F9"),
        68 => Some("F10"),
        69 => Some("NumLock"),
        70 => Some("ScrollLock"),
        71 => Some("Numpad7"),
        72 => Some("Numpad8"),
        73 => Some("Numpad9"),
        74 => Some("NumpadSubtract"),
        75 => Some("Numpad4"),
        76 => Some("Numpad5"),
        77 => Some("Numpad6"),
        78 => Some("NumpadAdd"),
        79 => Some("Numpad1"),
        80 => Some("Numpad2"),
        81 => Some("Numpad3"),
        82 => Some("Numpad0"),
        83 => Some("NumpadDecimal"),
        85 => Some("ZenkakuHankaku"),
        86 => Some("IntlBackslash"),
        87 => Some("F11"),
        88 => Some("F12"),
        _ => None,
    }
}

/// Exactly the codes 1-88 other than 84 have a name.
pub proof fn lemma_w3c_table_covers(code: u16)
    ensures
        spec_w3c_name(code) is Some <==> (1 <= code <= 88 && code != 84),
{
}

/// No name is shared by two codes.
pub proof fn lemma_w3c_names_distinct(a: u16, b: u16)
    requires
        spec_w3c_name(a) is Some,
        spec_w3c_name(a) == spec_w3c_name(b),
    ensures
        a == b,
{
}

/// The table agrees with `linux/input-event-codes.h`: the name of each code
/// is the W3C code of the key whose `KEY_*` constant it is (e.g. `KEY_Q` is
/// 16 and names `KeyQ`; `KEY_W` is 17 and names `KeyW`).
pub proof fn lemma_w3c_names_follow_linux_key_codes()
    ensures
        spec_w3c_name(1) == Some("Escape"),  // KEY_ESC
        spec_w3c_name(2) == Some("Digit1"),  // KEY_1
        spec_w3c_name(3) == Some("Digit2"),  // KEY_2
        spec_w3c_name(4) == Some("Digit3"),  // KEY_3
        spec_w3c_name(5) == Some("Digit4"),  // KEY_4
        spec_w3c_name(6) == Some("Digit5"),  // KEY_5
        spec_w3c_name(7) == Some("Digit6"),  // KEY_6
        spec_w3c_name(8) == Some("Digit7"),  // KEY_7
        spec_w3c_name(9) == Some("Digit8"),  // KEY_8
        spec_w3c_name(10) == Some("Digit9"),  // KEY_9
        spec_w3c_name(11) == Some("Digit0"),  // KEY_0
        spec_w3c_name(12) == Some("Minus"),  // KEY_MINUS
        spec_w3c_name(13) == Some("Equal"),  // KEY_EQUAL
        spec_w3c_name(14) == Some("Backspace"),  // KEY_BACKSPACE
        spec_w3c_name(15) == Some("Tab"),  // KEY_TAB
        spec_w3c_name(16) == Some("KeyQ"),  // KEY_Q
        spec_w3c_name(17) == Some("KeyW"),  // KEY_W
        spec_w3c_name(18) == Some("KeyE"),  // KEY_E
        spec_w3c_name(19) == Some("KeyR"),  // KEY_R
        spec_w3c_name(20) == Some("KeyT"),  // KEY_T
        spec_w3c_name(21) == Some("KeyY"),  // KEY_Y
        spec_w3c_name(22) == Some("KeyU"),  // KEY_U
        spec_w3c_name(23) == Some("KeyI"),  // KEY_I
        spec_w3c_name(24) == Some("KeyO"),  // KEY_O
        spec_w3c_name(25) == Some("KeyP"),  // KEY_P
        spec_w3c_name(26) == Some("BracketLeft"),  // KEY_LEFTBRACE
        spec_w3c_name(27) == Some("BracketRight"),  // KEY_RIGHTBRACE
        spec_w3c_name(28) == Some("Enter"),  // KEY_ENTER
        spec_w3c_name(29) == Some("ControlLeft"),  // KEY_LEFTCTRL
        spec_w3c_name(30) == Some("KeyA"),  // KEY_A
        spec_w3c_name(31) == Some("KeyS"),  // KEY_S
        spec_w3c_name(32) == Some("KeyD"),  // KEY_D
        spec_w3c_name(33) == Some("KeyF"),  // KEY_F
        spec_w3c_name(34) == Some("KeyG"),  // KEY_G
        spec_w3c_name(35) == Some("KeyH"),  // KEY_H
        spec_w3c_name(36) == Some("KeyJ"),  // KEY_J
        spec_w3c_name(37) == Some("KeyK"),  // KEY_K
        spec_w3c_name(38) == Some("KeyL"),  // KEY_L
        spec_w3c_name(39) == Some("Semicolon"),  // KEY_SEMICOLON
        spec_w3c_name(40) == Some("Quote"),  // KEY_APOSTROPHE
        spec_w3c_name(41) == Some("Backquote"),  // KEY_GRAVE
        spec_w3c_name(42) == Some("ShiftLeft"),  // KEY_LEFTSHIFT
        spec_w3c_name(43) == Some("Backslash"),  // KEY_BACKSLASH
        spec_w3c_name(44) == Some("KeyZ"),  // KEY_Z
        spec_w3c_name(45) == Some("KeyX"),  // KEY_X
        spec_w3c_name(46) == Some("KeyC"),  // KEY_C
        spec_w3c_name(47) == Some("KeyV"),  // KEY_V
        spec_w3c_name(48) == Some("KeyB"),  // KEY_B
        spec_w3c_name(49) == Some("KeyN"),  // KEY_N
        spec_w3c_name(50) == Some("KeyM"),  // KEY_M
        spec_w3c_name(51) == Some("Comma"),  // KEY_COMMA
        spec_w3c_name(52) == Some("Period"),  // KEY_DOT
        spec_w3c_name(53) == Some("Slash"),  // KEY_SLASH
        spec_w3c_name(54) == Some("ShiftRight"),  // KEY_RIGHTSHIFT
        spec_w3c_name(55) == Some("NumpadMultiply"),  // KEY_KPASTERISK
        spec_w3c_name(56) == Some("AltLeft"),  // KEY_LEFTALT
        spec_w3c_name(57) == Some("Space"),  // KEY_SPACE
        spec_w3c_name(58) == Some("CapsLock"),  // KEY_CAPSLOCK
        spec_w3c_name(59) == Some("F1"),  // KEY_F1
        spec_w3c_name(60) == Some("F2"),  // KEY_F2
        spec_w3c_name(61) == Some("F3"),  // KEY_F3
        spec_w3c_name(62) == Some("F4"),  // KEY_F4
        spec_w3c_name(63) == Some("F5"),  // KEY_F5
        spec_w3c_name(64) == Some("F6"),  // KEY_F6
        spec_w3c_name(65) == Some("F7"),  // KEY_F7
        spec_w3c_name(66) == Some("F8"),  // KEY_F8
        spec_w3c_name(67) == Some("F9"),  // KEY_F9
        spec_w3c_name(68) == Some("F10"),  // KEY_F10
        spec_w3c_name(69) == Some("NumLock"),  // KEY_NUMLOCK
        spec_w3c_name(70) == Some("ScrollLock"),  // KEY_SCROLLLOCK
        spec_w3c_name(71) == Some("Numpad7"),  // KEY_KP7
        spec_w3c_name(72) == Some("Numpad8"),  // KEY_KP8
        spec_w3c_name(73) == Some("Numpad9"),  // KEY_KP9
        spec_w3c_name(74) == Some("NumpadSubtract"),  // KEY_KPMINUS
        spec_w3c_name(75) == Some("Numpad4"),  // KEY_KP4
        spec_w3c_name(76) == Some("Numpad5"),  // KEY_KP5
        spec_w3c_name(77) == Some("Numpad6"),  // KEY_KP6
        spec_w3c_name(78) == Some("NumpadAdd"),  // KEY_KPPLUS
        spec_w3c_name(79) == Some("Numpad1"),  // KEY_KP1
        spec_w3c_name(80) == Some("Numpad2"),  // KEY_KP2
        spec_w3c_name(81) == Some("Numpad3"),  // KEY_KP3
        spec_w3c_name(82) == Some("Numpad0"),  // KEY_KP0
        spec_w3c_name(83) == Some("NumpadDecimal"),  // KEY_KPDOT
        spec_w3c_name(85) == Some("ZenkakuHankaku"),  // KEY_ZENKAKUHANKAKU
        spec_w3c_name(86) == Some("IntlBackslash"),  // KEY_102ND
        spec_w3c_name(87) == Some("F11"),  // KEY_F11
        spec_w3c_name(88) == Some("F12"),  // KEY_F12
{
}

} // verus!
