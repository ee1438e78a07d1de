//! Keyboard input decisions: which input devices count as keyboards, the
//! W3C name of a raw key code, and what each key event sends (a key sound,
//! a key release, or the Ctrl+Alt+M mute hotkey), with the modifier state
//! shared by every keyboard.
//!
//! Reading devices and sending on channels is the caller's work.

use vstd::prelude::*;
use crate::keys::{spec_w3c_name, w3c_name};
use crate::status::{Health, opt_text};
use crate::text::{
    chars_of, contains, contains_seq, decimal, lowercase, push_decimal, push_str, string_of,
    to_lowercase,
};

verus! {

// ------------------------------------------------------------------ names

/// Key name for a raw evdev code: the shared table for the standard range,
/// then the evdev-specific extended codes (right Ctrl/Alt, Meta, arrows and
/// the navigation block); `""` for keys the daemon does not sound.
pub open spec fn spec_map_evdev_keycode(code: u16) -> &'static str {
    match spec_w3c_name(code) {
        Some(n) => n,
        None => match code {
            97 => "ControlRight",
            100 => "AltRight",
            125 => "MetaLeft",
            126 => "MetaRight",
            103 => "ArrowUp",
            108 => "ArrowDown",
            105 => "ArrowLeft",
            106 => "ArrowRight",
            110 => "Insert",
            111 => "Delete",
            102 => "Home",
            107 => "End",
            104 => "PageUp",
            109 => "PageDown",
            _ => "",
        },
    }
}

/// See [`spec_map_evdev_keycode`].
pub fn map_evdev_keycode(code: u16) -> (r: &'static str)
    ensures
        r == spec_map_evdev_keycode(code),
{
    if let Some(name) = w3c_name(code) {
        return name;
    }
    match code {
        97 => "ControlRight",
        100 => "AltRight",
        125 => "MetaLeft",
        126 => "MetaRight",
        103 => "ArrowUp",
        108 => "ArrowDown",
        105 => "ArrowLeft",
        106 => "ArrowRight",
        110 => "Insert",
        111 => "Delete",
        102 => "Home",
        107 => "End",
        104 => "PageUp",
        109 => "PageDown",
        _ => "",
    }
}

/// Keys beyond the shared table take the W3C name of the key whose
/// `linux/input-event-codes.h` constant they are.
pub proof fn lemma_evdev_extended_keys_follow_linux_key_codes()
    ensures
        spec_map_evdev_keycode(97) == "ControlRight",  // KEY_RIGHTCTRL
        spec_map_evdev_keycode(100) == "AltRight",  // KEY_RIGHTALT
        spec_map_evdev_keycode(102) == "Home",  // KEY_HOME
        spec_map_evdev_keycode(103) == "ArrowUp",  // KEY_UP
        spec_map_evdev_keycode(104) == "PageUp",  // KEY_PAGEUP
        spec_map_evdev_keycode(105) == "ArrowLeft",  // KEY_LEFT
        spec_map_evdev_keycode(106) == "ArrowRight",  // KEY_RIGHT
        spec_map_evdev_keycode(107) == "End",  // KEY_END
        spec_map_evdev_keycode(108) == "ArrowDown",  // KEY_DOWN
        spec_map_evdev_keycode(109) == "PageDown",  // KEY_PAGEDOWN
        spec_map_evdev_keycode(110) == "Insert",  // KEY_INSERT
        spec_map_evdev_keycode(111) == "Delete",  // KEY_DELETE
        spec_map_evdev_keycode(125) == "MetaLeft",  // KEY_LEFTMETA
        spec_map_evdev_keycode(126) == "MetaRight",  // KEY_RIGHTMETA
{
}

/// Codes of the shared table take its name.
pub proof fn lemma_evdev_shared_keys_use_the_table(code: u16)
    requires
        spec_w3c_name(code) is Some,
    ensures
        Some(spec_map_evdev_keycode(code)) == spec_w3c_name(code),
{
}

// ---------------------------------------------------------------- devices

/// Anchor keys that any full keyboard has at least one of: letters,
/// Enter/Space/Backspace/Tab/Esc, digits, F1/F12 and the numpad block.
/// Power and media keys are deliberately absent.
pub open spec fn is_anchor_key(code: u16) -> bool {
    ||| code == 30
    ||| code == 16
    ||| code == 44
    ||| code == 50
    ||| code == 28
    ||| code == 57
    ||| code == 14
    ||| code == 15
    ||| code == 1
    ||| code == 2
    ||| code == 11
    ||| code == 59
    ||| code == 88
    ||| code == 69
    ||| code == 82
    ||| code == 79
    ||| code == 71
    ||| code == 96
    ||| code == 98
    ||| code == 83
}

/// Some code in `keys` is an anchor key.
pub open spec fn lists_anchor_key(keys: Seq<u16>) -> bool {
    exists|i: int| 0 <= i < keys.len() && is_anchor_key(#[trigger] keys[i])
}

/// A lowercased device name that sounds like a keyboard.
pub open spec fn keyboardish_name(lower: Seq<char>) -> bool {
    ||| contains_seq(lower, "keyboard"@)
    ||| contains_seq(lower, "keypad"@)
    ||| contains_seq(lower, "numpad"@)
    ||| contains_seq(lower, "macropad"@)
    ||| contains_seq(lower, "kbd"@)
}

/// A device is a keyboard when it reports key capabilities (`supported` is
/// its list of key codes) and either has an anchor key or, for exotic
/// macropads, a keyboard-ish name.
pub open spec fn spec_is_keyboard_device(supported: Option<Seq<u16>>, name: Option<Seq<char>>) -> bool {
    match supported {
        None => false,
        Some(keys) => lists_anchor_key(keys) || keyboardish_name(
            lowercase(
                match name {
                    Some(n) => n,
                    None => Seq::empty(),
                },
            ),
        ),
    }
}

fn is_anchor_key_exec(code: u16) -> (r: bool)
    ensures
        r == is_anchor_key(code),
{
    code == 30 || code == 16 || code == 44 || code == 50 || code == 28 || code == 57 || code == 14
        || code == 15 || code == 1 || code == 2 || code == 11 || code == 59 || code == 88 || code
        == 69 || code == 82 || code == 79 || code == 71 || code == 96 || code == 98 || code == 83
}

fn has_anchor_key(keys: &Vec<u16>) -> (r: bool)
    ensures
        r == lists_anchor_key(keys@),
{
    let mut i: usize = 0;
    while i < keys.len()
        invariant
            i <= keys@.len(),
            forall|j: int| 0 <= j < i ==> !is_anchor_key(#[trigger] keys@[j]),
        decreases keys.len() - i,
    {
        if is_anchor_key_exec(keys[i]) {
            assert(is_anchor_key(keys@[i as int]));
            return true;
        }
        i = i + 1;
    }
    false
}

fn contains_word(lower: &Vec<char>, word: &str) -> (r: bool)
    ensures
        r == contains_seq(lower@, word@),
{
    let w = chars_of(word);
    contains(lower, &w)
}

/// See [`spec_is_keyboard_device`].
pub fn is_keyboard_device(supported: Option<&Vec<u16>>, name: Option<&str>) -> (r: bool)
    ensures
        r == spec_is_keyboard_device(
            match supported {
                Some(k) => Some(k@),
                None => None,
            },
            match name {
                Some(n) => Some(n@),
                None => None,
            },
        ),
{
    let ghost name_view: Option<Seq<char>> = match name {
        Some(n) => Some(n@),
        None => None,
    };
    let keys = match supported {
        Some(k) => k,
        None => return false,
    };
    if has_anchor_key(keys) {
        assert(spec_is_keyboard_device(Some(keys@), name_view));
        return true;
    }
    proof {
        reveal_strlit("");
    }
    let raw = match name {
        Some(n) => n,
        None => "",
    };
    assert(raw@ == match name_view {
        Some(n) => n,
        None => Seq::<char>::empty(),
    });
    let lowered = to_lowercase(raw);
    let lower = chars_of(lowered.as_str());
    let r = contains_word(&lower, "keyboard") || contains_word(&lower, "keypad") || contains_word(
        &lower,
        "numpad",
    ) || contains_word(&lower, "macropad") || contains_word(&lower, "kbd");
    assert(r == spec_is_keyboard_device(Some(keys@), name_view));
    r
}

// ----------------------------------------------------------- listener health

/// Health the listener reports on a scan while it holds no keyboard yet:
/// `device_count` input devices seen, `held` of them usable keyboards.
/// Returns whether the listener can start (it holds at least one).
pub fn report_first_scan(h: &mut Health, device_count: usize, held: usize) -> (ready: bool)
    ensures
        ready == (device_count > 0 && held > 0),
        device_count == 0 ==> final(h).input_keyboards == 0 && opt_text(final(h).input_error)
            == Some("no_input_devices: cannot open /dev/input/event*"@),
        device_count > 0 && held == 0 ==> final(h).input_keyboards == 0 && opt_text(
            final(h).input_error,
        ) == Some("no_keyboards: saw "@ + decimal(device_count as nat)
            + " input device(s) but none usable"@),
        ready ==> final(h).input_keyboards == held && final(h).input_error is None,
        final(h).last_key_unix == old(h).last_key_unix,
        final(h).pack_state == old(h).pack_state,
        final(h).audio_ok == old(h).audio_ok,
        final(h).pack_error == old(h).pack_error,
        final(h).audio_error == old(h).audio_error,
        final(h).default_sink == old(h).default_sink,
        final(h).opened_device == old(h).opened_device,
{
    if device_count == 0 {
        h.input_keyboards = 0;
        h.input_error = Some(String::from_str("no_input_devices: cannot open /dev/input/event*"));
        return false;
    }
    if held == 0 {
        let mut msg = chars_of("no_keyboards: saw ");
        push_decimal(&mut msg, device_count as u64);
        push_str(&mut msg, " input device(s) but none usable");
        h.input_keyboards = 0;
        h.input_error = Some(string_of(msg));
        return false;
    }
    h.input_keyboards = held;
    h.input_error = None;
    true
}

/// Health the supervisor reports after each rescan: the keyboards it holds,
/// and an error when every keyboard is gone.
pub fn report_supervisor_scan(h: &mut Health, held: usize)
    ensures
        final(h).input_keyboards == held,
        held == 0 ==> opt_text(final(h).input_error) == Some(
            "no_keyboards: all keyboards disconnected"@,
        ),
        held > 0 ==> final(h).input_error is None,
        final(h).last_key_unix == old(h).last_key_unix,
        final(h).pack_state == old(h).pack_state,
        final(h).audio_ok == old(h).audio_ok,
        final(h).pack_error == old(h).pack_error,
        final(h).audio_error == old(h).audio_error,
        final(h).default_sink == old(h).default_sink,
        final(h).opened_device == old(h).opened_device,
{
    h.input_keyboards = held;
    if held == 0 {
        h.input_error = Some(String::from_str("no_keyboards: all keyboards disconnected"));
    } else {
        h.input_error = None;
    }
}

// ---------------------------------------------------------------- events

/// Modifier counts shared by every keyboard, so a chord split over two
/// keyboards still fires the hotkey; counts (not flags) so two keyboards
/// holding Ctrl at once release cleanly.
#[derive(Debug, Clone, Copy, PartialEq, Eq, Structural)]
pub struct SharedMods {
    pub ctrl_held: u32,
    pub alt_held: u32,
}

/// Which modifiers one keyboard currently holds.
#[derive(Debug, Clone, Copy, PartialEq, Eq, Structural)]
pub struct DeviceMods {
    pub ctrl: bool,
    pub alt: bool,
}

impl SharedMods {
    /// No modifier held anywhere.
    pub fn new() -> (s: SharedMods)
        ensures
            s.ctrl_held == 0 && s.alt_held == 0,
    {
        SharedMods { ctrl_held: 0, alt_held: 0 }
    }
}

impl DeviceMods {
    /// No modifier held on this keyboard.
    pub fn new() -> (d: DeviceMods)
        ensures
            !d.ctrl && !d.alt,
    {
        DeviceMods { ctrl: false, alt: false }
    }
}

/// What one key event sends.
#[derive(Debug, Clone, PartialEq, Eq)]
pub enum KeySignal {
    /// Nothing (not a key the daemon sounds, or not a press/repeat/release).
    Nothing,
    /// This text on the key-sound channel: the key name for a press or
    /// repeat, `UP:<name>` for a release.
    Keyboard(String),
    /// This text on the hotkey channel.
    Hotkey(String),
}

/// [`KeySignal`] with its text as a character sequence.
pub enum SignalView {
    Nothing,
    Keyboard(Seq<char>),
    Hotkey(Seq<char>),
}

impl View for KeySignal {
    type V = SignalView;

    open spec fn view(&self) -> SignalView {
        match self {
            KeySignal::Nothing => SignalView::Nothing,
            KeySignal::Keyboard(s) => SignalView::Keyboard(s@),
            KeySignal::Hotkey(s) => SignalView::Hotkey(s@),
        }
    }
}

/// The code names `ControlLeft` or `ControlRight`.
pub open spec fn is_ctrl_code(code: u16) -> bool {
    code == 29 || code == 97
}

/// The code names `AltLeft` or `AltRight`.
pub open spec fn is_alt_code(code: u16) -> bool {
    code == 56 || code == 100
}

/// The code names `KeyM`.
pub open spec fn is_m_code(code: u16) -> bool {
    code == 50
}

/// `n + 1`, saturating.
pub open spec fn inc(n: u32) -> u32 {
    if n == u32::MAX {
        n
    } else {
        (n + 1) as u32
    }
}

/// `n - 1`, saturating at zero.
pub open spec fn dec(n: u32) -> u32 {
    if n == 0 {
        0
    } else {
        (n - 1) as u32
    }
}

/// One key event (`value` 1 = press, 2 = autorepeat, 0 = release) on a
/// keyboard holding `local`, with `shared` held across keyboards: the new
/// modifier state and what is sent.
///
/// A press of Ctrl or Alt not yet held on this keyboard marks it held here
/// and counts it in `shared`; its release undoes that; autorepeat changes
/// nothing. An initial press of M while some keyboard holds Ctrl and some
/// holds Alt sends the mute hotkey instead of a key sound.
pub open spec fn spec_key_step(local: DeviceMods, shared: SharedMods, code: u16, value: i32) -> (
    DeviceMods,
    SharedMods,
    SignalView,
) {
    let name = spec_map_evdev_keycode(code)@;
    if name.len() == 0 {
        (local, shared, SignalView::Nothing)
    } else if value == 1 || value == 2 {
        let repeat = value == 2;
        if is_ctrl_code(code) && !repeat && !local.ctrl {
            (
                DeviceMods { ctrl: true, ..local },
                SharedMods { ctrl_held: inc(shared.ctrl_held), ..shared },
                SignalView::Keyboard(name),
            )
        } else if is_alt_code(code) && !repeat && !local.alt {
            (
                DeviceMods { alt: true, ..local },
                SharedMods { alt_held: inc(shared.alt_held), ..shared },
                SignalView::Keyboard(name),
            )
        } else if is_m_code(code) && !repeat && shared.ctrl_held > 0 && shared.alt_held > 0 {
            (local, shared, SignalView::Hotkey("TOGGLE_SOUND"@))
        } else {
            (local, shared, SignalView::Keyboard(name))
        }
    } else if value == 0 {
        let up = SignalView::Keyboard("UP:"@ + name);
        if is_ctrl_code(code) && local.ctrl {
            (
                DeviceMods { ctrl: false, ..local },
                SharedMods { ctrl_held: dec(shared.ctrl_held), ..shared },
                up,
            )
        } else if is_alt_code(code) && local.alt {
            (
                DeviceMods { alt: false, ..local },
                SharedMods { alt_held: dec(shared.alt_held), ..shared },
                up,
            )
        } else {
            (local, shared, up)
        }
    } else {
        (local, shared, SignalView::Nothing)
    }
}

/// Handles one key event (see [`spec_key_step`]).
pub fn handle_key_event(local: &mut DeviceMods, shared: &mut SharedMods, code: u16, value: i32) -> (r:
    KeySignal)
    ensures
        (*final(local), *final(shared), r@) == spec_key_step(*old(local), *old(shared), code, value),
{
    let name = map_evdev_keycode(code);
    if name.is_empty() {
        return KeySignal::Nothing;
    }
    if value == 1 || value == 2 {
        let repeat = value == 2;
        if (code == 29 || code == 97) && !repeat && !local.ctrl {
            local.ctrl = true;
            shared.ctrl_held = shared.ctrl_held.saturating_add(1);
        } else if (code == 56 || code == 100) && !repeat && !local.alt {
            local.alt = true;
            shared.alt_held = shared.alt_held.saturating_add(1);
        } else if code == 50 && !repeat && shared.ctrl_held > 0 && shared.alt_held > 0 {
            return KeySignal::Hotkey(String::from_str("TOGGLE_SOUND"));
        }
        KeySignal::Keyboard(name.to_owned())
    } else if value == 0 {
        if (code == 29 || code == 97) && local.ctrl {
            local.ctrl = false;
            shared.ctrl_held = shared.ctrl_held.saturating_sub(1);
        } else if (code == 56 || code == 100) && local.alt {
            local.alt = false;
            shared.alt_held = shared.alt_held.saturating_sub(1);
        }
        let mut up = chars_of("UP:");
        push_str(&mut up, name);
        KeySignal::Keyboard(string_of(up))
    } else {
        KeySignal::Nothing
    }
}

/// How many keyboards hold Ctrl.
pub open spec fn ctrl_count(devs: Seq<DeviceMods>) -> nat
    decreases devs.len(),
{
    if devs.len() == 0 {
        0
    } else {
        ctrl_count(devs.drop_last()) + if devs.last().ctrl {
            1nat
        } else {
            0nat
        }
    }
}

/// How many keyboards hold Alt.
pub open spec fn alt_count(devs: Seq<DeviceMods>) -> nat
    decreases devs.len(),
{
    if devs.len() == 0 {
        0
    } else {
        alt_count(devs.drop_last()) + if devs.last().alt {
            1nat
        } else {
            0nat
        }
    }
}

proof fn lemma_counts_bounded(devs: Seq<DeviceMods>)
    ensures
        ctrl_count(devs) <= devs.len(),
        alt_count(devs) <= devs.len(),
    decreases devs.len(),
{
    if devs.len() > 0 {
        lemma_counts_bounded(devs.drop_last());
    }
}

proof fn lemma_counts_update(devs: Seq<DeviceMods>, i: int, d: DeviceMods)
    requires
        0 <= i < devs.len(),
    ensures
        ctrl_count(devs.update(i, d)) + (if devs[i].ctrl {
            1int
        } else {
            0int
        }) == ctrl_count(devs) + (if d.ctrl {
            1int
        } else {
            0int
        }),
        alt_count(devs.update(i, d)) + (if devs[i].alt {
            1int
        } else {
            0int
        }) == alt_count(devs) + (if d.alt {
            1int
        } else {
            0int
        }),
    decreases devs.len(),
{
    let u = devs.update(i, d);
    if i == devs.len() - 1 {
        assert(u.drop_last() =~= devs.drop_last());
    } else {
        assert(u.drop_last() =~= devs.drop_last().update(i, d));
        lemma_counts_update(devs.drop_last(), i, d);
    }
}

/// The shared modifier counts always equal the number of keyboards holding
/// each modifier: if they do before an event on any one keyboard, they do
/// after it (with fewer than `u32::MAX` keyboards, so counts never
/// saturate).
pub proof fn lemma_shared_counts_track_keyboards(
    devs: Seq<DeviceMods>,
    shared: SharedMods,
    i: int,
    code: u16,
    value: i32,
)
    requires
        0 <= i < devs.len(),
        devs.len() < u32::MAX,
        shared.ctrl_held == ctrl_count(devs),
        shared.alt_held == alt_count(devs),
    ensures
        ({
            let (d2, s2, _) = spec_key_step(devs[i], shared, code, value);
            s2.ctrl_held == ctrl_count(devs.update(i, d2)) && s2.alt_held == alt_count(
                devs.update(i, d2),
            )
        }),
{
    let (d2, s2, _) = spec_key_step(devs[i], shared, code, value);
    lemma_counts_bounded(devs);
    lemma_counts_update(devs, i, d2);
    if devs[i].ctrl {
        lemma_counts_update(devs, i, DeviceMods { ctrl: false, ..devs[i] });
    }
    if devs[i].alt {
        lemma_counts_update(devs, i, DeviceMods { alt: false, ..devs[i] });
    }
}

/// The mute hotkey fires exactly on an initial M press while some keyboard
/// holds Ctrl and some keyboard holds Alt, and then no key sound is sent.
pub proof fn lemma_hotkey_needs_ctrl_and_alt(
    devs: Seq<DeviceMods>,
    shared: SharedMods,
    i: int,
    code: u16,
    value: i32,
)
    requires
        0 <= i < devs.len(),
        shared.ctrl_held == ctrl_count(devs),
        shared.alt_held == alt_count(devs),
    ensures
        (spec_key_step(devs[i], shared, code, value).2 is Hotkey) <==> (code == 50 && value == 1
            && (exists|j: int| 0 <= j < devs.len() && #[trigger] devs[j].ctrl) && (exists|j: int|
            0 <= j < devs.len() && #[trigger] devs[j].alt)),
{
    lemma_some_holder_iff_count(devs);
    reveal_strlit("KeyM");
}

proof fn lemma_some_holder_iff_count(devs: Seq<DeviceMods>)
    ensures
        (ctrl_count(devs) > 0) <==> (exists|j: int| 0 <= j < devs.len() && #[trigger] devs[j].ctrl),
        (alt_count(devs) > 0) <==> (exists|j: int| 0 <= j < devs.len() && #[trigger] devs[j].alt),
    decreases devs.len(),
{
    if devs.len() > 0 {
        let p = devs.drop_last();
        lemma_some_holder_iff_count(p);
        if exists|j: int| 0 <= j < p.len() && #[trigger] p[j].ctrl {
            let j = choose|j: int| 0 <= j < p.len() && #[trigger] p[j].ctrl;
            assert(devs[j].ctrl);
        }
        if exists|j: int| 0 <= j < p.len() && #[trigger] p[j].alt {
            let j = choose|j: int| 0 <= j < p.len() && #[trigger] p[j].alt;
            assert(devs[j].alt);
        }
        if exists|j: int| 0 <= j < devs.len() && #[trigger] devs[j].ctrl {
            let j = choose|j: int| 0 <= j < devs.len() && #[trigger] devs[j].ctrl;
            if j < devs.len() - 1 {
                assert(p[j].ctrl);
            }
        }
        if exists|j: int| 0 <= j < devs.len() && #[trigger] devs[j].alt {
            let j = choose|j: int| 0 <= j < devs.len() && #[trigger] devs[j].alt;
            if j < devs.len() - 1 {
                assert(p[j].alt);
            }
        }
    }
}

} // verus!
