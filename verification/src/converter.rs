//! V1 → V2 soundpack conversion decisions: reading V1 define keys, the
//! IOHook key-name table, the order defines are processed in, which audio
//! files a multi-file pack concatenates, and which timing sources each V2
//! key definition collects.
//!
//! Decoding and concatenating audio, the timing arithmetic on those files
//! and writing the converted config are the caller's work.

use vstd::prelude::*;
use std::collections::HashMap;
use crate::json::{Json, as_object, as_str, get, spec_as_str, spec_get};
use crate::keys::{spec_w3c_name, w3c_name};
use crate::keyboard::spec_map_evdev_keycode;
use crate::numbers::{parse_unsigned, spec_parse_unsigned};
use crate::paths::chars_eq;
use crate::pack_checker::string_texts;
use crate::pack_checker::{SoundpackValidationResult, SoundpackValidationStatus, StatusView, ValidationView};
use crate::text::{chars_of, lowercase, push_all, push_str, string_of, to_lowercase};

verus! {

broadcast use vstd::std_specs::hash::group_hash_axioms;

// ------------------------------------------------------------- define keys

/// A V1 define key: its IOHook code, and whether it is a press (a key
/// written with a leading zero, such as `030`, is the release of code 30).
pub open spec fn spec_iohook_code_and_press(define_key: Seq<char>) -> Option<(u32, bool)> {
    match spec_parse_unsigned(define_key, u32::MAX as nat) {
        Some(n) => Some((n as u32, !(define_key.len() > 1 && define_key[0] == '0'))),
        None => None,
    }
}

/// See [`spec_iohook_code_and_press`].
pub fn iohook_code_and_press(define_key: &str) -> (r: Option<(u32, bool)>)
    ensures
        r == spec_iohook_code_and_press(define_key@),
{
    let k = chars_of(define_key);
    let is_press = !(k.len() > 1 && k[0] == '0');
    match parse_unsigned(&k, u32::MAX as u64) {
        Some(n) => Some((n as u32, is_press)),
        None => None,
    }
}

// ------------------------------------------------------------- key table

/// W3C key name for an IOHook (V1) key code: the shared standard range
/// (1-88), then the IOHook-only codes (F13-F24, international keys, the
/// 0x0Exx and 0xE0xx extended ranges, legacy V1 compatibility codes and the
/// Sun keys).
pub open spec fn spec_iohook_key_name(code: u32) -> Option<&'static str> {
    if code <= 88 {
        spec_w3c_name(code as u16)
    } else {
        match code {
            91 => Some("F13"),
            92 => Some("F14"),
            93 => Some("F15"),
            99 => Some("F16"),
            100 => Some("F17"),
            101 => Some("F18"),
            102 => Some("F19"),
            103 => Some("F20"),
            104 => Some("F21"),
            105 => Some("F22"),
            106 => Some("F23"),
            107 => Some("F24"),
            112 => Some("Convert"),
            115 => Some("Lang1"),
            119 => Some("Lang2"),
            121 => Some("KanaMode"),
            123 => Some("HiraganaKatakana"),
            125 => Some("IntlYen"),
            126 => Some("NumpadComma"),
            3637 => Some("NumpadDivide"),
            3612 => Some("NumpadEnter"),
            3597 => Some("ControlRight"),
            3645 => Some("NumpadEquals"),
            57399 => Some("PrintScreen"),
            58437 => Some("Pause"),
            57415 => Some("Home"),
            57416 => Some("ArrowUp"),
            57417 => Some("PageUp"),
            57419 => Some("ArrowLeft"),
            57421 => Some("ArrowRight"),
            57423 => Some("End"),
            57424 => Some("ArrowDown"),
            57425 => Some("PageDown"),
            57426 => Some("Insert"),
            57427 => Some("Delete"),
            57400 => Some("AltRight"),
            57435 => Some("MetaLeft"),
            57436 => Some("MetaRight"),
            57437 => Some("ContextMenu"),
            57438 => Some("Power"),
            57439 => Some("Sleep"),
            57443 => Some("WakeUp"),
            57360 => Some("MediaTrackPrevious"),
            57369 => Some("MediaTrackNext"),
            57376 => Some("AudioVolumeMute"),
            57377 => Some("LaunchApp2"),
            57378 => Some("MediaPlayPause"),
            57380 => Some("MediaStop"),
            57390 => Some("AudioVolumeDown"),
            57392 => Some("AudioVolumeUp"),
            57394 => Some("BrowserHome"),
            57404 => Some("LaunchApp1"),
            57444 => Some("LaunchApp3"),
            57445 => Some("BrowserSearch"),
            57446 => Some("BrowserFavorites"),
            57447 => Some("BrowserRefresh"),
            57448 => Some("BrowserStop"),
            57449 => Some("BrowserForward"),
            57450 => Some("BrowserBack"),
            57452 => Some("LaunchMail"),
            57453 => Some("MediaSelect"),
            58444 => Some("Clear"),
            58470 => Some("IntlBackslash"),
            3613 => Some("ControlRight"),
            3639 => Some("Numpad7"),
            3640 => Some("AltRight"),
            3653 => Some("Numpad9"),
            3655 => Some("NumpadAdd"),
            3657 => Some("Numpad4"),
            3663 => Some("Numpad5"),
            3665 => Some("Numpad6"),
            3666 => Some("Numpad1"),
            3667 => Some("Numpad2"),
            3675 => Some("NumpadDecimal"),
            3676 => Some("Numpad0"),
            60999 => Some("Insert"),
            61000 => Some("Delete"),
            61001 => Some("Home"),
            61003 => Some("End"),
            61005 => Some("PageUp"),
            61007 => Some("PageDown"),
            61008 => Some("PrintScreen"),
            61009 => Some("ScrollLock"),
            61010 => Some("Pause"),
            61011 => Some("NumpadDecimal"),
            94 => Some("IntlBackslash"),
            95 => Some("Fn"),
            96 => Some("Clear"),
            65397 => Some("Help"),
            65398 => Some("Props"),
            65399 => Some("Front"),
            65400 => Some("Stop"),
            65401 => Some("Again"),
            65402 => Some("Undo"),
            65403 => Some("Cut"),
            65404 => Some("Copy"),
            65405 => Some("Paste"),
            65406 => Some("Find"),
            _ => None,
        }
    }
}

/// IOHook codes in the shared range (1-88) name what the Linux key table
/// names: the two keyspaces agree there.
pub proof fn lemma_iohook_shared_range_is_the_linux_table(code: u32)
    requires
        code <= 88,
    ensures
        spec_iohook_key_name(code) == spec_w3c_name(code as u16),
{
}

/// The extended IOHook codes (libuiohook `VC_*`, `0xE0xx` for the keys a
/// set-1 scancode prefixes with `E0`) name the same key as their evdev
/// counterpart: `VC_LEFT` (0xE04B) and `KEY_LEFT` are both the left arrow,
/// `VC_RIGHT` (0xE04D) and `KEY_RIGHT` both the right arrow, and so on.
pub proof fn lemma_iohook_extended_codes_match_evdev()
    ensures
        spec_iohook_key_name(0xE048) == Some(spec_map_evdev_keycode(103)),  // VC_UP, KEY_UP
        spec_iohook_key_name(0xE04B) == Some(spec_map_evdev_keycode(105)),  // VC_LEFT, KEY_LEFT
        spec_iohook_key_name(0xE04D) == Some(spec_map_evdev_keycode(106)),  // VC_RIGHT, KEY_RIGHT
        spec_iohook_key_name(0xE050) == Some(spec_map_evdev_keycode(108)),  // VC_DOWN, KEY_DOWN
        spec_iohook_key_name(0xE047) == Some(spec_map_evdev_keycode(102)),  // VC_HOME, KEY_HOME
        spec_iohook_key_name(0xE04F) == Some(spec_map_evdev_keycode(107)),  // VC_END, KEY_END
        spec_iohook_key_name(0xE049) == Some(spec_map_evdev_keycode(104)),  // VC_PAGE_UP, KEY_PAGEUP
        spec_iohook_key_name(0xE051) == Some(spec_map_evdev_keycode(109)),  // VC_PAGE_DOWN, KEY_PAGEDOWN
        spec_iohook_key_name(0xE052) == Some(spec_map_evdev_keycode(110)),  // VC_INSERT, KEY_INSERT
        spec_iohook_key_name(0xE053) == Some(spec_map_evdev_keycode(111)),  // VC_DELETE, KEY_DELETE
        spec_iohook_key_name(0x0E1D) == Some(spec_map_evdev_keycode(97)),  // VC_CONTROL_R, KEY_RIGHTCTRL
        spec_iohook_key_name(0xE038) == Some(spec_map_evdev_keycode(100)),  // VC_ALT_R, KEY_RIGHTALT
        spec_iohook_key_name(0xE05B) == Some(spec_map_evdev_keycode(125)),  // VC_META_L, KEY_LEFTMETA
        spec_iohook_key_name(0xE05C) == Some(spec_map_evdev_keycode(126)),  // VC_META_R, KEY_RIGHTMETA
{
}

/// See [`spec_iohook_key_name`].
pub fn iohook_key_name(code: u32) -> (r: Option<&'static str>)
    ensures
        r == spec_iohook_key_name(code),
{
    if code <= 88 {
        return w3c_name(code as u16);
    }
    match code {
        91 => Some("F13"),
        92 => Some("F14"),
        93 => Some("F15"),
        99 => Some("F16"),
        100 => Some("F17"),
        101 => Some("F18"),
        102 => Some("F19"),
        103 => Some("F20"),
        104 => Some("F21"),
        105 => Some("F22"),
        106 => Some("F23"),
        107 => Some("F24"),
        112 => Some("Convert"),
        115 => Some("Lang1"),
        119 => Some("Lang2"),
        121 => Some("KanaMode"),
        123 => Some("HiraganaKatakana"),
        125 => Some("IntlYen"),
        126 => Some("NumpadComma"),
        3637 => Some("NumpadDivide"),
        3612 => Some("NumpadEnter"),
        3597 => Some("ControlRight"),
        3645 => Some("NumpadEquals"),
        57399 => Some("PrintScreen"),
        58437 => Some("Pause"),
        57415 => Some("Home"),
        57416 => Some("ArrowUp"),
        57417 => Some("PageUp"),
        57419 => Some("ArrowLeft"),
        57421 => Some("ArrowRight"),
        57423 => Some("End"),
        57424 => Some("ArrowDown"),
        57425 => Some("PageDown"),
        57426 => Some("Insert"),
        57427 => Some("Delete"),
        57400 => Some("AltRight"),
        57435 => Some("MetaLeft"),
        57436 => Some("MetaRight"),
        57437 => Some("ContextMenu"),
        57438 => Some("Power"),
        57439 => Some("Sleep"),
        57443 => Some("WakeUp"),
        57360 => Some("MediaTrackPrevious"),
        57369 => Some("MediaTrackNext"),
        57376 => Some("AudioVolumeMute"),
        57377 => Some("LaunchApp2"),
        57378 => Some("MediaPlayPause"),
        57380 => Some("MediaStop"),
        57390 => Some("AudioVolumeDown"),
        57392 => Some("AudioVolumeUp"),
        57394 => Some("BrowserHome"),
        57404 => Some("LaunchApp1"),
        57444 => Some("LaunchApp3"),
        57445 => Some("BrowserSearch"),
        57446 => Some("BrowserFavorites"),
        57447 => Some("BrowserRefresh"),
        57448 => Some("BrowserStop"),
        57449 => Some("BrowserForward"),
        57450 => Some("BrowserBack"),
        57452 => Some("LaunchMail"),
        57453 => Some("MediaSelect"),
        58444 => Some("Clear"),
        58470 => Some("IntlBackslash"),
        3613 => Some("ControlRight"),
        3639 => Some("Numpad7"),
        3640 => Some("AltRight"),
        3653 => Some("Numpad9"),
        3655 => Some("NumpadAdd"),
        3657 => Some("Numpad4"),
        3663 => Some("Numpad5"),
        3665 => Some("Numpad6"),
        3666 => Some("Numpad1"),
        3667 => Some("Numpad2"),
        3675 => Some("NumpadDecimal"),
        3676 => Some("Numpad0"),
        60999 => Some("Insert"),
        61000 => Some("Delete"),
        61001 => Some("Home"),
        61003 => Some("End"),
        61005 => Some("PageUp"),
        61007 => Some("PageDown"),
        61008 => Some("PrintScreen"),
        61009 => Some("ScrollLock"),
        61010 => Some("Pause"),
        61011 => Some("NumpadDecimal"),
        94 => Some("IntlBackslash"),
        95 => Some("Fn"),
        96 => Some("Clear"),
        65397 => Some("Help"),
        65398 => Some("Props"),
        65399 => Some("Front"),
        65400 => Some("Stop"),
        65401 => Some("Again"),
        65402 => Some("Undo"),
        65403 => Some("Cut"),
        65404 => Some("Copy"),
        65405 => Some("Paste"),
        65406 => Some("Find"),
        _ => None,
    }
}

/// Every IOHook code the table names lies below 65536.
pub proof fn lemma_iohook_codes_fit_in_16_bits(code: u32)
    requires
        code >= 65536,
    ensures
        spec_iohook_key_name(code) is None,
{
}

/// The whole IOHook → W3C table as a map: exactly the codes that
/// [`spec_iohook_key_name`] names, each with its name.
pub fn create_iohook_to_web_key_mapping() -> (m: HashMap<u32, String>)
    ensures
        forall|c: u32| #[trigger]
            m@.contains_key(c) <==> spec_iohook_key_name(c) is Some,
        forall|c: u32|
            #[trigger] m@.contains_key(c) ==> m@[c]@ == spec_iohook_key_name(c)->0@,
{
    let mut m: HashMap<u32, String> = HashMap::new();
    let mut code: u32 = 0;
    while code < 65536
        invariant
            code <= 65536,
            forall|c: u32| #[trigger]
                m@.contains_key(c) <==> (c < code && spec_iohook_key_name(c) is Some),
            forall|c: u32|
                #[trigger] m@.contains_key(c) ==> m@[c]@ == spec_iohook_key_name(c)->0@,
        decreases 65536 - code,
    {
        if let Some(name) = iohook_key_name(code) {
            m.insert(code, name.to_owned());
        }
        code = code + 1;
    }
    m
}

// ------------------------------------------------------------- define order

/// Where a define is processed: presses before releases, then by code.
/// A key that is not a number sorts after every number, among the presses
/// or, when `unreadable_is_release`, among the releases.
pub open spec fn define_order_key(define_key: Seq<char>, unreadable_is_release: bool) -> u64 {
    match spec_iohook_code_and_press(define_key) {
        Some((num, press)) => ((if press {
            0u64
        } else {
            0x1_0000_0000u64
        }) + num) as u64,
        None => ((if unreadable_is_release {
            0x1_0000_0000u64
        } else {
            0u64
        }) + u32::MAX) as u64,
    }
}

/// The order keys of all defines, in document order.
pub open spec fn define_order_keys(defines: Seq<(String, Json)>, unreadable_is_release: bool) -> Seq<u64> {
    Seq::new(defines.len(), |i: int| define_order_key(defines[i].0@, unreadable_is_release))
}

/// Index `a` comes before index `b` when ordered by `keys`: smaller key
/// first, equal keys in index order.
pub open spec fn precedes(keys: Seq<u64>, a: int, b: int) -> bool {
    keys[a] < keys[b] || (keys[a] == keys[b] && a < b)
}

/// `perm` lists the indices of `keys` sorted by [`precedes`]: a stable sort
/// by key. (Being strictly sorted, of the right length and in range, it
/// holds every index exactly once.)
pub open spec fn is_stable_order(perm: Seq<usize>, keys: Seq<u64>) -> bool {
    &&& perm.len() == keys.len()
    &&& forall|i: int| 0 <= i < perm.len() ==> #[trigger] perm[i] < keys.len()
    &&& forall|i: int, j: int|
        0 <= i < j < perm.len() ==> precedes(keys, #[trigger] perm[i] as int, #[trigger] perm[j] as int)
}

/// The items picked out by `perm`, in its order.
pub open spec fn in_order<T>(items: Seq<T>, perm: Seq<usize>) -> Seq<T> {
    Seq::new(perm.len(), |k: int| items[perm[k] as int])
}

/// The stable sort of the indices of `keys` by key.
pub fn stable_order(keys: &Vec<u64>) -> (perm: Vec<usize>)
    ensures
        is_stable_order(perm@, keys@),
{
    let mut perm: Vec<usize> = Vec::new();
    let mut i: usize = 0;
    while i < keys.len()
        invariant
            i <= keys@.len(),
            perm@.len() == i,
            forall|k: int| 0 <= k < perm@.len() ==> #[trigger] perm@[k] < i,
            forall|a: int, b: int|
                0 <= a < b < perm@.len() ==> precedes(
                    keys@,
                    #[trigger] perm@[a] as int,
                    #[trigger] perm@[b] as int,
                ),
        decreases keys.len() - i,
    {
        let mut p: usize = 0;
        while p < perm.len() && keys[perm[p]] <= keys[i]
            invariant
                p <= perm@.len(),
                i < keys@.len(),
                perm@.len() == i,
                forall|k: int| 0 <= k < perm@.len() ==> #[trigger] perm@[k] < i,
                forall|k: int| 0 <= k < p ==> keys@[#[trigger] perm@[k] as int] <= keys@[i as int],
            decreases perm.len() - p,
        {
            p = p + 1;
        }
        let ghost old_perm = perm@;
        proof {
            assert forall|k: int| p <= k < old_perm.len() implies keys@[i as int] < keys@[
                #[trigger] old_perm[k] as int] by {
                if k > p {
                    assert(precedes(keys@, old_perm[p as int] as int, old_perm[k] as int));
                }
            }
        }
        perm.insert(p, i);
        assert(perm@ == old_perm.insert(p as int, i));
        assert forall|a: int, b: int|
            0 <= a < b < perm@.len() implies precedes(
            keys@,
            #[trigger] perm@[a] as int,
            #[trigger] perm@[b] as int,
        ) by {
            if b < p {
                assert(precedes(keys@, old_perm[a] as int, old_perm[b] as int));
            } else if b == p {
                assert(keys@[old_perm[a] as int] <= keys@[i as int]);
            } else if a < p {
                assert(precedes(keys@, old_perm[a] as int, old_perm[b - 1] as int));
            } else if a == p {
                assert(keys@[i as int] < keys@[old_perm[b - 1] as int]);
            } else {
                assert(precedes(keys@, old_perm[a - 1] as int, old_perm[b - 1] as int));
            }
        }
        i = i + 1;
    }
    perm
}

proof fn lemma_stable_order_covers(perm: Seq<usize>, keys: Seq<u64>, x: int)
    requires
        is_stable_order(perm, keys),
        0 <= x < keys.len(),
    ensures
        exists|m: int| 0 <= m < perm.len() && perm[m] as int == x,
{
    let s = perm.map_values(|v: usize| v as int);
    assert forall|a: int, b: int| 0 <= a < s.len() && 0 <= b < s.len() && a != b implies s[a]
        != s[b] by {
        if a < b {
            assert(precedes(keys, perm[a] as int, perm[b] as int));
        } else {
            assert(precedes(keys, perm[b] as int, perm[a] as int));
        }
    }
    assert(s.no_duplicates());
    s.unique_seq_to_set();
    vstd::set_lib::lemma_int_range(0, keys.len() as int);
    let range = vstd::set_lib::set_int_range(0, keys.len() as int);
    assert(s.to_set().subset_of(range)) by {
        assert forall|v: int| s.to_set().contains(v) implies range.contains(v) by {
            let m = choose|m: int| 0 <= m < s.len() && s[m] == v;
            assert(perm[m] < keys.len());
        }
    }
    vstd::set_lib::lemma_subset_equality(s.to_set(), range);
    assert(range.contains(x));
    assert(s.to_set().contains(x));
    let m = choose|m: int| 0 <= m < s.len() && s[m] == x;
    assert(perm[m] as int == x);
}

/// There is only one stable order of given keys: the processing order of
/// defines is fully determined by their keys and document order.
pub proof fn lemma_stable_order_unique(p1: Seq<usize>, p2: Seq<usize>, keys: Seq<u64>)
    requires
        is_stable_order(p1, keys),
        is_stable_order(p2, keys),
    ensures
        p1 == p2,
{
    assert forall|k: int| 0 <= k < p1.len() implies p1[k] == p2[k] by {
        lemma_stable_order_agrees_at(p1, p2, keys, k);
    }
    assert(p1 =~= p2);
}

proof fn lemma_stable_order_agrees_at(p1: Seq<usize>, p2: Seq<usize>, keys: Seq<u64>, k: int)
    requires
        is_stable_order(p1, keys),
        is_stable_order(p2, keys),
        0 <= k < p1.len(),
    ensures
        p1[k] == p2[k],
    decreases k,
{
    assert forall|j: int| 0 <= j < k implies p1[j] == p2[j] by {
        lemma_stable_order_agrees_at(p1, p2, keys, j);
    }
    let a = p1[k] as int;
    let b = p2[k] as int;
    if a != b {
        if precedes(keys, a, b) {
            lemma_stable_order_covers(p2, keys, a);
            let m = choose|m: int| 0 <= m < p2.len() && p2[m] as int == a;
            if m < k {
                assert(p1[m] as int == a);
                assert(precedes(keys, p1[m] as int, p1[k] as int));
            } else {
                assert(precedes(keys, p2[k] as int, p2[m] as int));
            }
        } else {
            lemma_stable_order_covers(p1, keys, b);
            let m = choose|m: int| 0 <= m < p1.len() && p1[m] as int == b;
            if m < k {
                assert(p2[m] as int == b);
                assert(precedes(keys, p2[m] as int, p2[k] as int));
            } else {
                assert(precedes(keys, p1[k] as int, p1[m] as int));
            }
        }
    }
}

/// The order defines are processed in: the stable order of their keys.
pub open spec fn processing_order(defines: Seq<(String, Json)>, unreadable_is_release: bool) -> Seq<
    usize,
> {
    choose|perm: Seq<usize>| is_stable_order(perm, define_order_keys(defines, unreadable_is_release))
}

fn define_order_key_exec(define_key: &str, unreadable_is_release: bool) -> (r: u64)
    ensures
        r == define_order_key(define_key@, unreadable_is_release),
{
    match iohook_code_and_press(define_key) {
        Some((num, press)) => (if press {
            0u64
        } else {
            0x1_0000_0000u64
        }) + num as u64,
        None => (if unreadable_is_release {
            0x1_0000_0000u64
        } else {
            0u64
        }) + u32::MAX as u64,
    }
}

/// The processing order of `defines` (see [`define_order_key`]).
pub fn define_order(defines: &Vec<(String, Json)>, unreadable_is_release: bool) -> (perm: Vec<
    usize,
>)
    ensures
        is_stable_order(perm@, define_order_keys(defines@, unreadable_is_release)),
        perm@ == processing_order(defines@, unreadable_is_release),
{
    let mut keys: Vec<u64> = Vec::new();
    let mut i: usize = 0;
    while i < defines.len()
        invariant
            i <= defines@.len(),
            keys@ == define_order_keys(defines@, unreadable_is_release).subrange(0, i as int),
        decreases defines.len() - i,
    {
        let k = define_order_key_exec(defines[i].0.as_str(), unreadable_is_release);
        keys.push(k);
        i = i + 1;
    }
    assert(keys@ =~= define_order_keys(defines@, unreadable_is_release));
    let perm = stable_order(&keys);
    proof {
        let chosen = processing_order(defines@, unreadable_is_release);
        assert(is_stable_order(chosen, define_order_keys(defines@, unreadable_is_release)));
        lemma_stable_order_unique(chosen, perm@, define_order_keys(defines@, unreadable_is_release));
    }
    perm
}

// ------------------------------------------------------------- audio files

/// The audio file a multi-method define names: a non-empty string other
/// than `"null"`.
pub open spec fn define_file(v: Json) -> Option<Seq<char>> {
    match v {
        Json::Str(s) => if s@.len() > 0 && s@ != "null"@ {
            Some(s@)
        } else {
            None
        },
        _ => None,
    }
}

/// The audio files named by `defines` taken in order, each once, at its
/// first mention.
pub open spec fn unique_files(defines: Seq<(String, Json)>) -> Seq<Seq<char>>
    decreases defines.len(),
{
    if defines.len() == 0 {
        Seq::empty()
    } else {
        let prev = unique_files(defines.drop_last());
        match define_file(defines.last().1) {
            Some(f) => if prev.contains(f) {
                prev
            } else {
                prev.push(f)
            },
            None => prev,
        }
    }
}

fn define_file_exec(v: &Json) -> (r: Option<&String>)
    ensures
        match define_file(*v) {
            Some(f) => r matches Some(x) && x@ == f,
            None => r is None,
        },
{
    match v {
        Json::Str(s) => {
            let c = chars_of(s.as_str());
            let null = chars_of("null");
            if c.len() > 0 && !chars_eq(&c, &null) {
                Some(s)
            } else {
                None
            }
        },
        _ => None,
    }
}

/// Whether `s` is among `v`.
pub fn string_listed(v: &Vec<String>, s: &String) -> (r: bool)
    ensures
        r == string_texts(v@).contains(s@),
{
    let target = chars_of(s.as_str());
    let mut i: usize = 0;
    while i < v.len()
        invariant
            i <= v@.len(),
            target@ == s@,
            forall|j: int| 0 <= j < i ==> #[trigger] v@[j]@ != s@,
        decreases v.len() - i,
    {
        let c = chars_of(v[i].as_str());
        if chars_eq(&c, &target) {
            assert(string_texts(v@)[i as int] == s@);
            return true;
        }
        i = i + 1;
    }
    assert forall|j: int| 0 <= j < string_texts(v@).len() implies #[trigger] string_texts(v@)[j]
        != s@ by {
        assert(v@[j]@ != s@);
    }
    false
}

/// The audio files a multi-method V1 pack concatenates, in processing
/// order (presses first, then by code; non-numeric keys last), each once.
pub fn audio_files_in_order(defines: &Vec<(String, Json)>) -> (r: Vec<String>)
    ensures
        string_texts(r@) == unique_files(in_order(defines@, processing_order(defines@, true))),
{
    let perm = define_order(defines, true);
    let ghost ordered = in_order(defines@, perm@);
    let mut files: Vec<String> = Vec::new();
    let mut k: usize = 0;
    assert(string_texts(files@) =~= Seq::<Seq<char>>::empty());
    while k < perm.len()
        invariant
            k <= perm@.len(),
            is_stable_order(perm@, define_order_keys(defines@, true)),
            ordered == in_order(defines@, perm@),
            string_texts(files@) == unique_files(ordered.subrange(0, k as int)),
        decreases perm.len() - k,
    {
        let idx = perm[k];
        assert(idx < defines@.len());
        assert(ordered.subrange(0, k + 1).drop_last() =~= ordered.subrange(0, k as int));
        assert(ordered.subrange(0, k + 1).last() == defines@[idx as int]);
        match define_file_exec(&defines[idx].1) {
            Some(f) => {
                if !string_listed(&files, f) {
                    let ghost before = files@;
                    files.push(f.clone());
                    assert(string_texts(files@) =~= string_texts(before).push(f@));
                }
            },
            None => {},
        }
        k = k + 1;
    }
    assert(ordered.subrange(0, perm@.len() as int) =~= ordered);
    files
}

// ------------------------------------------------------------- definitions

/// What one define contributes to the V2 definitions: the key name and a
/// timing source for it. A multi-method define contributes its audio file
/// when that file was loaded into the concatenation (`loaded`); a
/// single-method define contributes itself (its key, whose `[start,
/// duration]` array the caller turns into a segment) when its value is an
/// array of at least two entries. Defines whose key is not a number or
/// names no known key contribute nothing.
pub open spec fn define_source(is_multi: bool, define_key: Seq<char>, value: Json, loaded: Seq<
    Seq<char>,
>) -> Option<(Seq<char>, Seq<char>)> {
    match spec_iohook_code_and_press(define_key) {
        None => None,
        Some((num, _)) => match spec_iohook_key_name(num) {
            None => None,
            Some(name) => if is_multi {
                match define_file(value) {
                    Some(f) => if loaded.contains(f) {
                        Some((name@, f))
                    } else {
                        None
                    },
                    None => None,
                }
            } else {
                match value {
                    Json::Array(a) => if a@.len() >= 2 {
                        Some((name@, define_key))
                    } else {
                        None
                    },
                    _ => None,
                }
            },
        },
    }
}

/// A planned V2 definition as text: the key name and its timing sources.
pub type PlanView = Seq<(Seq<char>, Seq<Seq<char>>)>;

/// The last position of key `name` in `plan`.
pub open spec fn plan_index(plan: PlanView, name: Seq<char>) -> Option<int>
    decreases plan.len(),
{
    if plan.len() == 0 {
        None
    } else if plan.last().0 == name {
        Some(plan.len() - 1)
    } else {
        plan_index(plan.drop_last(), name)
    }
}

proof fn lemma_plan_index_names(plan: PlanView, name: Seq<char>)
    ensures
        plan_index(plan, name) matches Some(i) ==> 0 <= i < plan.len() && plan[i].0 == name,
    decreases plan.len(),
{
    if plan.len() > 0 && plan.last().0 != name {
        lemma_plan_index_names(plan.drop_last(), name);
    }
}

/// `plan` with `source` appended to key `name`'s sources, or with a new
/// entry for `name` at the end.
pub open spec fn add_source(plan: PlanView, name: Seq<char>, source: Seq<char>) -> PlanView {
    match plan_index(plan, name) {
        Some(i) => plan.update(i, (name, plan[i].1.push(source))),
        None => plan.push((name, seq![source])),
    }
}

/// The V2 definitions that `defines`, taken in order, produce: each key once,
/// with every source for it in processing order, so a press and its release
/// both survive.
pub open spec fn plan_of(is_multi: bool, defines: Seq<(String, Json)>, loaded: Seq<Seq<char>>) -> PlanView
    decreases defines.len(),
{
    if defines.len() == 0 {
        Seq::empty()
    } else {
        let prev = plan_of(is_multi, defines.drop_last(), loaded);
        match define_source(is_multi, defines.last().0@, defines.last().1, loaded) {
            Some((name, source)) => add_source(prev, name, source),
            None => prev,
        }
    }
}

/// How many timing sources a plan holds over all keys.
pub open spec fn source_count(plan: PlanView) -> nat
    decreases plan.len(),
{
    if plan.len() == 0 {
        0
    } else {
        source_count(plan.drop_last()) + plan.last().1.len()
    }
}

/// How many of `defines` contribute a source (see [`define_source`]).
pub open spec fn contributing(is_multi: bool, defines: Seq<(String, Json)>, loaded: Seq<Seq<char>>) -> nat
    decreases defines.len(),
{
    if defines.len() == 0 {
        0
    } else {
        contributing(is_multi, defines.drop_last(), loaded) + if define_source(
            is_multi,
            defines.last().0@,
            defines.last().1,
            loaded,
        ) is Some {
            1nat
        } else {
            0nat
        }
    }
}

proof fn lemma_source_count_update(plan: PlanView, i: int, e: (Seq<char>, Seq<Seq<char>>))
    requires
        0 <= i < plan.len(),
    ensures
        source_count(plan.update(i, e)) + plan[i].1.len() == source_count(plan) + e.1.len(),
    decreases plan.len(),
{
    if i < plan.len() - 1 {
        assert(plan.update(i, e).drop_last() =~= plan.drop_last().update(i, e));
        lemma_source_count_update(plan.drop_last(), i, e);
    } else {
        assert(plan.update(i, e).drop_last() =~= plan.drop_last());
    }
}

/// Grouping by key loses nothing: every define that contributes a source
/// (a press and its release alike) ends up in the plan, so the plan holds
/// exactly as many sources as there are contributing defines.
pub proof fn lemma_plan_keeps_every_source(
    is_multi: bool,
    defines: Seq<(String, Json)>,
    loaded: Seq<Seq<char>>,
)
    ensures
        source_count(plan_of(is_multi, defines, loaded)) == contributing(is_multi, defines, loaded),
    decreases defines.len(),
{
    if defines.len() > 0 {
        let prev = plan_of(is_multi, defines.drop_last(), loaded);
        lemma_plan_keeps_every_source(is_multi, defines.drop_last(), loaded);
        match define_source(is_multi, defines.last().0@, defines.last().1, loaded) {
            Some((name, source)) => {
                lemma_plan_index_names(prev, name);
                match plan_index(prev, name) {
                    Some(i) => {
                        lemma_source_count_update(prev, i, (name, prev[i].1.push(source)));
                    },
                    None => {
                        assert(prev.push((name, seq![source])).drop_last() =~= prev);
                    },
                }
            },
            None => {},
        }
    }
}

/// One planned V2 key definition.
#[derive(Debug)]
pub struct KeyPlan {
    /// The W3C key name.
    pub key: String,
    /// Its timing sources in order: audio file names (multi-method packs)
    /// or V1 define keys (single-method packs).
    pub sources: Vec<String>,
}

/// The text of a plan.
pub open spec fn plan_texts(plan: Seq<KeyPlan>) -> PlanView {
    plan.map_values(|k: KeyPlan| (k.key@, string_texts(k.sources@)))
}

fn define_source_exec(is_multi: bool, define_key: &String, value: &Json, loaded: &Vec<String>) -> (r:
    Option<(&'static str, String)>)
    ensures
        match define_source(is_multi, define_key@, *value, string_texts(loaded@)) {
            Some((n, src)) => r matches Some(x) && x.0@ == n && x.1@ == src,
            None => r is None,
        },
{
    let num = match iohook_code_and_press(define_key.as_str()) {
        Some((num, _)) => num,
        None => return None,
    };
    let name = match iohook_key_name(num) {
        Some(n) => n,
        None => return None,
    };
    if is_multi {
        match define_file_exec(value) {
            Some(f) => if string_listed(loaded, f) {
                Some((name, f.clone()))
            } else {
                None
            },
            None => None,
        }
    } else {
        match value {
            Json::Array(a) => if a.len() >= 2 {
                Some((name, define_key.clone()))
            } else {
                None
            },
            _ => None,
        }
    }
}

fn find_plan(plan: &Vec<KeyPlan>, name: &str) -> (r: Option<usize>)
    ensures
        r is None <==> plan_index(plan_texts(plan@), name@) is None,
        r matches Some(i) ==> i < plan@.len() && plan_index(plan_texts(plan@), name@) == Some(
            i as int,
        ),
{
    let target = chars_of(name);
    let mut i: usize = plan.len();
    assert(plan_texts(plan@).subrange(0, i as int) =~= plan_texts(plan@));
    while i > 0
        invariant
            i <= plan@.len(),
            target@ == name@,
            plan_index(plan_texts(plan@), name@) == plan_index(
                plan_texts(plan@).subrange(0, i as int),
                name@,
            ),
        decreases i,
    {
        let ghost prefix = plan_texts(plan@).subrange(0, i as int);
        assert(prefix.drop_last() =~= plan_texts(plan@).subrange(0, i - 1));
        let c = chars_of(plan[i - 1].key.as_str());
        if chars_eq(&c, &target) {
            return Some(i - 1);
        }
        i = i - 1;
    }
    None
}

fn add_source_exec(plan: &mut Vec<KeyPlan>, name: &str, source: String)
    ensures
        plan_texts(final(plan)@) == add_source(plan_texts(old(plan)@), name@, source@),
{
    let ghost before = plan_texts(plan@);
    let ghost old_plan = plan@;
    proof {
        lemma_plan_index_names(before, name@);
    }
    match find_plan(plan, name) {
        Some(i) => {
            let mut entry = plan.remove(i);
            assert(entry == old_plan[i as int]);
            let ghost old_sources = entry.sources@;
            entry.sources.push(source);
            assert(string_texts(entry.sources@) =~= string_texts(old_sources).push(source@));
            let ghost removed = plan@;
            plan.insert(i, entry);
            assert(plan@ =~= old_plan.update(i as int, entry));
            assert(before[i as int].0 == name@);
            assert(entry.key@ == name@);
            assert(before[i as int].1 == string_texts(old_sources));
            assert forall|j: int| 0 <= j < plan@.len() implies #[trigger] plan_texts(plan@)[j]
                == before.update(i as int, (name@, before[i as int].1.push(source@)))[j] by {
                if j != i {
                    assert(plan@[j] == old_plan[j]);
                }
            }
            assert(plan_texts(plan@) =~= before.update(
                i as int,
                (name@, before[i as int].1.push(source@)),
            ));
        },
        None => {
            let mut sources: Vec<String> = Vec::new();
            sources.push(source);
            assert(string_texts(sources@) =~= seq![source@]);
            plan.push(KeyPlan { key: name.to_owned(), sources });
            assert(plan_texts(plan@) =~= before.push((name@, seq![source@])));
        },
    }
}

/// The V2 definitions that the V1 `defines` produce, taken in processing
/// order (presses first, then by code); `loaded` lists the audio files that
/// made it into a multi-method pack's concatenation.
pub fn definition_plan(defines: &Vec<(String, Json)>, is_multi: bool, loaded: &Vec<String>) -> (r:
    Vec<KeyPlan>)
    ensures
        plan_texts(r@) == plan_of(
            is_multi,
            in_order(defines@, processing_order(defines@, false)),
            string_texts(loaded@),
        ),
{
    let perm = define_order(defines, false);
    let ghost ordered = in_order(defines@, perm@);
    let mut plan: Vec<KeyPlan> = Vec::new();
    let mut k: usize = 0;
    assert(plan_texts(plan@) =~= Seq::<(Seq<char>, Seq<Seq<char>>)>::empty());
    while k < perm.len()
        invariant
            k <= perm@.len(),
            is_stable_order(perm@, define_order_keys(defines@, false)),
            ordered == in_order(defines@, perm@),
            plan_texts(plan@) == plan_of(
                is_multi,
                ordered.subrange(0, k as int),
                string_texts(loaded@),
            ),
        decreases perm.len() - k,
    {
        let idx = perm[k];
        assert(idx < defines@.len());
        assert(ordered.subrange(0, k + 1).drop_last() =~= ordered.subrange(0, k as int));
        assert(ordered.subrange(0, k + 1).last() == defines@[idx as int]);
        match define_source_exec(is_multi, &defines[idx].0, &defines[idx].1, loaded) {
            Some((name, source)) => {
                add_source_exec(&mut plan, name, source);
            },
            None => {},
        }
        k = k + 1;
    }
    assert(ordered.subrange(0, perm@.len() as int) =~= ordered);
    plan
}

// ------------------------------------------------------------- the V1 config

/// The name the concatenated audio of a multi-method pack is written under.
pub const CONCATENATED_AUDIO: &'static str = "concatenated_audio.wav";

/// A V1 pack keys each sound to its own file (`key_define_type` is
/// `"multi"`; anything else, or nothing, means one shared file).
pub open spec fn spec_is_multi(config: Json) -> bool {
    match spec_get(config, "key_define_type"@) {
        Some(v) => spec_as_str(v) == Some("multi"@),
        None => false,
    }
}

/// See [`spec_is_multi`].
pub fn is_multi(config: &Json) -> (r: bool)
    ensures
        r == spec_is_multi(*config),
{
    match get(config, "key_define_type") {
        Some(v) => match as_str(v) {
            Some(s) => {
                let c = chars_of(s.as_str());
                let multi = chars_of("multi");
                chars_eq(&c, &multi)
            },
            None => false,
        },
        None => false,
    }
}

/// The V1 `defines` entries, when `defines` is an object.
pub open spec fn spec_defines(config: Json) -> Seq<(String, Json)> {
    match spec_get(config, "defines"@) {
        Some(Json::Object(o)) => o@,
        _ => Seq::empty(),
    }
}

/// See [`spec_defines`]; `None` when there is no `defines` object.
pub fn defines_of(config: &Json) -> (r: Option<&Vec<(String, Json)>>)
    ensures
        match spec_get(*config, "defines"@) {
            Some(Json::Object(o)) => r matches Some(x) && *x == o,
            _ => r is None,
        },
{
    match get(config, "defines") {
        Some(d) => as_object(d),
        None => None,
    }
}

/// The top-level V1 fields carried over unchanged into the V2 config, in
/// order, among those present.
pub open spec fn spec_copied_fields(config: Json) -> Seq<Seq<char>> {
    let f = |name: Seq<char>| if spec_get(config, name) is Some {
        seq![name]
    } else {
        Seq::<Seq<char>>::empty()
    };
    f("id"@) + f("name"@) + f("description"@) + f("author"@) + f("version"@) + f("icon"@) + f(
        "tags"@,
    )
}

fn push_if_present(out: &mut Vec<String>, config: &Json, name: &str)
    ensures
        string_texts(final(out)@) == string_texts(old(out)@) + (if spec_get(*config, name@) is Some {
            seq![name@]
        } else {
            Seq::<Seq<char>>::empty()
        }),
{
    if get(config, name).is_some() {
        let ghost before = out@;
        out.push(name.to_owned());
        assert(string_texts(out@) =~= string_texts(before) + seq![name@]);
    } else {
        assert(string_texts(out@) =~= string_texts(out@) + Seq::<Seq<char>>::empty());
    }
}

/// See [`spec_copied_fields`].
pub fn copied_fields(config: &Json) -> (r: Vec<String>)
    ensures
        string_texts(r@) == spec_copied_fields(*config),
{
    let mut out: Vec<String> = Vec::new();
    assert(string_texts(out@) =~= Seq::<Seq<char>>::empty());
    push_if_present(&mut out, config, "id");
    push_if_present(&mut out, config, "name");
    push_if_present(&mut out, config, "description");
    push_if_present(&mut out, config, "author");
    push_if_present(&mut out, config, "version");
    push_if_present(&mut out, config, "icon");
    push_if_present(&mut out, config, "tags");
    out
}

/// Where a converted pack's audio comes from.
#[derive(Debug)]
pub enum AudioChoice {
    /// Concatenate these files, in order, into [`CONCATENATED_AUDIO`].
    Concatenate(Vec<String>),
    /// The pack's shared `sound` file.
    Sound(String),
    /// No `sound` field: take the first audio file found in the pack
    /// directory (see [`pick_audio_file`]).
    SearchDirectory,
}

/// [`AudioChoice`] as text.
pub enum AudioChoiceView {
    Concatenate(Seq<Seq<char>>),
    Sound(Seq<char>),
    SearchDirectory,
}

impl View for AudioChoice {
    type V = AudioChoiceView;

    open spec fn view(&self) -> AudioChoiceView {
        match self {
            AudioChoice::Concatenate(v) => AudioChoiceView::Concatenate(string_texts(v@)),
            AudioChoice::Sound(s) => AudioChoiceView::Sound(s@),
            AudioChoice::SearchDirectory => AudioChoiceView::SearchDirectory,
        }
    }
}

/// Where a V1 pack's audio comes from: a multi-method pack concatenates its
/// define files (see [`unique_files`]); otherwise a string `sound` field
/// names the file, a `sound` of another type is an error, and no `sound`
/// means searching the directory.
pub open spec fn spec_plan_audio(config: Json) -> Result<AudioChoiceView, Seq<char>> {
    if spec_is_multi(config) {
        let defines = spec_defines(config);
        Ok(
            AudioChoiceView::Concatenate(
                unique_files(in_order(defines, processing_order(defines, true))),
            ),
        )
    } else {
        match spec_get(config, "sound"@) {
            Some(v) => match spec_as_str(v) {
                Some(s) => Ok(AudioChoiceView::Sound(s)),
                None => Err("Invalid sound field in V1 config"@),
            },
            None => Ok(AudioChoiceView::SearchDirectory),
        }
    }
}

/// See [`spec_plan_audio`].
pub fn plan_audio(config: &Json) -> (r: Result<AudioChoice, String>)
    ensures
        match (r, spec_plan_audio(*config)) {
            (Ok(c), Ok(v)) => c@ == v,
            (Err(e), Err(m)) => e@ == m,
            _ => false,
        },
{
    if is_multi(config) {
        let files = match defines_of(config) {
            Some(d) => audio_files_in_order(d),
            None => {
                let empty: Vec<(String, Json)> = Vec::new();
                let f = audio_files_in_order(&empty);
                assert(empty@ =~= Seq::<(String, Json)>::empty());
                f
            },
        };
        return Ok(AudioChoice::Concatenate(files));
    }
    match get(config, "sound") {
        Some(v) => match as_str(v) {
            Some(s) => Ok(AudioChoice::Sound(s.clone())),
            None => Err(String::from_str("Invalid sound field in V1 config")),
        },
        None => Ok(AudioChoice::SearchDirectory),
    }
}

/// The lowercased name ends with one of the audio extensions.
pub open spec fn has_audio_extension(lower: Seq<char>) -> bool {
    ||| lower.len() >= 4 && lower.subrange(lower.len() - 4, lower.len() as int) == ".ogg"@
    ||| lower.len() >= 4 && lower.subrange(lower.len() - 4, lower.len() as int) == ".mp3"@
    ||| lower.len() >= 4 && lower.subrange(lower.len() - 4, lower.len() as int) == ".wav"@
    ||| lower.len() >= 5 && lower.subrange(lower.len() - 5, lower.len() as int) == ".flac"@
}

/// The first directory entry name that is an audio file (by its
/// lowercased extension), in listing order.
pub open spec fn spec_pick_audio_file(names: Seq<Seq<char>>) -> Option<Seq<char>>
    decreases names.len(),
{
    if names.len() == 0 {
        None
    } else if has_audio_extension(lowercase(names[0])) {
        Some(names[0])
    } else {
        spec_pick_audio_file(names.drop_first())
    }
}

fn ends_with(s: &Vec<char>, tail: &str) -> (r: bool)
    ensures
        r == (s@.len() >= tail@.len() && s@.subrange(s@.len() - tail@.len(), s@.len() as int)
            == tail@),
{
    let t = chars_of(tail);
    if s.len() < t.len() {
        return false;
    }
    let start = s.len() - t.len();
    let n = s.len();
    let mut i: usize = 0;
    while i < t.len()
        invariant
            n == s@.len(),
            t@ == tail@,
            start + t@.len() == s@.len(),
            i <= t@.len(),
            forall|j: int| 0 <= j < i ==> s@[start + j] == t@[j],
        decreases t.len() - i,
    {
        if s[start + i] != t[i] {
            assert(s@.subrange(start as int, s@.len() as int)[i as int] != t@[i as int]);
            return false;
        }
        i = i + 1;
    }
    assert(s@.subrange(start as int, s@.len() as int) =~= t@);
    true
}

/// See [`spec_pick_audio_file`].
pub fn pick_audio_file(names: &Vec<String>) -> (r: Option<String>)
    ensures
        match spec_pick_audio_file(string_texts(names@)) {
            Some(n) => r matches Some(x) && x@ == n,
            None => r is None,
        },
{
    let mut i: usize = 0;
    assert(string_texts(names@).subrange(0, names@.len() as int) =~= string_texts(names@));
    while i < names.len()
        invariant
            i <= names@.len(),
            spec_pick_audio_file(string_texts(names@)) == spec_pick_audio_file(
                string_texts(names@).subrange(i as int, names@.len() as int),
            ),
        decreases names.len() - i,
    {
        let ghost rest = string_texts(names@).subrange(i as int, names@.len() as int);
        assert(rest.drop_first() =~= string_texts(names@).subrange(i + 1, names@.len() as int));
        assert(rest[0] == names@[i as int]@);
        let lowered = to_lowercase(names[i].as_str());
        let lower = chars_of(lowered.as_str());
        if ends_with(&lower, ".ogg") || ends_with(&lower, ".mp3") || ends_with(&lower, ".wav")
            || ends_with(&lower, ".flac") {
            proof {
                reveal_strlit(".ogg");
                reveal_strlit(".mp3");
                reveal_strlit(".wav");
                reveal_strlit(".flac");
            }
            assert(has_audio_extension(lowercase(rest[0])));
            return Some(names[i].clone());
        }
        i = i + 1;
    }
    assert(string_texts(names@).subrange(i as int, names@.len() as int) =~= Seq::<
        Seq<char>,
    >::empty());
    None
}

/// See [`pick_audio_file`]; the error a conversion reports when the
/// directory holds no audio file.
pub fn directory_audio_file(names: &Vec<String>) -> (r: Result<String, String>)
    ensures
        match spec_pick_audio_file(string_texts(names@)) {
            Some(n) => r matches Ok(x) && x@ == n,
            None => r matches Err(e) && e@ == "No audio file found for single method conversion"@,
        },
{
    match pick_audio_file(names) {
        Some(n) => Ok(n),
        None => Err(String::from_str("No audio file found for single method conversion")),
    }
}

/// The V2 definitions a V1 config produces (see [`plan_of`]), given the
/// audio files that made it into the concatenation.
pub fn config_definition_plan(config: &Json, loaded: &Vec<String>) -> (r: Vec<KeyPlan>)
    ensures
        plan_texts(r@) == plan_of(
            spec_is_multi(*config),
            in_order(spec_defines(*config), processing_order(spec_defines(*config), false)),
            string_texts(loaded@),
        ),
{
    let multi = is_multi(config);
    match defines_of(config) {
        Some(d) => definition_plan(d, multi, loaded),
        None => {
            let empty: Vec<(String, Json)> = Vec::new();
            assert(empty@ =~= Seq::<(String, Json)>::empty());
            definition_plan(&empty, multi, loaded)
        },
    }
}

/// What loading a pack does with the validation result of its config: nothing
/// to convert (`Ok(false)`), convert it (`Ok(true)`), or refuse with a
/// message (a V1 config that cannot be converted).
pub open spec fn spec_v1_conversion(v: ValidationView) -> Result<bool, Seq<char>> {
    if !(v.status is VersionOneNeedsConversion) {
        Ok(false)
    } else if !v.can_be_converted {
        Err("V1 pack cannot be converted: "@ + v.message)
    } else {
        Ok(true)
    }
}

/// See [`spec_v1_conversion`].
pub fn v1_conversion(v: &SoundpackValidationResult) -> (r: Result<bool, String>)
    ensures
        match (r, spec_v1_conversion(v@)) {
            (Ok(a), Ok(b)) => a == b,
            (Err(e), Err(m)) => e@ == m,
            _ => false,
        },
{
    match v.status {
        SoundpackValidationStatus::VersionOneNeedsConversion => {},
        _ => return Ok(false),
    }
    if !v.can_be_converted {
        let mut msg = chars_of("V1 pack cannot be converted: ");
        let m = chars_of(v.message.as_str());
        push_all(&mut msg, &m);
        return Err(string_of(msg));
    }
    Ok(true)
}

} // verus!
