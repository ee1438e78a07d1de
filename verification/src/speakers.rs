//! Audio output devices as the panel sees them: stable ids derived from
//! device names, recognition of legacy index-based ids, the device list
//! built from an enumeration, and routing a stored id back to a device.
//!
//! Enumerating the hardware is the caller's job; these functions take the
//! names it found.

use vstd::prelude::*;
use crate::text::{chars_of, string_of, push_str, push_hex, hex_digits, has_prefix, matches_at};
use crate::paths::chars_eq;
use crate::numbers::{parse_unsigned, spec_parse_unsigned};

verus! {

/// FNV-1a offset basis (64-bit).
pub const FNV_OFFSET: u64 = 0xcbf29ce484222325;

/// FNV-1a prime (64-bit).
pub const FNV_PRIME: u64 = 0x100000001b3;

/// 64-bit FNV-1a hash of a byte string.
pub open spec fn fnv1a(bytes: Seq<u8>) -> u64
    decreases bytes.len(),
{
    if bytes.len() == 0 {
        FNV_OFFSET
    } else {
        (fnv1a(bytes.drop_last()) ^ (bytes.last() as u64)).wrapping_mul(FNV_PRIME)
    }
}

/// The stable id of a device: `<prefix>_name:` followed by the FNV-1a hash
/// of the name's UTF-8 bytes as sixteen lowercase hex digits.
pub open spec fn spec_device_id(prefix: Seq<char>, name_bytes: Seq<u8>) -> Seq<char> {
    prefix + "_name:"@ + hex_digits(fnv1a(name_bytes) as nat, 16)
}

fn fnv1a_exec(bytes: &[u8]) -> (h: u64)
    ensures
        h == fnv1a(bytes@),
{
    let mut hash: u64 = FNV_OFFSET;
    let mut i: usize = 0;
    while i < bytes.len()
        invariant
            i <= bytes.len(),
            hash == fnv1a(bytes@.subrange(0, i as int)),
        decreases bytes.len() - i,
    {
        assert(bytes@.subrange(0, i + 1).drop_last() =~= bytes@.subrange(0, i as int));
        hash = (hash ^ (bytes[i] as u64)).wrapping_mul(FNV_PRIME);
        i = i + 1;
    }
    assert(bytes@.subrange(0, bytes.len() as int) =~= bytes@);
    hash
}

/// Stable device id from a name (survives replugs, unlike index ids).
pub fn device_id_from_name(prefix: &str, name: &str) -> (id: String)
    ensures
        id@ == spec_device_id(prefix@, vstd::utf8::encode_utf8(name@)),
{
    let h = fnv1a_exec(name.as_bytes());
    let mut out: Vec<char> = Vec::new();
    push_str(&mut out, prefix);
    push_str(&mut out, "_name:");
    push_hex(&mut out, h, 16);
    string_of(out)
}

/// `str::parse::<usize>` succeeds on `s`.
pub open spec fn parses_as_usize(s: Seq<char>) -> bool {
    spec_parse_unsigned(s, usize::MAX as nat) is Some
}

fn parses_as_usize_exec(s: &Vec<char>) -> (r: bool)
    ensures
        r == parses_as_usize(s@),
{
    parse_unsigned(s, usize::MAX as u64).is_some()
}

/// A legacy index-based id: `output_` or `input_` followed by something
/// `str::parse::<usize>` accepts. Such ids name the Nth enumerated device,
/// which changes on replug.
pub open spec fn spec_is_legacy_index_device_id(id: Seq<char>) -> bool {
    if has_prefix(id, "output_"@) {
        parses_as_usize(id.subrange(7, id.len() as int))
    } else if has_prefix(id, "input_"@) {
        parses_as_usize(id.subrange(6, id.len() as int))
    } else {
        false
    }
}

/// Check for legacy `output_N` / `input_N` ids.
pub fn is_legacy_index_device_id(device_id: &str) -> (r: bool)
    ensures
        r == spec_is_legacy_index_device_id(device_id@),
{
    let v = chars_of(device_id);
    let out_p = chars_of("output_");
    let in_p = chars_of("input_");
    proof {
        reveal_strlit("output_");
        reveal_strlit("input_");
    }
    if matches_at(&v, &out_p, 0) {
        let rest = tail_from(&v, 7);
        parses_as_usize_exec(&rest)
    } else if matches_at(&v, &in_p, 0) {
        let rest = tail_from(&v, 6);
        parses_as_usize_exec(&rest)
    } else {
        false
    }
}

fn tail_from(v: &Vec<char>, from: usize) -> (r: Vec<char>)
    requires
        from <= v.len(),
    ensures
        r@ == v@.subrange(from as int, v.len() as int),
{
    let mut out: Vec<char> = Vec::new();
    let mut i = from;
    while i < v.len()
        invariant
            from <= i <= v.len(),
            out@ == v@.subrange(from as int, i as int),
        decreases v.len() - i,
    {
        out.push(v[i]);
        i = i + 1;
        assert(v@.subrange(from as int, i as int) =~= v@.subrange(from as int, i - 1).push(v@[i - 1]));
    }
    out
}

/// One output device in the panel's picker.
#[derive(Debug)]
pub struct DeviceInfo {
    pub id: String,
    pub name: String,
    pub is_default: bool,
}

/// A device the picker never shows: ALSA's virtual mixing nodes, which cannot
/// be played to directly.
pub open spec fn is_virtual_node(name: Seq<char>) -> bool {
    has_prefix(name, "dmix:"@) || has_prefix(name, "dsnoop:"@)
}

/// The text of an optional name.
pub open spec fn opt_text(o: Option<String>) -> Option<Seq<char>> {
    match o {
        None => None,
        Some(s) => Some(s@),
    }
}

/// What the picker lists for one enumerated device (`None` = the device's
/// name could not be read): its name, id and default flag, or nothing.
pub open spec fn listed_device(
    name: Option<String>,
    default_name: Option<Seq<char>>,
) -> Option<(Seq<char>, Seq<char>, bool)> {
    match name {
        None => None,
        Some(n) => if is_virtual_node(n@) {
            None
        } else {
            Some(
                (
                    spec_device_id("output"@, vstd::utf8::encode_utf8(n@)),
                    n@,
                    default_name == Some(n@),
                ),
            )
        },
    }
}

/// The devices listed for the enumerated `names`, in enumeration order.
pub open spec fn listed_devices(
    names: Seq<Option<String>>,
    default_name: Option<Seq<char>>,
) -> Seq<(Seq<char>, Seq<char>, bool)>
    decreases names.len(),
{
    if names.len() == 0 {
        Seq::empty()
    } else {
        let prev = listed_devices(names.drop_last(), default_name);
        match listed_device(names.last(), default_name) {
            Some(d) => prev.push(d),
            None => prev,
        }
    }
}

/// The (id, name, is_default) triples of a device list.
pub open spec fn device_triples(v: Seq<DeviceInfo>) -> Seq<(Seq<char>, Seq<char>, bool)> {
    v.map_values(|d: DeviceInfo| (d.id@, d.name@, d.is_default))
}

/// The picker's device list: every enumerated device whose name reads and is
/// not a virtual ALSA node, flagged default when its name is the default
/// output's; when that leaves nothing, a single `output_default` entry named
/// after the default output (or `Unknown`).
pub open spec fn spec_output_devices(
    names: Seq<Option<String>>,
    default_name: Option<Seq<char>>,
) -> Seq<(Seq<char>, Seq<char>, bool)> {
    let listed = listed_devices(names, default_name);
    if listed.len() > 0 {
        listed
    } else {
        seq![
            (
                "output_default"@,
                match default_name {
                    Some(n) => n,
                    None => "Unknown"@,
                },
                true,
            ),
        ]
    }
}

fn opt_eq(a: &Option<String>, b: &String) -> (r: bool)
    ensures
        r == (opt_text(*a) == Some(b@)),
{
    match a {
        Some(x) => *x == *b,
        None => false,
    }
}

/// Builds the picker's device list from the enumerated device names and the
/// default output's name (see [`spec_output_devices`]).
pub fn output_devices(names: &Vec<Option<String>>, default_name: &Option<String>) -> (r: Vec<
    DeviceInfo,
>)
    ensures
        device_triples(r@) == spec_output_devices(names@, opt_text(*default_name)),
{
    let ghost dn = opt_text(*default_name);
    let dmix = chars_of("dmix:");
    let dsnoop = chars_of("dsnoop:");
    let mut out: Vec<DeviceInfo> = Vec::new();
    let mut i: usize = 0;
    assert(names@.subrange(0, 0) =~= Seq::<Option<String>>::empty());
    assert(device_triples(out@) =~= Seq::<(Seq<char>, Seq<char>, bool)>::empty());
    while i < names.len()
        invariant
            i <= names.len(),
            dmix@ == "dmix:"@,
            dsnoop@ == "dsnoop:"@,
            dn == opt_text(*default_name),
            device_triples(out@) == listed_devices(names@.subrange(0, i as int), dn),
        decreases names.len() - i,
    {
        assert(names@.subrange(0, i + 1).drop_last() =~= names@.subrange(0, i as int));
        assert(names@.subrange(0, i + 1).last() == names@[i as int]);
        match &names[i] {
            Some(n) => {
                let nc = chars_of(n.as_str());
                if !matches_at(&nc, &dmix, 0) && !matches_at(&nc, &dsnoop, 0) {
                    let is_default = opt_eq(default_name, n);
                    let id = device_id_from_name("output", n.as_str());
                    proof {
                        reveal_strlit("output");
                    }
                    let ghost o0 = out@;
                    let d = DeviceInfo { id, name: n.clone(), is_default };
                    out.push(d);
                    assert(device_triples(out@) =~= device_triples(o0).push(
                        (d.id@, d.name@, d.is_default),
                    ));
                }
            },
            None => {},
        }
        i = i + 1;
    }
    assert(names@.subrange(0, names.len() as int) =~= names@);
    if out.len() == 0 {
        let name = match default_name {
            Some(n) => n.clone(),
            None => String::from_str("Unknown"),
        };
        let d = DeviceInfo { id: String::from_str("output_default"), name, is_default: true };
        out.push(d);
        assert(device_triples(out@) =~= seq![(d.id@, d.name@, d.is_default)]);
    }
    out
}

/// Ids served by the system default output without enumerating: the explicit
/// `output_default`, and legacy index ids (the Nth device after a replug is
/// usually a different device, so they fall back to the default).
pub open spec fn spec_routes_to_default(id: Seq<char>) -> bool {
    id == "output_default"@ || spec_is_legacy_index_device_id(id)
}

/// See [`spec_routes_to_default`].
pub fn routes_to_default(device_id: &str) -> (r: bool)
    ensures
        r == spec_routes_to_default(device_id@),
{
    let v = chars_of(device_id);
    let d = chars_of("output_default");
    chars_eq(&v, &d) || is_legacy_index_device_id(device_id)
}

/// The device a stored id names: the first enumerated device whose name
/// reads and whose stable id equals `device_id`.
pub open spec fn spec_find_device(names: Seq<Option<String>>, device_id: Seq<char>) -> Option<int>
    decreases names.len(),
{
    if names.len() == 0 {
        None
    } else {
        match names[0] {
            Some(n) if spec_device_id("output"@, vstd::utf8::encode_utf8(n@)) == device_id => Some(
                0,
            ),
            _ => match spec_find_device(names.drop_first(), device_id) {
                Some(k) => Some(k + 1),
                None => None,
            },
        }
    }
}

/// See [`spec_find_device`].
pub fn find_device(names: &Vec<Option<String>>, device_id: &str) -> (r: Option<usize>)
    ensures
        match spec_find_device(names@, device_id@) {
            Some(k) => r == Some(k as usize),
            None => r is None,
        },
{
    let want = chars_of(device_id);
    let mut i: usize = 0;
    assert(names@.subrange(0, names.len() as int) =~= names@);
    while i < names.len()
        invariant
            i <= names.len(),
            want@ == device_id@,
            spec_find_device(names@, device_id@) == (match spec_find_device(
                names@.subrange(i as int, names.len() as int),
                device_id@,
            ) {
                Some(k) => Some(k + i),
                None => None,
            }),
        decreases names.len() - i,
    {
        let ghost rest = names@.subrange(i as int, names.len() as int);
        assert(rest.drop_first() =~= names@.subrange(i + 1, names.len() as int));
        assert(rest[0] == names@[i as int]);
        match &names[i] {
            Some(n) => {
                let id = device_id_from_name("output", n.as_str());
                proof {
                    reveal_strlit("output");
                }
                let idc = chars_of(id.as_str());
                if chars_eq(&idc, &want) {
                    return Some(i);
                }
            },
            None => {},
        }
        i = i + 1;
    }
    None
}

} // verus!
