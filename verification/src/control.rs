//! Control-request decisions: which command a request names, which pack or
//! device id it may act on, when a delete is refused, which pack takes over
//! when the active one is deleted, the bar section, request framing and the
//! client's exit status.
//!
//! Sockets, the filesystem, settings and the audio engine are the
//! caller's.

use vstd::prelude::*;
use crate::folders::soundpacks::get_builtin_soundpacks_dir;
use crate::json::{Json, as_bool, as_str, get, spec_as_bool, spec_as_str, spec_get};
use crate::pack_checker::string_texts;
use crate::paths::{chars_eq, join, join_path};
use crate::strings::{trim, trim_chars};
use crate::text::{
    chars_of, contains, contains_seq, has_prefix, matches_at, push_all, push_str, string_of,
};
use crate::converter::string_listed;
use crate::logs::{utf8_len, utf8_len_above};

verus! {

// ------------------------------------------------------------------ ids

/// A pack id with its kind prefix: `raw` when it already starts with
/// `prefix`, else `prefix` followed by `raw`.
pub open spec fn spec_qualify(raw: Seq<char>, prefix: Seq<char>) -> Seq<char> {
    if has_prefix(raw, prefix) {
        raw
    } else {
        prefix + raw
    }
}

/// See [`spec_qualify`].
pub fn qualify_soundpack_id(raw: &str, prefix: &str) -> (r: String)
    ensures
        r@ == spec_qualify(raw@, prefix@),
{
    let r = chars_of(raw);
    let p = chars_of(prefix);
    if matches_at(&r, &p, 0) {
        raw.to_owned()
    } else {
        let mut out = p.clone();
        push_all(&mut out, &r);
        string_of(out)
    }
}

/// Qualifying an id twice changes nothing more than qualifying it once.
pub proof fn lemma_qualify_idempotent(raw: Seq<char>, prefix: Seq<char>)
    ensures
        spec_qualify(spec_qualify(raw, prefix), prefix) == spec_qualify(raw, prefix),
        has_prefix(spec_qualify(raw, prefix), prefix),
{
    if !has_prefix(raw, prefix) {
        assert((prefix + raw).subrange(0, prefix.len() as int) =~= prefix);
    }
}

/// An id that could step outside the pack tree: a NUL byte or `..`.
pub open spec fn id_rejected(raw: Seq<char>) -> bool {
    raw.contains('\0') || contains_seq(raw, ".."@)
}

fn has_char(s: &Vec<char>, c: char) -> (r: bool)
    ensures
        r == s@.contains(c),
{
    let mut i: usize = 0;
    while i < s.len()
        invariant
            i <= s@.len(),
            forall|j: int| 0 <= j < i ==> s@[j] != c,
        decreases s.len() - i,
    {
        if s[i] == c {
            assert(s@[i as int] == c);
            return true;
        }
        i = i + 1;
    }
    false
}

fn id_rejected_exec(raw: &Vec<char>) -> (r: bool)
    ensures
        r == id_rejected(raw@),
{
    let dots = chars_of("..");
    has_char(raw, '\0') || contains(raw, &dots)
}

/// The keyboard pack id a request names: its `id` string, checked and
/// qualified with `keyboard/`.
pub open spec fn spec_pack_id(req: Json) -> Result<Seq<char>, Seq<char>> {
    match spec_get(req, "id"@) {
        Some(v) => match spec_as_str(v) {
            Some(raw) => if id_rejected(raw) {
                Err("invalid id"@)
            } else {
                Ok(spec_qualify(raw, "keyboard/"@))
            },
            None => Err("missing id"@),
        },
        None => Err("missing id"@),
    }
}

/// See [`spec_pack_id`].
pub fn pack_id(req: &Json) -> (r: Result<String, String>)
    ensures
        match (r, spec_pack_id(*req)) {
            (Ok(a), Ok(b)) => a@ == b,
            (Err(a), Err(b)) => a@ == b,
            _ => false,
        },
{
    let raw = match get(req, "id") {
        Some(v) => match as_str(v) {
            Some(s) => s,
            None => return Err(String::from_str("missing id")),
        },
        None => return Err(String::from_str("missing id")),
    };
    let rc = chars_of(raw.as_str());
    if id_rejected_exec(&rc) {
        return Err(String::from_str("invalid id"));
    }
    Ok(qualify_soundpack_id(raw.as_str(), "keyboard/"))
}

/// The packs that ship with the plugin, used when the build stamp is
/// missing.
pub open spec fn spec_bundled_packs() -> Seq<Seq<char>> {
    seq![
        "keyboard/aula-f75"@,
        "keyboard/epomaker-rt85"@,
        "keyboard/gravastar-v60-pro"@,
        "keyboard/pmo-aurora-80"@,
        "keyboard/sugar65"@,
        "keyboard/yunzii-al65"@,
    ]
}

/// See [`spec_bundled_packs`].
pub fn bundled_packs() -> (r: Vec<String>)
    ensures
        string_texts(r@) == spec_bundled_packs(),
{
    let mut v: Vec<String> = Vec::new();
    v.push(String::from_str("keyboard/aula-f75"));
    v.push(String::from_str("keyboard/epomaker-rt85"));
    v.push(String::from_str("keyboard/gravastar-v60-pro"));
    v.push(String::from_str("keyboard/pmo-aurora-80"));
    v.push(String::from_str("keyboard/sugar65"));
    v.push(String::from_str("keyboard/yunzii-al65"));
    assert(string_texts(v@) =~= spec_bundled_packs());
    v
}

/// A pack counts as preinstalled when the build stamp lists it or it is
/// one of [`spec_bundled_packs`].
pub open spec fn preinstalled(id: Seq<char>, stamp: Seq<Seq<char>>) -> bool {
    stamp.contains(id) || spec_bundled_packs().contains(id)
}

/// See [`preinstalled`].
pub fn is_preinstalled(id: &String, stamp: &Vec<String>) -> (r: bool)
    ensures
        r == preinstalled(id@, string_texts(stamp@)),
{
    let bundled = bundled_packs();
    string_listed(stamp, id) || string_listed(&bundled, id)
}

/// How many `/` a text holds.
pub open spec fn slash_count(s: Seq<char>) -> nat
    decreases s.len(),
{
    if s.len() == 0 {
        0
    } else {
        slash_count(s.drop_last()) + if s.last() == '/' {
            1nat
        } else {
            0nat
        }
    }
}

fn slash_count_exec(s: &Vec<char>) -> (r: usize)
    ensures
        r as nat == slash_count(s@),
{
    let mut n: usize = 0;
    let mut i: usize = 0;
    while i < s.len()
        invariant
            i <= s@.len(),
            n as nat == slash_count(s@.subrange(0, i as int)),
            n <= i,
        decreases s.len() - i,
    {
        assert(s@.subrange(0, i + 1).drop_last() =~= s@.subrange(0, i as int));
        if s[i] == '/' {
            n = n + 1;
        }
        i = i + 1;
    }
    assert(s@.subrange(0, s@.len() as int) =~= s@);
    n
}

/// The directory name of a keyboard pack id: the id without its
/// `keyboard/` prefix.
pub open spec fn pack_dir_name(id: Seq<char>) -> Seq<char> {
    if has_prefix(id, "keyboard/"@) {
        id.subrange(9, id.len() as int)
    } else {
        id
    }
}

/// The pack a delete request may remove, as `(id, directory name)`; the
/// refusals come in this order: no id, an id that could escape the pack
/// tree (NUL, `..`, more than one `/`, an empty or nested directory name),
/// a preinstalled pack (`stamp` lists the ids the build stamp names).
pub open spec fn spec_deletable_pack(req: Json, stamp: Seq<Seq<char>>) -> Result<
    (Seq<char>, Seq<char>),
    Seq<char>,
> {
    match spec_get(req, "id"@) {
        Some(v) => match spec_as_str(v) {
            Some(raw) => if id_rejected(raw) || slash_count(raw) > 1 {
                Err("invalid id"@)
            } else {
                let id = spec_qualify(raw, "keyboard/"@);
                let name = pack_dir_name(id);
                if name.len() == 0 || name.contains('/') || name.contains('\\') {
                    Err("invalid id"@)
                } else if preinstalled(id, stamp) {
                    Err("cannot delete preinstalled pack"@)
                } else {
                    Ok((id, name))
                }
            },
            None => Err("missing id"@),
        },
        None => Err("missing id"@),
    }
}

/// A preinstalled pack is never deletable, and a deletable pack is a
/// single, non-empty directory level.
pub proof fn lemma_preinstalled_packs_are_never_deleted(req: Json, stamp: Seq<Seq<char>>)
    ensures
        spec_deletable_pack(req, stamp) matches Ok((id, name)) ==> !preinstalled(id, stamp)
            && name.len() > 0 && !name.contains('/') && !name.contains('\\'),
{
}

/// See [`spec_deletable_pack`].
pub fn deletable_pack(req: &Json, stamp: &Vec<String>) -> (r: Result<(String, String), String>)
    ensures
        match (r, spec_deletable_pack(*req, string_texts(stamp@))) {
            (Ok(a), Ok(b)) => a.0@ == b.0 && a.1@ == b.1,
            (Err(a), Err(b)) => a@ == b,
            _ => false,
        },
{
    proof {
        reveal_strlit("keyboard/");
    }
    let raw = match get(req, "id") {
        Some(v) => match as_str(v) {
            Some(s) => s,
            None => return Err(String::from_str("missing id")),
        },
        None => return Err(String::from_str("missing id")),
    };
    let rc = chars_of(raw.as_str());
    if id_rejected_exec(&rc) || slash_count_exec(&rc) > 1 {
        return Err(String::from_str("invalid id"));
    }
    let id = qualify_soundpack_id(raw.as_str(), "keyboard/");
    let ic = chars_of(id.as_str());
    let prefix = chars_of("keyboard/");
    let mut name: Vec<char> = Vec::new();
    if matches_at(&ic, &prefix, 0) {
        let mut i: usize = 9;
        while i < ic.len()
            invariant
                9 <= i <= ic@.len(),
                name@ == ic@.subrange(9, i as int),
            decreases ic.len() - i,
        {
            name.push(ic[i]);
            i = i + 1;
        }
    } else {
        name = ic.clone();
    }
    assert(name@ == pack_dir_name(id@));
    if name.len() == 0 || has_char(&name, '/') || has_char(&name, '\\') {
        return Err(String::from_str("invalid id"));
    }
    if is_preinstalled(&id, stamp) {
        return Err(String::from_str("cannot delete preinstalled pack"));
    }
    let n = string_of(name);
    Ok((id, n))
}

/// The pack that becomes active when the active one is deleted: the
/// `pick`-th of the remaining packs, wrapping around; none (`""`) when no
/// pack is left.
pub open spec fn spec_fallback_pack(ids: Seq<Seq<char>>, pick: usize) -> Seq<char> {
    if ids.len() == 0 {
        Seq::empty()
    } else {
        ids[(pick % (ids.len() as usize)) as int]
    }
}

/// See [`spec_fallback_pack`]; the caller passes a clock reading as `pick`.
pub fn fallback_pack(ids: &Vec<String>, pick: usize) -> (r: String)
    ensures
        r@ == spec_fallback_pack(string_texts(ids@), pick),
{
    if ids.len() == 0 {
        return String::new();
    }
    ids[pick % ids.len()].clone()
}

/// Most per-pack volume overrides kept.
pub const MAX_PER_PACK_ENTRIES: usize = 500;

/// A new per-pack volume entry would exceed the limit: `entries` overrides
/// exist and none is for this pack yet.
pub fn too_many_per_pack_entries(entries: usize, has_entry: bool) -> (r: bool)
    ensures
        r == (entries >= MAX_PER_PACK_ENTRIES && !has_entry),
{
    entries >= MAX_PER_PACK_ENTRIES && !has_entry
}

/// The id under which a directory entry of pack kind `kind` is listed;
/// `None` for `.bak.` leftovers of an import, which are not packs.
pub open spec fn spec_pack_entry_id(kind: Seq<char>, name: Seq<char>) -> Option<Seq<char>> {
    if contains_seq(name, ".bak."@) {
        None
    } else {
        Some(kind + "/"@ + name)
    }
}

/// See [`spec_pack_entry_id`].
pub fn pack_entry_id(kind: &str, name: &str) -> (r: Option<String>)
    ensures
        match spec_pack_entry_id(kind@, name@) {
            Some(id) => r matches Some(x) && x@ == id,
            None => r is None,
        },
{
    let nc = chars_of(name);
    let marker = chars_of(".bak.");
    if contains(&nc, &marker) {
        return None;
    }
    let mut out = chars_of(kind);
    push_str(&mut out, "/");
    push_all(&mut out, &nc);
    Some(string_of(out))
}

/// The soundpacks directory under the data root (its absolute form when
/// `root` is absolute).
pub fn get_soundpacks_dir_absolute(root: &str) -> (r: String)
    ensures
        r@ == join_path(root@, "soundpacks"@),
{
    get_builtin_soundpacks_dir(root)
}

/// `a` sorts no later than `b`: lexicographic order by code point, which
/// for UTF-8 text is the byte order `String`'s `Ord` uses.
pub open spec fn text_le(a: Seq<char>, b: Seq<char>) -> bool
    decreases a.len(),
{
    if a.len() == 0 {
        true
    } else if b.len() == 0 {
        false
    } else if (a[0] as u32) != (b[0] as u32) {
        (a[0] as u32) < (b[0] as u32)
    } else {
        text_le(a.drop_first(), b.drop_first())
    }
}

/// Any two texts are ordered one way or the other.
pub proof fn lemma_text_le_total(a: Seq<char>, b: Seq<char>)
    ensures
        text_le(a, b) || text_le(b, a),
    decreases a.len(),
{
    if a.len() > 0 && b.len() > 0 && (a[0] as u32) == (b[0] as u32) {
        lemma_text_le_total(a.drop_first(), b.drop_first());
    }
}

/// The order is transitive.
pub proof fn lemma_text_le_transitive(a: Seq<char>, b: Seq<char>, c: Seq<char>)
    requires
        text_le(a, b),
        text_le(b, c),
    ensures
        text_le(a, c),
    decreases a.len(),
{
    if a.len() > 0 && b.len() > 0 && c.len() > 0 && (a[0] as u32) == (b[0] as u32) && (b[0] as u32)
        == (c[0] as u32) {
        lemma_text_le_transitive(a.drop_first(), b.drop_first(), c.drop_first());
    }
}

/// Texts in non-decreasing order.
pub open spec fn sorted_texts(s: Seq<Seq<char>>) -> bool {
    forall|i: int, j: int| 0 <= i < j < s.len() ==> text_le(#[trigger] s[i], #[trigger] s[j])
}

fn text_le_exec(a: &Vec<char>, b: &Vec<char>) -> (r: bool)
    ensures
        r == text_le(a@, b@),
{
    let mut i: usize = 0;
    assert(a@.subrange(0, a@.len() as int) =~= a@);
    assert(b@.subrange(0, b@.len() as int) =~= b@);
    while i < a.len() && i < b.len() && (a[i] as u32) == (b[i] as u32)
        invariant
            i <= a@.len(),
            i <= b@.len(),
            text_le(a@, b@) == text_le(
                a@.subrange(i as int, a@.len() as int),
                b@.subrange(i as int, b@.len() as int),
            ),
        decreases a.len() - i,
    {
        let ghost ra = a@.subrange(i as int, a@.len() as int);
        let ghost rb = b@.subrange(i as int, b@.len() as int);
        assert(ra.drop_first() =~= a@.subrange(i + 1, a@.len() as int));
        assert(rb.drop_first() =~= b@.subrange(i + 1, b@.len() as int));
        i = i + 1;
    }
    let ghost ra = a@.subrange(i as int, a@.len() as int);
    let ghost rb = b@.subrange(i as int, b@.len() as int);
    if i == a.len() {
        assert(ra.len() == 0);
        true
    } else if i == b.len() {
        assert(rb.len() == 0);
        false
    } else {
        assert(ra[0] == a@[i as int] && rb[0] == b@[i as int]);
        (a[i] as u32) < (b[i] as u32)
    }
}

fn string_le(a: &String, b: &Vec<char>) -> (r: bool)
    ensures
        r == text_le(a@, b@),
{
    let ac = chars_of(a.as_str());
    text_le_exec(&ac, b)
}

/// Pack ids in sorted order (the same ids, each as often as given).
pub fn sort_ids(ids: &Vec<String>) -> (r: Vec<String>)
    ensures
        sorted_texts(string_texts(r@)),
        string_texts(r@).to_multiset() == string_texts(ids@).to_multiset(),
{
    broadcast use vstd::seq_lib::group_to_multiset_ensures;

    let mut out: Vec<String> = Vec::new();
    let mut k: usize = 0;
    assert(string_texts(out@) =~= string_texts(ids@).subrange(0, 0));
    while k < ids.len()
        invariant
            k <= ids@.len(),
            sorted_texts(string_texts(out@)),
            string_texts(out@).to_multiset() == string_texts(ids@).subrange(
                0,
                k as int,
            ).to_multiset(),
        decreases ids.len() - k,
    {
        let x = chars_of(ids[k].as_str());
        let mut p: usize = 0;
        while p < out.len() && string_le(&out[p], &x)
            invariant
                p <= out@.len(),
                k < ids@.len(),
                x@ == ids@[k as int]@,
                sorted_texts(string_texts(out@)),
                forall|j: int| 0 <= j < p ==> text_le(#[trigger] string_texts(out@)[j], x@),
            decreases out.len() - p,
        {
            p = p + 1;
        }
        let ghost old_texts = string_texts(out@);
        proof {
            if p < old_texts.len() {
                assert(!text_le(old_texts[p as int], x@));
                lemma_text_le_total(old_texts[p as int], x@);
                assert forall|j: int| p <= j < old_texts.len() implies text_le(
                    x@,
                    #[trigger] old_texts[j],
                ) by {
                    if j > p {
                        lemma_text_le_transitive(x@, old_texts[p as int], old_texts[j]);
                    }
                }
            }
        }
        out.insert(p, ids[k].clone());
        let ghost new_texts = string_texts(out@);
        assert(new_texts =~= old_texts.insert(p as int, x@));
        assert forall|a: int, b: int| 0 <= a < b < new_texts.len() implies text_le(
            #[trigger] new_texts[a],
            #[trigger] new_texts[b],
        ) by {
            if b < p {
            } else if b == p {
            } else if a < p {
                assert(text_le(old_texts[a], x@));
                assert(text_le(x@, old_texts[b - 1]));
                lemma_text_le_transitive(old_texts[a], x@, old_texts[b - 1]);
            } else if a == p {
            } else {
                assert(text_le(old_texts[a - 1], old_texts[b - 1]));
            }
        }
        assert(string_texts(ids@).subrange(0, k + 1) =~= string_texts(ids@).subrange(
            0,
            k as int,
        ).push(x@));
        proof {
            vstd::seq_lib::to_multiset_insert(old_texts, p as int, x@);
            vstd::seq_lib::to_multiset_build(string_texts(ids@).subrange(0, k as int), x@);
        }
        k = k + 1;
    }
    assert(string_texts(ids@).subrange(0, ids@.len() as int) =~= string_texts(ids@));
    out
}

/// The listed ids that shipped with the plugin, in listing order: those the
/// build stamp names, or in [`spec_bundled_packs`].
pub open spec fn bundled_subset(ids: Seq<Seq<char>>, stamp: Seq<Seq<char>>) -> Seq<Seq<char>> {
    ids.filter(|id: Seq<char>| preinstalled(id, stamp))
}

/// See [`bundled_subset`].
pub fn bundled_ids(ids: &Vec<String>, stamp: &Vec<String>) -> (r: Vec<String>)
    ensures
        string_texts(r@) == bundled_subset(string_texts(ids@), string_texts(stamp@)),
{
    let mut out: Vec<String> = Vec::new();
    let mut i: usize = 0;
    let ghost all = string_texts(ids@);
    let ghost st = string_texts(stamp@);
    assert(string_texts(out@) =~= bundled_subset(all.subrange(0, 0), st));
    while i < ids.len()
        invariant
            i <= ids@.len(),
            all == string_texts(ids@),
            st == string_texts(stamp@),
            string_texts(out@) == bundled_subset(all.subrange(0, i as int), st),
        decreases ids.len() - i,
    {
        assert(all.subrange(0, i + 1).drop_last() =~= all.subrange(0, i as int));
        reveal(Seq::filter);
        if is_preinstalled(&ids[i], stamp) {
            let ghost before = out@;
            out.push(ids[i].clone());
            assert(string_texts(out@) =~= string_texts(before).push(ids@[i as int]@));
        }
        i = i + 1;
    }
    assert(all.subrange(0, ids@.len() as int) =~= all);
    out
}

// ------------------------------------------------------------- devices

/// The output device a `select_device` request asks for: `None` (system
/// default) for a missing, `null` or empty id; an error for a non-string,
/// or for an id with a NUL or longer than 256 bytes.
pub open spec fn spec_requested_device(req: Json) -> Result<Option<Seq<char>>, Seq<char>> {
    match spec_get(req, "id"@) {
        None => Ok(None),
        Some(Json::Null) => Ok(None),
        Some(Json::Str(s)) => if s@.len() == 0 {
            Ok(None)
        } else if s@.contains('\0') || utf8_len(s@) > 256 {
            Err("invalid id"@)
        } else {
            Ok(Some(s@))
        },
        Some(_) => Err("id must be a string or null"@),
    }
}

/// See [`spec_requested_device`].
pub fn requested_device(req: &Json) -> (r: Result<Option<String>, String>)
    ensures
        match (r, spec_requested_device(*req)) {
            (Ok(None), Ok(None)) => true,
            (Ok(Some(a)), Ok(Some(b))) => a@ == b,
            (Err(a), Err(b)) => a@ == b,
            _ => false,
        },
{
    match get(req, "id") {
        None => Ok(None),
        Some(Json::Null) => Ok(None),
        Some(Json::Str(s)) => {
            let c = chars_of(s.as_str());
            if c.len() == 0 {
                Ok(None)
            } else if has_char(&c, '\0') || utf8_len_above(&c, 256) {
                Err(String::from_str("invalid id"))
            } else {
                Ok(Some(s.clone()))
            }
        },
        Some(_) => Err(String::from_str("id must be a string or null")),
    }
}

/// A selectable device: one of the enumerated `ids`, or the system default
/// output.
pub fn device_known(id: &String, ids: &Vec<String>) -> (r: bool)
    ensures
        r == (string_texts(ids@).contains(id@) || id@ == "output_default"@),
{
    let c = chars_of(id.as_str());
    let d = chars_of("output_default");
    string_listed(ids, id) || chars_eq(&c, &d)
}

/// Whether a `mute` request mutes: its `muted` flag, muting when absent or
/// not a boolean.
pub fn requested_mute(req: &Json) -> (r: bool)
    ensures
        r == match spec_get(*req, "muted"@) {
            Some(v) => match spec_as_bool(v) {
                Some(b) => b,
                None => true,
            },
            None => true,
        },
{
    match get(req, "muted") {
        Some(v) => match as_bool(v) {
            Some(b) => b,
            None => true,
        },
        None => true,
    }
}

// ------------------------------------------------------------- bar section

/// A bar section name.
pub open spec fn is_section(s: Seq<char>) -> bool {
    s == "left"@ || s == "center"@ || s == "right"@
}

fn section_of(s: &Vec<char>) -> (r: Option<&'static str>)
    ensures
        match r {
            Some(x) => is_section(s@) && x@ == s@,
            None => !is_section(s@),
        },
{
    let left = chars_of("left");
    let center = chars_of("center");
    let right = chars_of("right");
    if chars_eq(s, &left) {
        Some("left")
    } else if chars_eq(s, &center) {
        Some("center")
    } else if chars_eq(s, &right) {
        Some("right")
    } else {
        None
    }
}

/// The bar section a stored setting gives: the trimmed text when it names a
/// section, else `right` (also when nothing is stored).
pub open spec fn spec_stored_bar_section(raw: Option<Seq<char>>) -> Seq<char> {
    match raw {
        Some(t) => if is_section(trim(t)) {
            trim(t)
        } else {
            "right"@
        },
        None => "right"@,
    }
}

/// See [`spec_stored_bar_section`].
pub fn stored_bar_section(raw: Option<&str>) -> (r: &'static str)
    ensures
        r@ == spec_stored_bar_section(
            match raw {
                Some(t) => Some(t@),
                None => None,
            },
        ),
{
    match raw {
        Some(t) => {
            let c = chars_of(t);
            let trimmed = trim_chars(&c);
            match section_of(&trimmed) {
                Some(s) => s,
                None => "right",
            }
        },
        None => "right",
    }
}

/// The section a `set_bar_section` request asks for.
pub open spec fn spec_requested_bar_section(req: Json) -> Result<Seq<char>, Seq<char>> {
    match spec_get(req, "section"@) {
        Some(v) => match spec_as_str(v) {
            Some(s) => if is_section(s) {
                Ok(s)
            } else {
                Err("invalid section"@)
            },
            None => Err("missing section"@),
        },
        None => Err("missing section"@),
    }
}

/// See [`spec_requested_bar_section`].
pub fn requested_bar_section(req: &Json) -> (r: Result<&'static str, String>)
    ensures
        match (r, spec_requested_bar_section(*req)) {
            (Ok(a), Ok(b)) => a@ == b,
            (Err(a), Err(b)) => a@ == b,
            _ => false,
        },
{
    match get(req, "section") {
        Some(v) => match as_str(v) {
            Some(s) => {
                let c = chars_of(s.as_str());
                match section_of(&c) {
                    Some(sec) => Ok(sec),
                    None => Err(String::from_str("invalid section")),
                }
            },
            None => Err(String::from_str("missing section")),
        },
        None => Err(String::from_str("missing section")),
    }
}

// ------------------------------------------------------------- commands

/// The commands the control socket answers.
#[derive(Debug, Clone, PartialEq, Eq)]
pub enum Command {
    Status,
    SetBarSection,
    GetBarSection,
    Mute,
    Volume,
    PerPackVolume,
    ResetVolume,
    DeletePack,
    KeyboardPack,
    Packs,
    AudioDevices,
    SelectDevice,
    ExportLogs,
    /// Any other name, kept for the error reply.
    Unknown(String),
}

/// [`Command`] with the unknown name as text.
pub enum CommandView {
    Status,
    SetBarSection,
    GetBarSection,
    Mute,
    Volume,
    PerPackVolume,
    ResetVolume,
    DeletePack,
    KeyboardPack,
    Packs,
    AudioDevices,
    SelectDevice,
    ExportLogs,
    Unknown(Seq<char>),
}

impl View for Command {
    type V = CommandView;

    open spec fn view(&self) -> CommandView {
        match self {
            Command::Status => CommandView::Status,
            Command::SetBarSection => CommandView::SetBarSection,
            Command::GetBarSection => CommandView::GetBarSection,
            Command::Mute => CommandView::Mute,
            Command::Volume => CommandView::Volume,
            Command::PerPackVolume => CommandView::PerPackVolume,
            Command::ResetVolume => CommandView::ResetVolume,
            Command::DeletePack => CommandView::DeletePack,
            Command::KeyboardPack => CommandView::KeyboardPack,
            Command::Packs => CommandView::Packs,
            Command::AudioDevices => CommandView::AudioDevices,
            Command::SelectDevice => CommandView::SelectDevice,
            Command::ExportLogs => CommandView::ExportLogs,
            Command::Unknown(s) => CommandView::Unknown(s@),
        }
    }
}

/// The command a name selects.
pub open spec fn spec_command_named(name: Seq<char>) -> CommandView {
    if name == "status"@ {
        CommandView::Status
    } else if name == "set_bar_section"@ {
        CommandView::SetBarSection
    } else if name == "get_bar_section"@ {
        CommandView::GetBarSection
    } else if name == "mute"@ {
        CommandView::Mute
    } else if name == "volume"@ {
        CommandView::Volume
    } else if name == "per_pack_volume"@ {
        CommandView::PerPackVolume
    } else if name == "reset_volume"@ {
        CommandView::ResetVolume
    } else if name == "delete_pack"@ {
        CommandView::DeletePack
    } else if name == "keyboard_pack"@ {
        CommandView::KeyboardPack
    } else if name == "packs"@ {
        CommandView::Packs
    } else if name == "audio_devices"@ {
        CommandView::AudioDevices
    } else if name == "select_device"@ {
        CommandView::SelectDevice
    } else if name == "export_logs"@ {
        CommandView::ExportLogs
    } else {
        CommandView::Unknown(name)
    }
}

/// The command a request names in its `cmd` string (an empty name when
/// absent or not a string).
pub open spec fn spec_command(req: Json) -> CommandView {
    spec_command_named(
        match spec_get(req, "cmd"@) {
            Some(v) => match spec_as_str(v) {
                Some(s) => s,
                None => Seq::empty(),
            },
            None => Seq::empty(),
        },
    )
}

/// Each command name selects the command of that name: a request whose
/// `cmd` is `"mute"` is a mute request, `"volume"` a volume request, and so
/// on; any other name is unknown and kept for the error reply.
pub proof fn lemma_each_name_selects_its_command(req: Json, name: Seq<char>)
    requires
        spec_get(req, "cmd"@) matches Some(c) && spec_as_str(c) == Some(name),
    ensures
        name == "status"@ ==> spec_command(req) == CommandView::Status,
        name == "set_bar_section"@ ==> spec_command(req) == CommandView::SetBarSection,
        name == "get_bar_section"@ ==> spec_command(req) == CommandView::GetBarSection,
        name == "mute"@ ==> spec_command(req) == CommandView::Mute,
        name == "volume"@ ==> spec_command(req) == CommandView::Volume,
        name == "per_pack_volume"@ ==> spec_command(req) == CommandView::PerPackVolume,
        name == "reset_volume"@ ==> spec_command(req) == CommandView::ResetVolume,
        name == "delete_pack"@ ==> spec_command(req) == CommandView::DeletePack,
        name == "keyboard_pack"@ ==> spec_command(req) == CommandView::KeyboardPack,
        name == "packs"@ ==> spec_command(req) == CommandView::Packs,
        name == "audio_devices"@ ==> spec_command(req) == CommandView::AudioDevices,
        name == "select_device"@ ==> spec_command(req) == CommandView::SelectDevice,
        name == "export_logs"@ ==> spec_command(req) == CommandView::ExportLogs,
        (name != "status"@ && name != "set_bar_section"@ && name != "get_bar_section"@ && name != "mute"@ && name != "volume"@ && name != "per_pack_volume"@ && name != "reset_volume"@ && name != "delete_pack"@ && name != "keyboard_pack"@ && name != "packs"@ && name != "audio_devices"@ && name != "select_device"@ && name != "export_logs"@) ==> spec_command(req) == CommandView::Unknown(name),
{
    reveal_strlit("status");
    reveal_strlit("set_bar_section");
    reveal_strlit("get_bar_section");
    reveal_strlit("mute");
    reveal_strlit("volume");
    reveal_strlit("per_pack_volume");
    reveal_strlit("reset_volume");
    reveal_strlit("delete_pack");
    reveal_strlit("keyboard_pack");
    reveal_strlit("packs");
    reveal_strlit("audio_devices");
    reveal_strlit("select_device");
    reveal_strlit("export_logs");
    assert("set_bar_section"@.len() != "status"@.len());
    assert("get_bar_section"@.len() != "status"@.len());
    assert("get_bar_section"@[0] != "set_bar_section"@[0]);
    assert("mute"@.len() != "status"@.len());
    assert("mute"@.len() != "set_bar_section"@.len());
    assert("mute"@.len() != "get_bar_section"@.len());
    assert("volume"@[0] != "status"@[0]);
    assert("volume"@.len() != "set_bar_section"@.len());
    assert("volume"@.len() != "get_bar_section"@.len());
    assert("volume"@.len() != "mute"@.len());
    assert("per_pack_volume"@.len() != "status"@.len());
    assert("per_pack_volume"@[0] != "set_bar_section"@[0]);
    assert("per_pack_volume"@[0] != "get_bar_section"@[0]);
    assert("per_pack_volume"@.len() != "mute"@.len());
    assert("per_pack_volume"@.len() != "volume"@.len());
    assert("reset_volume"@.len() != "status"@.len());
    assert("reset_volume"@.len() != "set_bar_section"@.len());
    assert("reset_volume"@.len() != "get_bar_section"@.len());
    assert("reset_volume"@.len() != "mute"@.len());
    assert("reset_volume"@.len() != "volume"@.len());
    assert("reset_volume"@.len() != "per_pack_volume"@.len());
    assert("delete_pack"@.len() != "status"@.len());
    assert("delete_pack"@.len() != "set_bar_section"@.len());
    assert("delete_pack"@.len() != "get_bar_section"@.len());
    assert("delete_pack"@.len() != "mute"@.len());
    assert("delete_pack"@.len() != "volume"@.len());
    assert("delete_pack"@.len() != "per_pack_volume"@.len());
    assert("delete_pack"@.len() != "reset_volume"@.len());
    assert("keyboard_pack"@.len() != "status"@.len());
    assert("keyboard_pack"@.len() != "set_bar_section"@.len());
    assert("keyboard_pack"@.len() != "get_bar_section"@.len());
    assert("keyboard_pack"@.len() != "mute"@.len());
    assert("keyboard_pack"@.len() != "volume"@.len());
    assert("keyboard_pack"@.len() != "per_pack_volume"@.len());
    assert("keyboard_pack"@.len() != "reset_volume"@.len());
    assert("keyboard_pack"@.len() != "delete_pack"@.len());
    assert("packs"@.len() != "status"@.len());
    assert("packs"@.len() != "set_bar_section"@.len());
    assert("packs"@.len() != "get_bar_section"@.len());
    assert("packs"@.len() != "mute"@.len());
    assert("packs"@.len() != "volume"@.len());
    assert("packs"@.len() != "per_pack_volume"@.len());
    assert("packs"@.len() != "reset_volume"@.len());
    assert("packs"@.len() != "delete_pack"@.len());
    assert("packs"@.len() != "keyboard_pack"@.len());
    assert("audio_devices"@.len() != "status"@.len());
    assert("audio_devices"@.len() != "set_bar_section"@.len());
    assert("audio_devices"@.len() != "get_bar_section"@.len());
    assert("audio_devices"@.len() != "mute"@.len());
    assert("audio_devices"@.len() != "volume"@.len());
    assert("audio_devices"@.len() != "per_pack_volume"@.len());
    assert("audio_devices"@.len() != "reset_volume"@.len());
    assert("audio_devices"@.len() != "delete_pack"@.len());
    assert("audio_devices"@[0] != "keyboard_pack"@[0]);
    assert("audio_devices"@.len() != "packs"@.len());
    assert("select_device"@.len() != "status"@.len());
    assert("select_device"@.len() != "set_bar_section"@.len());
    assert("select_device"@.len() != "get_bar_section"@.len());
    assert("select_device"@.len() != "mute"@.len());
    assert("select_device"@.len() != "volume"@.len());
    assert("select_device"@.len() != "per_pack_volume"@.len());
    assert("select_device"@.len() != "reset_volume"@.len());
    assert("select_device"@.len() != "delete_pack"@.len());
    assert("select_device"@[0] != "keyboard_pack"@[0]);
    assert("select_device"@.len() != "packs"@.len());
    assert("select_device"@[0] != "audio_devices"@[0]);
    assert("export_logs"@.len() != "status"@.len());
    assert("export_logs"@.len() != "set_bar_section"@.len());
    assert("export_logs"@.len() != "get_bar_section"@.len());
    assert("export_logs"@.len() != "mute"@.len());
    assert("export_logs"@.len() != "volume"@.len());
    assert("export_logs"@.len() != "per_pack_volume"@.len());
    assert("export_logs"@.len() != "reset_volume"@.len());
    assert("export_logs"@[0] != "delete_pack"@[0]);
    assert("export_logs"@.len() != "keyboard_pack"@.len());
    assert("export_logs"@.len() != "packs"@.len());
    assert("export_logs"@.len() != "audio_devices"@.len());
    assert("export_logs"@.len() != "select_device"@.len());
}

fn is_named(name: &Vec<char>, lit: &str) -> (r: bool)
    ensures
        r == (name@ == lit@),
{
    let l = chars_of(lit);
    chars_eq(name, &l)
}

/// See [`spec_command`].
pub fn command_of(req: &Json) -> (r: Command)
    ensures
        r@ == spec_command(*req),
{
    proof {
        reveal_strlit("");
    }
    let name: &str = match get(req, "cmd") {
        Some(v) => match as_str(v) {
            Some(s) => s.as_str(),
            None => "",
        },
        None => "",
    };
    let n = chars_of(name);
    assert(n@ == match spec_get(*req, "cmd"@) {
        Some(v) => match spec_as_str(v) {
            Some(s) => s,
            None => Seq::<char>::empty(),
        },
        None => Seq::<char>::empty(),
    });
    if is_named(&n, "status") {
        Command::Status
    } else if is_named(&n, "set_bar_section") {
        Command::SetBarSection
    } else if is_named(&n, "get_bar_section") {
        Command::GetBarSection
    } else if is_named(&n, "mute") {
        Command::Mute
    } else if is_named(&n, "volume") {
        Command::Volume
    } else if is_named(&n, "per_pack_volume") {
        Command::PerPackVolume
    } else if is_named(&n, "reset_volume") {
        Command::ResetVolume
    } else if is_named(&n, "delete_pack") {
        Command::DeletePack
    } else if is_named(&n, "keyboard_pack") {
        Command::KeyboardPack
    } else if is_named(&n, "packs") {
        Command::Packs
    } else if is_named(&n, "audio_devices") {
        Command::AudioDevices
    } else if is_named(&n, "select_device") {
        Command::SelectDevice
    } else if is_named(&n, "export_logs") {
        Command::ExportLogs
    } else {
        Command::Unknown(name.to_owned())
    }
}

/// The error reply text for an unknown command.
pub fn unknown_command_error(name: &str) -> (r: String)
    ensures
        r@ == "unknown cmd: "@ + name@,
{
    let mut out = chars_of("unknown cmd: ");
    push_str(&mut out, name);
    string_of(out)
}

// ------------------------------------------------------------- framing

/// Largest request accepted, in bytes.
pub const MAX_REQUEST_BYTES: usize = 65536;

/// Reading `incoming` more bytes after `buffered` would exceed the request
/// limit.
pub fn exceeds_request_limit(buffered: usize, incoming: usize) -> (r: bool)
    ensures
        r == (buffered + incoming > MAX_REQUEST_BYTES),
{
    incoming > MAX_REQUEST_BYTES || buffered > MAX_REQUEST_BYTES - incoming
}

/// Position of the first newline byte, if any.
pub fn first_newline(buf: &[u8]) -> (r: Option<usize>)
    ensures
        match r {
            Some(i) => i < buf@.len() && buf@[i as int] == 10 && forall|j: int|
                0 <= j < i ==> buf@[j] != 10,
            None => forall|j: int| 0 <= j < buf@.len() ==> buf@[j] != 10,
        },
{
    let n = buf.len();
    let mut i: usize = 0;
    while i < n
        invariant
            n == buf@.len(),
            i <= n,
            forall|j: int| 0 <= j < i ==> buf@[j] != 10,
        decreases n - i,
    {
        if buf[i] == 10 {
            return Some(i);
        }
        i = i + 1;
    }
    None
}

/// An ASCII whitespace byte (space, tab, newline, form feed, carriage
/// return).
pub open spec fn is_ascii_space(b: u8) -> bool {
    b == 32 || b == 9 || b == 10 || b == 12 || b == 13
}

/// Whether a partial request holds anything but whitespace (then it gets
/// an "incomplete request" reply instead of silence).
pub fn has_content(buf: &[u8]) -> (r: bool)
    ensures
        r == exists|i: int| 0 <= i < buf@.len() && !is_ascii_space(#[trigger] buf@[i]),
{
    let n = buf.len();
    let mut i: usize = 0;
    while i < n
        invariant
            n == buf@.len(),
            i <= n,
            forall|j: int| 0 <= j < i ==> is_ascii_space(#[trigger] buf@[j]),
        decreases n - i,
    {
        let b = buf[i];
        if !(b == 32 || b == 9 || b == 10 || b == 12 || b == 13) {
            assert(!is_ascii_space(buf@[i as int]));
            return true;
        }
        i = i + 1;
    }
    false
}

/// The client's exit status for a reply: 0 when it parsed and carries
/// `"ok": true`, else 1.
pub fn reply_exit_code(reply: Option<&Json>) -> (r: i32)
    ensures
        r == (match reply {
            Some(v) => if spec_get(*v, "ok"@) == Some(Json::Bool(true)) {
                0i32
            } else {
                1i32
            },
            None => 1i32,
        }),
{
    match reply {
        Some(v) => match get(v, "ok") {
            Some(Json::Bool(true)) => 0,
            _ => 1,
        },
        None => 1,
    }
}

/// The control socket path: `sorakey.sock` in the runtime directory, or in
/// a `sorakey` directory under the temp directory when there is none.
pub fn socket_path(runtime_dir: Option<&str>, temp_dir: &str) -> (r: String)
    ensures
        r@ == match runtime_dir {
            Some(d) => join_path(d@, "sorakey.sock"@),
            None => join_path(join_path(temp_dir@, "sorakey"@), "sorakey.sock"@),
        },
{
    match runtime_dir {
        Some(d) => join(d, "sorakey.sock"),
        None => {
            let dir = join(temp_dir, "sorakey");
            join(dir.as_str(), "sorakey.sock")
        },
    }
}

/// The single-instance lock file: `sorakey.lock` in the runtime directory,
/// or in the temp directory when there is none.
pub fn lock_path(runtime_dir: Option<&str>, temp_dir: &str) -> (r: String)
    ensures
        r@ == match runtime_dir {
            Some(d) => join_path(d@, "sorakey.lock"@),
            None => join_path(temp_dir@, "sorakey.lock"@),
        },
{
    match runtime_dir {
        Some(d) => join(d, "sorakey.lock"),
        None => join(temp_dir, "sorakey.lock"),
    }
}

// ------------------------------------------------------------- command line

/// What the program was asked to do.
#[derive(Debug, PartialEq, Eq)]
pub enum CliMode {
    /// `sorakey ctl '<json>'`: send one request and exit.
    Ctl(String),
    /// `sorakey key <Code> [up]`: fire one keystroke and exit.
    Key { code: String, down: bool },
    /// Anything else: run the daemon.
    Daemon,
}

/// [`CliMode`] as text.
pub enum CliModeView {
    Ctl(Seq<char>),
    Key { code: Seq<char>, down: bool },
    Daemon,
}

impl View for CliMode {
    type V = CliModeView;

    open spec fn view(&self) -> CliModeView {
        match self {
            CliMode::Ctl(r) => CliModeView::Ctl(r@),
            CliMode::Key { code, down } => CliModeView::Key { code: code@, down: *down },
            CliMode::Daemon => CliModeView::Daemon,
        }
    }
}

/// The `i`-th argument's text, if given.
pub open spec fn arg(args: Seq<Seq<char>>, i: int) -> Option<Seq<char>> {
    if 0 <= i < args.len() {
        Some(args[i])
    } else {
        None
    }
}

/// The mode the arguments (program name first) select; a missing request
/// is `{}`, a missing key code is empty, and a key is a press unless the
/// third argument is `up`.
pub open spec fn spec_cli_mode(args: Seq<Seq<char>>) -> CliModeView {
    if arg(args, 1) == Some("ctl"@) {
        CliModeView::Ctl(
            match arg(args, 2) {
                Some(r) => r,
                None => "{}"@,
            },
        )
    } else if arg(args, 1) == Some("key"@) {
        CliModeView::Key {
            code: match arg(args, 2) {
                Some(c) => c,
                None => Seq::empty(),
            },
            down: arg(args, 3) != Some("up"@),
        }
    } else {
        CliModeView::Daemon
    }
}

fn arg_is(args: &Vec<String>, i: usize, lit: &str) -> (r: bool)
    ensures
        r == (arg(string_texts(args@), i as int) == Some(lit@)),
{
    if i < args.len() {
        let a = chars_of(args[i].as_str());
        let l = chars_of(lit);
        chars_eq(&a, &l)
    } else {
        false
    }
}

/// See [`spec_cli_mode`].
pub fn cli_mode(args: &Vec<String>) -> (r: CliMode)
    ensures
        r@ == spec_cli_mode(string_texts(args@)),
{
    if arg_is(args, 1, "ctl") {
        let request = if args.len() > 2 {
            args[2].clone()
        } else {
            String::from_str("{}")
        };
        CliMode::Ctl(request)
    } else if arg_is(args, 1, "key") {
        let code = if args.len() > 2 {
            args[2].clone()
        } else {
            String::new()
        };
        let down = !arg_is(args, 3, "up");
        CliMode::Key { code, down }
    } else {
        CliMode::Daemon
    }
}

} // verus!
