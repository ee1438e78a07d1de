//! Orphan watchdog decisions: is the plugin still referenced by the shell
//! config, which inotify events name our entry, and when a run of failed
//! checks is long enough to act on.
//!
//! The watching itself (inotify, poll, sleeping, reading `shell.json`,
//! removing files) is done by the caller; this module decides.

use vstd::prelude::*;
use crate::json::{Json, as_array, get, spec_as_str, spec_get};
use crate::paths::{chars_eq, join, join_path};
use crate::pack_checker::string_texts;
use crate::text::{chars_of, decimal, push_decimal, push_str, string_of};

verus! {

/// Consecutive "gone" checks of the plugin checkout before cleaning up
/// (fallback poll: 6 x 5 s, about 30 s of grace).
pub const MISS_LIMIT: u32 = 6;
/// Consecutive quiet safety checks with the plugin unreferenced before the
/// daemon disables itself.
pub const SAFETY_MISS_LIMIT: u32 = 2;
/// Consecutive unreferenced checks before disabling, when inotify is
/// unavailable (3 x 10 s).
pub const ENABLE_MISS_LIMIT: u32 = 3;

/// inotify: an entry was deleted from the watched directory.
pub const IN_DELETE: u32 = 0x200;
/// inotify: an entry was moved out of the watched directory.
pub const IN_MOVED_FROM: u32 = 0x40;
/// inotify: the watch was removed.
pub const IN_IGNORED: u32 = 0x8000;
/// inotify: the event queue overflowed.
pub const IN_Q_OVERFLOW: u32 = 0x4000;
/// inotify: a file opened for writing was closed.
pub const IN_CLOSE_WRITE: u32 = 0x8;
/// inotify: an entry was moved into the watched directory.
pub const IN_MOVED_TO: u32 = 0x80;
/// inotify: an entry was created in the watched directory.
pub const IN_CREATE: u32 = 0x100;
/// The events that mean `shell.json` was (re)written: atomic rename, plain
/// create, in-place write.
pub const CONFIG_EVENTS: u32 = 0x188;
/// The events that mean our checkout left its parent directory.
pub const REMOVAL_EVENTS: u32 = 0x240;

/// The plugin id as it appears in `shell.json`.
pub open spec fn plugin_id() -> Seq<char> {
    "io.github.sandeshrai00.sorakey"@
}

/// The id a `shell.json` layout entry carries: a bare string, or the `id`
/// member of an object.
pub open spec fn spec_entry_id(e: Json) -> Option<Seq<char>> {
    match e {
        Json::Str(s) => Some(s@),
        Json::Object(_) => match spec_get(e, "id"@) {
            Some(i) => spec_as_str(i),
            None => None,
        },
        _ => None,
    }
}

/// Some entry of `entries` carries our plugin id.
pub open spec fn lists_plugin(entries: Seq<Json>) -> bool {
    exists|i: int| 0 <= i < entries.len() && spec_entry_id(#[trigger] entries[i]) == Some(plugin_id())
}

/// The member `key` of `v` is an array that lists our plugin.
pub open spec fn member_lists_plugin(v: Json, key: Seq<char>) -> bool {
    match spec_get(v, key) {
        Some(Json::Array(a)) => lists_plugin(a@),
        _ => false,
    }
}

/// The plugin is enabled: referenced in `plugins[]` or in the `left`,
/// `center` or `right` section of `bar.layout`.
pub open spec fn spec_entry_present(v: Json) -> bool {
    ||| member_lists_plugin(v, "plugins"@)
    ||| match spec_get(v, "bar"@) {
        Some(bar) => match spec_get(bar, "layout"@) {
            Some(layout) => member_lists_plugin(layout, "left"@) || member_lists_plugin(
                layout,
                "center"@,
            ) || member_lists_plugin(layout, "right"@),
            None => false,
        },
        None => false,
    }
}

/// The plugin counts as present when any section the bar offers for
/// widgets (`bar.layout.left`, `bar.layout.center` or `bar.layout.right`)
/// holds an entry with the plugin id, wherever the widget was moved to.
pub proof fn lemma_any_bar_section_keeps_the_plugin(v: Json, section: Seq<char>, i: int)
    requires
        section == "left"@ || section == "center"@ || section == "right"@,
        spec_get(v, "bar"@) matches Some(bar) && spec_get(bar, "layout"@) matches Some(layout)
            && spec_get(layout, section) matches Some(Json::Array(a)) && 0 <= i < a@.len()
            && spec_entry_id(a@[i]) == Some(plugin_id()),
    ensures
        spec_entry_present(v),
{
}

/// The plugin counts as present when `plugins[]` holds an entry with its id.
pub proof fn lemma_plugins_list_keeps_the_plugin(v: Json, i: int)
    requires
        spec_get(v, "plugins"@) matches Some(Json::Array(a)) && 0 <= i < a@.len() && spec_entry_id(
            a@[i],
        ) == Some(plugin_id()),
    ensures
        spec_entry_present(v),
{
}

/// A `shell.json` with neither a `plugins` list nor a `bar` does not
/// reference the plugin.
pub proof fn lemma_no_lists_no_plugin(v: Json)
    requires
        spec_get(v, "plugins"@) is None,
        spec_get(v, "bar"@) is None,
    ensures
        !spec_entry_present(v),
{
}

/// See [`spec_entry_id`].
pub fn entry_id(e: &Json) -> (r: Option<&String>)
    ensures
        match spec_entry_id(*e) {
            Some(s) => r matches Some(x) && x@ == s,
            None => r is None,
        },
{
    match e {
        Json::Str(s) => Some(s),
        Json::Object(_) => match get(e, "id") {
            Some(i) => match i {
                Json::Str(s) => Some(s),
                _ => None,
            },
            None => None,
        },
        _ => None,
    }
}

fn is_plugin_entry(e: &Json) -> (r: bool)
    ensures
        r == (spec_entry_id(*e) == Some(plugin_id())),
{
    match entry_id(e) {
        Some(s) => {
            let a = chars_of(s.as_str());
            let b = chars_of("io.github.sandeshrai00.sorakey");
            chars_eq(&a, &b)
        },
        None => false,
    }
}

fn any_plugin_entry(entries: &Vec<Json>) -> (r: bool)
    ensures
        r == lists_plugin(entries@),
{
    let mut i: usize = 0;
    while i < entries.len()
        invariant
            i <= entries.len(),
            forall|j: int|
                0 <= j < i ==> spec_entry_id(#[trigger] entries@[j]) != Some(plugin_id()),
        decreases entries.len() - i,
    {
        if is_plugin_entry(&entries[i]) {
            assert(spec_entry_id(entries@[i as int]) == Some(plugin_id()));
            return true;
        }
        i = i + 1;
    }
    false
}

fn member_lists(v: &Json, key: &str) -> (r: bool)
    ensures
        r == member_lists_plugin(*v, key@),
{
    match get(v, key) {
        Some(m) => match as_array(m) {
            Some(a) => any_plugin_entry(a),
            None => false,
        },
        None => false,
    }
}

/// Whether the shell config references our plugin (the shell's own notion
/// of "enabled").
pub fn entry_present(v: &Json) -> (r: bool)
    ensures
        r == spec_entry_present(*v),
{
    if member_lists(v, "plugins") {
        return true;
    }
    match get(v, "bar") {
        Some(bar) => match get(bar, "layout") {
            Some(layout) => member_lists(layout, "left") || member_lists(layout, "center")
                || member_lists(layout, "right"),
            None => false,
        },
        None => false,
    }
}

/// The enabled state a `shell.json` document gives: `None` when the text
/// did not parse (`parsed` is `None`), otherwise whether the plugin is
/// referenced.
pub fn enabled_in(parsed: Option<&Json>) -> (r: Option<bool>)
    ensures
        match parsed {
            None => r is None,
            Some(v) => r == Some(spec_entry_present(*v)),
        },
{
    match parsed {
        None => None,
        Some(v) => Some(entry_present(v)),
    }
}

/// Fail-open reading of the enabled state: a `shell.json` that could not
/// be read or parsed (`None`) counts as enabled, so a read hiccup never
/// stops a live daemon.
pub fn plugin_enabled(shell: Option<&Json>) -> (r: bool)
    ensures
        match shell {
            None => r,
            Some(v) => r == spec_entry_present(*v),
        },
{
    match enabled_in(shell) {
        Some(b) => b,
        None => true,
    }
}

/// The shell config directory: `$XDG_CONFIG_HOME/omarchy` when that
/// variable is set and non-empty, else `$HOME/.config/omarchy` (an unset
/// `HOME` reads as empty).
pub open spec fn spec_omarchy_dir(xdg_config_home: Option<Seq<char>>, home: Option<Seq<char>>) -> Seq<
    char,
> {
    let home_config = join_path(
        match home {
            Some(h) => h,
            None => Seq::empty(),
        },
        ".config"@,
    );
    let base = match xdg_config_home {
        Some(x) => if x.len() > 0 {
            x
        } else {
            home_config
        },
        None => home_config,
    };
    join_path(base, "omarchy"@)
}

/// See [`spec_omarchy_dir`].
pub fn omarchy_dir(xdg_config_home: Option<&str>, home: Option<&str>) -> (r: String)
    ensures
        r@ == spec_omarchy_dir(
            match xdg_config_home {
                Some(x) => Some(x@),
                None => None,
            },
            match home {
                Some(h) => Some(h@),
                None => None,
            },
        ),
{
    proof {
        reveal_strlit("");
    }
    let h = match home {
        Some(h) => h,
        None => "",
    };
    let base = match xdg_config_home {
        Some(x) => if !x.is_empty() {
            x.to_owned()
        } else {
            join(h, ".config")
        },
        None => join(h, ".config"),
    };
    join(base.as_str(), "omarchy")
}

// ------------------------------------------------------------------ cleanup

/// What an orphaned daemon removes file by file: its user unit and its
/// binary, under the home directory.
pub open spec fn spec_cleanup_files(home: Seq<char>) -> Seq<Seq<char>> {
    seq![
        join_path(home, ".config/systemd/user/sorakey.service"@),
        join_path(home, ".local/bin/sorakey"@),
    ]
}

/// See [`spec_cleanup_files`].
pub fn cleanup_files(home: &str) -> (r: Vec<String>)
    ensures
        string_texts(r@) == spec_cleanup_files(home@),
{
    let mut v: Vec<String> = Vec::new();
    v.push(join(home, ".config/systemd/user/sorakey.service"));
    v.push(join(home, ".local/bin/sorakey"));
    assert(string_texts(v@) =~= spec_cleanup_files(home@));
    v
}

/// What an orphaned daemon wipes as whole directories: its data (packs,
/// settings, runtime files) and its cache. The staged permission-revoke tool
/// elsewhere under `.local/lib` is kept.
pub open spec fn spec_cleanup_dirs(home: Seq<char>) -> Seq<Seq<char>> {
    seq![join_path(home, ".local/share/sorakey"@), join_path(home, ".cache/sorakey"@)]
}

/// See [`spec_cleanup_dirs`].
pub fn cleanup_dirs(home: &str) -> (r: Vec<String>)
    ensures
        string_texts(r@) == spec_cleanup_dirs(home@),
{
    let mut v: Vec<String> = Vec::new();
    v.push(join(home, ".local/share/sorakey"));
    v.push(join(home, ".cache/sorakey"));
    assert(string_texts(v@) =~= spec_cleanup_dirs(home@));
    v
}

/// The runtime directory: `$XDG_RUNTIME_DIR`, else `/run/user/<uid>`.
pub fn runtime_dir(xdg_runtime_dir: Option<&str>, uid: u32) -> (r: String)
    ensures
        r@ == match xdg_runtime_dir {
            Some(d) => d@,
            None => "/run/user/"@ + decimal(uid as nat),
        },
{
    match xdg_runtime_dir {
        Some(d) => d.to_owned(),
        None => {
            let mut out = chars_of("/run/user/");
            push_decimal(&mut out, uid as u64);
            string_of(out)
        },
    }
}

/// The socket and lock files an orphaned daemon removes: each in the
/// runtime directory, and as a dot-file in the home directory.
pub open spec fn spec_runtime_leftovers(run: Seq<char>, home: Seq<char>) -> Seq<Seq<char>> {
    seq![
        join_path(run, "sorakey.sock"@),
        join_path(home, ".sorakey.sock"@),
        join_path(run, "sorakey.lock"@),
        join_path(home, ".sorakey.lock"@),
    ]
}

/// See [`spec_runtime_leftovers`].
pub fn runtime_leftovers(run: &str, home: &str) -> (r: Vec<String>)
    ensures
        string_texts(r@) == spec_runtime_leftovers(run@, home@),
{
    let mut v: Vec<String> = Vec::new();
    v.push(join(run, "sorakey.sock"));
    v.push(join(home, ".sorakey.sock"));
    v.push(join(run, "sorakey.lock"));
    v.push(join(home, ".sorakey.lock"));
    assert(string_texts(v@) =~= spec_runtime_leftovers(run@, home@));
    v
}

// ------------------------------------------------------------------ events

/// What one read of inotify events says about the watched entry.
#[derive(Debug, Clone, Copy, PartialEq, Eq, Structural)]
pub enum Scan {
    /// An event under the mask named our entry.
    Removed,
    /// The watch died (removed, or the queue overflowed).
    WatchLost,
    /// Nothing relevant.
    Nothing,
}

/// The `u32` stored at `at` in `buf`, in the given byte order.
pub open spec fn word(buf: Seq<u8>, at: int, little_endian: bool) -> nat {
    if little_endian {
        (buf[at] + 256 * buf[at + 1] + 65536 * buf[at + 2] + 16777216 * buf[at + 3]) as nat
    } else {
        (buf[at + 3] + 256 * buf[at + 2] + 65536 * buf[at + 1] + 16777216 * buf[at]) as nat
    }
}

/// An event name up to its first NUL byte.
pub open spec fn stem(name: Seq<u8>) -> Seq<u8>
    decreases name.len(),
{
    if name.len() == 0 || name[0] == 0 {
        Seq::empty()
    } else {
        seq![name[0]] + stem(name.drop_first())
    }
}

/// Scanning the events of `buf` from offset `off`: each event is a 16-byte
/// header (`wd`, `mask` at +4, `cookie`, `len` at +12) followed by `len`
/// name bytes. The first event whose name is `base` and whose mask meets
/// `mask` gives `Removed`; failing that, one carrying `IN_IGNORED` or
/// `IN_Q_OVERFLOW` gives `WatchLost`; a truncated trailing event ends the
/// scan.
pub open spec fn scan_from(buf: Seq<u8>, off: nat, base: Seq<u8>, mask: u32, little_endian: bool) -> Scan
    decreases buf.len() - off,
{
    if off + 16 > buf.len() {
        Scan::Nothing
    } else {
        let event_mask = word(buf, off + 4int, little_endian) as u32;
        let len = word(buf, off + 12int, little_endian);
        if off + 16 + len > buf.len() {
            Scan::Nothing
        } else {
            let name = stem(buf.subrange(off + 16int, off + 16int + len));
            if name.len() > 0 && name == base && event_mask & mask != 0 {
                Scan::Removed
            } else if event_mask & (IN_IGNORED | IN_Q_OVERFLOW) != 0 {
                Scan::WatchLost
            } else {
                scan_from(buf, (off + 16 + len) as nat, base, mask, little_endian)
            }
        }
    }
}

fn read_word(buf: &[u8], at: usize, little_endian: bool) -> (r: u32)
    requires
        at + 4 <= buf@.len(),
    ensures
        r as nat == word(buf@, at as int, little_endian),
{
    let _n = buf.len();
    let (b0, b1, b2, b3) = if little_endian {
        (buf[at], buf[at + 1], buf[at + 2], buf[at + 3])
    } else {
        (buf[at + 3], buf[at + 2], buf[at + 1], buf[at])
    };
    b0 as u32 + 256 * (b1 as u32) + 65536 * (b2 as u32) + 16777216 * (b3 as u32)
}

/// Length of the name stored at `buf[start..start + len]` up to its first
/// NUL.
fn stem_len(buf: &[u8], start: usize, len: usize) -> (k: usize)
    requires
        start + len <= buf@.len(),
    ensures
        k <= len,
        stem(buf@.subrange(start as int, start + len)) == buf@.subrange(
            start as int,
            start + k,
        ),
{
    let n = buf.len();
    let ghost name = buf@.subrange(start as int, start + len);
    let mut k: usize = 0;
    assert(name.subrange(0, len as int) =~= name);
    while k < len && buf[start + k] != 0
        invariant
            k <= len,
            start + len <= buf@.len(),
            n == buf@.len(),
            name == buf@.subrange(start as int, start + len),
            stem(name) == buf@.subrange(start as int, start + k) + stem(
                name.subrange(k as int, len as int),
            ),
        decreases len - k,
    {
        let ghost rest = name.subrange(k as int, len as int);
        assert(rest[0] == buf@[start + k]);
        assert(rest.drop_first() =~= name.subrange(k + 1, len as int));
        assert(buf@.subrange(start as int, start + k + 1) =~= buf@.subrange(
            start as int,
            start + k,
        ) + seq![buf@[start + k]]);
        k = k + 1;
    }
    proof {
        let rest = name.subrange(k as int, len as int);
        if k < len {
            assert(rest[0] == 0);
        } else {
            assert(rest.len() == 0);
        }
        assert(stem(rest) =~= Seq::<u8>::empty());
        assert(buf@.subrange(start as int, start + k) + Seq::<u8>::empty() =~= buf@.subrange(
            start as int,
            start + k,
        ));
    }
    k
}

/// `buf[start..start + base.len()]` equals `base`.
fn bytes_match(buf: &[u8], start: usize, base: &[u8]) -> (r: bool)
    requires
        start + base@.len() <= buf@.len(),
    ensures
        r == (buf@.subrange(start as int, start + base@.len()) == base@),
{
    let n = buf.len();
    let mut i: usize = 0;
    while i < base.len()
        invariant
            n == buf@.len(),
            i <= base@.len(),
            start + base@.len() <= buf@.len(),
            forall|j: int| 0 <= j < i ==> buf@[start + j] == base@[j],
        decreases base.len() - i,
    {
        if buf[start + i] != base[i] {
            assert(buf@.subrange(start as int, start + base@.len())[i as int] != base@[i as int]);
            return false;
        }
        i = i + 1;
    }
    assert(buf@.subrange(start as int, start + base@.len()) =~= base@);
    true
}

/// Scans one read of inotify events for our entry `base` under `mask`
/// (see [`scan_from`]); `little_endian` is the byte order the kernel wrote
/// the headers in (the machine's own).
pub fn scan_buf(buf: &[u8], base: &[u8], mask: u32, little_endian: bool) -> (r: Scan)
    ensures
        r == scan_from(buf@, 0, base@, mask, little_endian),
{
    let mut off: usize = 0;
    while buf.len() - off >= 16
        invariant
            off <= buf@.len(),
            scan_from(buf@, 0, base@, mask, little_endian) == scan_from(
                buf@,
                off as nat,
                base@,
                mask,
                little_endian,
            ),
        decreases buf.len() - off,
    {
        let event_mask = read_word(buf, off + 4, little_endian);
        let len = read_word(buf, off + 12, little_endian) as usize;
        if len > buf.len() - off - 16 {
            return Scan::Nothing;
        }
        let start = off + 16;
        let k = stem_len(buf, start, len);
        if k > 0 && k == base.len() && bytes_match(buf, start, base) && event_mask & mask != 0 {
            return Scan::Removed;
        }
        if event_mask & (IN_IGNORED | IN_Q_OVERFLOW) != 0 {
            return Scan::WatchLost;
        }
        off = start + len;
    }
    Scan::Nothing
}

// ------------------------------------------------------------------ misses

/// The count of consecutive failed checks after one more check.
pub open spec fn next_misses(misses: u32, healthy: bool) -> u32 {
    if healthy {
        0
    } else if misses == u32::MAX {
        misses
    } else {
        (misses + 1) as u32
    }
}

/// One periodic check of the watched condition (plugin checkout present,
/// plugin referenced): the new count of consecutive failed checks, and
/// whether this check is the one to act on (it failed and the count has
/// reached `limit`).
pub fn record_check(misses: u32, healthy: bool, limit: u32) -> (r: (u32, bool))
    ensures
        r.0 == next_misses(misses, healthy),
        r.1 == (!healthy && r.0 >= limit),
{
    if healthy {
        (0, false)
    } else {
        let m = misses.saturating_add(1);
        (m, m >= limit)
    }
}

/// The miss count after a run of checks, starting from none.
pub open spec fn misses_after(checks: Seq<bool>) -> u32
    decreases checks.len(),
{
    if checks.len() == 0 {
        0
    } else {
        next_misses(misses_after(checks.drop_last()), checks.last())
    }
}

/// How many checks at the end of the run failed in a row.
pub open spec fn trailing_failures(checks: Seq<bool>) -> nat
    decreases checks.len(),
{
    if checks.len() == 0 || checks.last() {
        0
    } else {
        trailing_failures(checks.drop_last()) + 1
    }
}

/// The miss count is the length of the trailing run of failures, capped at
/// `u32::MAX`.
pub proof fn lemma_misses_count_the_trailing_run(checks: Seq<bool>)
    ensures
        misses_after(checks) == (if trailing_failures(checks) > u32::MAX {
            u32::MAX as nat
        } else {
            trailing_failures(checks)
        }),
    decreases checks.len(),
{
    if checks.len() > 0 {
        lemma_misses_count_the_trailing_run(checks.drop_last());
    }
}

/// A watchdog acts on the last of a run of checks exactly when that check
/// failed and at least `limit` checks in a row have now failed: a shorter
/// absence, however often it recurs, never triggers it.
pub proof fn lemma_acts_only_after_sustained_failure(checks: Seq<bool>, limit: u32)
    requires
        checks.len() > 0,
    ensures
        (!checks.last() && misses_after(checks) >= limit) <==> (!checks.last()
            && trailing_failures(checks) >= limit),
{
    lemma_misses_count_the_trailing_run(checks);
}

} // verus!
