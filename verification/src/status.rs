//! Runtime health shared between the input listener, the audio engine and
//! the control API: it explains "running but silent" (input permission,
//! pack load, audio backend).
//!
//! The state is one plain value; the daemon keeps it behind a lock and calls
//! these functions on it.

use vstd::prelude::*;

verus! {

/// Outcome of the last soundpack load.
#[derive(Clone, Copy, Debug, PartialEq, Eq, Structural)]
pub enum PackState {
    Unknown,
    Loaded,
    Failed,
}

/// The health record.
#[derive(Debug)]
pub struct Health {
    /// Keyboards the input listener holds.
    pub input_keyboards: usize,
    /// Unix time (seconds) of the last key event; 0 = none yet.
    pub last_key_unix: u64,
    pub pack_state: PackState,
    pub audio_ok: bool,
    pub input_error: Option<String>,
    pub pack_error: Option<String>,
    pub audio_error: Option<String>,
    /// Last seen OS default-sink name; outer `None` = not seeded yet,
    /// `Some(None)` = "no default device" was seen.
    pub default_sink: Option<Option<String>>,
    /// What the live stream is on: outer `None` = engine has not reported,
    /// `Some(None)` = system default, `Some(Some(id))` = explicit device.
    pub opened_device: Option<Option<String>>,
}

/// What `status` reports of the health record.
#[derive(Debug)]
pub struct HealthSnapshot {
    pub input_keyboards: usize,
    pub input_error: Option<String>,
    /// Seconds since the last key event; `None` before the first one.
    pub last_key_age_s: Option<u64>,
    /// `None` while no load has finished.
    pub pack_loaded: Option<bool>,
    pub pack_error: Option<String>,
    pub audio_ok: bool,
    pub audio_error: Option<String>,
}

/// The health of a freshly started daemon: nothing known, audio not yet ok.
pub open spec fn fresh_health() -> Health {
    Health {
        input_keyboards: 0,
        last_key_unix: 0,
        pack_state: PackState::Unknown,
        audio_ok: false,
        input_error: None,
        pack_error: None,
        audio_error: None,
        default_sink: None,
        opened_device: None,
    }
}

impl Health {
    /// A fresh record (see [`fresh_health`]).
    pub fn new() -> (h: Health)
        ensures
            h == fresh_health(),
    {
        Health {
            input_keyboards: 0,
            last_key_unix: 0,
            pack_state: PackState::Unknown,
            audio_ok: false,
            input_error: None,
            pack_error: None,
            audio_error: None,
            default_sink: None,
            opened_device: None,
        }
    }
}

/// Input listener reports how many keyboards it holds.
pub fn set_input_keyboards(h: &mut Health, n: usize)
    ensures
        *final(h) == (Health { input_keyboards: n, ..*old(h) }),
{
    h.input_keyboards = n;
}

/// Input listener reports a problem (e.g. no `/dev/input` access); `None`
/// clears it.
pub fn set_input_error(h: &mut Health, err: Option<String>)
    ensures
        *final(h) == (Health { input_error: err, ..*old(h) }),
{
    h.input_error = err;
}

/// Records that a key event reached the engine at `now_unix`.
pub fn note_key(h: &mut Health, now_unix: u64)
    ensures
        *final(h) == (Health { last_key_unix: now_unix, ..*old(h) }),
{
    h.last_key_unix = now_unix;
}

/// Engine reports a pack load outcome.
pub fn set_pack_result(h: &mut Health, loaded: bool, err: Option<String>)
    ensures
        *final(h) == (Health {
            pack_state: if loaded { PackState::Loaded } else { PackState::Failed },
            pack_error: err,
            ..*old(h)
        }),
{
    h.pack_state = if loaded {
        PackState::Loaded
    } else {
        PackState::Failed
    };
    h.pack_error = err;
}

/// Engine reports audio backend health.
pub fn set_audio_result(h: &mut Health, ok: bool, err: Option<String>)
    ensures
        *final(h) == (Health { audio_ok: ok, audio_error: err, ..*old(h) }),
{
    h.audio_ok = ok;
    h.audio_error = err;
}

/// The text of an optional name.
pub open spec fn opt_text(o: Option<String>) -> Option<Seq<char>> {
    match o {
        None => None,
        Some(s) => Some(s@),
    }
}

/// Whether a sighting of `current` counts as a change of the default sink:
/// the slot was seeded and held a different name.
pub open spec fn sink_changed(slot: Option<Option<String>>, current: Option<String>) -> bool {
    match slot {
        None => false,
        Some(prev) => opt_text(prev) != opt_text(current),
    }
}

fn same_sink(a: &Option<String>, b: &Option<String>) -> (r: bool)
    ensures
        r == (opt_text(*a) == opt_text(*b)),
{
    match (a, b) {
        (None, None) => true,
        (Some(x), Some(y)) => *x == *y,
        _ => false,
    }
}

/// Records the OS default-sink name seen by a status poll. Returns true
/// exactly when it differs from the last one seen; the first sighting only
/// seeds the record (the engine seeds it at boot with what it opened, so a
/// fresh daemon does not reopen on its first poll).
pub fn note_default_sink(h: &mut Health, current: Option<String>) -> (changed: bool)
    ensures
        changed == sink_changed(old(h).default_sink, current),
        *final(h) == (Health { default_sink: Some(current), ..*old(h) }),
{
    let changed = match &h.default_sink {
        None => false,
        Some(prev) => !same_sink(prev, &current),
    };
    h.default_sink = Some(current);
    changed
}

/// A default-sink change fires once: noting the same sink again right after
/// is never a change, and the very first sighting never is either.
pub proof fn lemma_default_sink_fires_once(slot: Option<Option<String>>, current: Option<String>)
    ensures
        !sink_changed(Some(current), current),
        !sink_changed(None, current),
        sink_changed(slot, current) <==> (slot matches Some(prev) && opt_text(prev) != opt_text(
            current,
        )),
{
}

/// Engine reports which device the live stream is on (`None` = system
/// default).
pub fn set_opened_device(h: &mut Health, opened: Option<String>)
    ensures
        *final(h) == (Health { opened_device: Some(opened), ..*old(h) }),
{
    h.opened_device = Some(opened);
}

/// The device the live stream is on; outer `None` until the engine reports.
pub fn opened_device(h: &Health) -> (r: Option<Option<String>>)
    ensures
        r == h.opened_device,
{
    h.opened_device.clone()
}

/// The snapshot `status` reports at time `now_unix`.
pub open spec fn spec_snapshot(h: Health, now_unix: u64) -> HealthSnapshot {
    HealthSnapshot {
        input_keyboards: h.input_keyboards,
        input_error: h.input_error,
        last_key_age_s: if h.last_key_unix == 0 {
            None
        } else if now_unix >= h.last_key_unix {
            Some((now_unix - h.last_key_unix) as u64)
        } else {
            Some(0)
        },
        pack_loaded: match h.pack_state {
            PackState::Unknown => None,
            PackState::Loaded => Some(true),
            PackState::Failed => Some(false),
        },
        pack_error: h.pack_error,
        audio_ok: h.audio_ok,
        audio_error: h.audio_error,
    }
}

/// Snapshot of the record, as merged into `status` responses.
pub fn snapshot(h: &Health, now_unix: u64) -> (s: HealthSnapshot)
    ensures
        s == spec_snapshot(*h, now_unix),
{
    let age = if h.last_key_unix == 0 {
        None
    } else {
        Some(now_unix.saturating_sub(h.last_key_unix))
    };
    HealthSnapshot {
        input_keyboards: h.input_keyboards,
        input_error: h.input_error.clone(),
        last_key_age_s: age,
        pack_loaded: match h.pack_state {
            PackState::Unknown => None,
            PackState::Loaded => Some(true),
            PackState::Failed => Some(false),
        },
        pack_error: h.pack_error.clone(),
        audio_ok: h.audio_ok,
        audio_error: h.audio_error.clone(),
    }
}

/// What was last reported is what the snapshot shows: after the listener and
/// engine report, the snapshot carries exactly those values.
pub proof fn lemma_snapshot_reports_what_was_set(
    h: Health,
    keyboards: usize,
    input_error: Option<String>,
    loaded: bool,
    pack_error: Option<String>,
    audio_ok: bool,
    audio_error: Option<String>,
    now_unix: u64,
)
    ensures
        ({
            let h2 = Health {
                input_keyboards: keyboards,
                input_error: input_error,
                pack_state: if loaded { PackState::Loaded } else { PackState::Failed },
                pack_error: pack_error,
                audio_ok: audio_ok,
                audio_error: audio_error,
                ..h
            };
            let s = spec_snapshot(h2, now_unix);
            &&& s.input_keyboards == keyboards
            &&& s.input_error == input_error
            &&& s.pack_loaded == Some(loaded)
            &&& s.pack_error == pack_error
            &&& s.audio_ok == audio_ok
            &&& s.audio_error == audio_error
        }),
{
}

} // verus!
