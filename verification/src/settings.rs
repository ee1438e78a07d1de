//! Settings decisions that need no floating point: what loading the saved
//! settings migrates.

use vstd::prelude::*;
use crate::speakers::{is_legacy_index_device_id, spec_is_legacy_index_device_id};

verus! {

/// The pack selected on a first run.
pub open spec fn default_pack() -> Seq<char> {
    "keyboard/sugar65"@
}

/// The selected device after loading: an old index-based id (unstable
/// across reboots) reverts to the system default.
pub open spec fn spec_migrated_device(selected: Option<Seq<char>>) -> Option<Seq<char>> {
    match selected {
        Some(d) => if spec_is_legacy_index_device_id(d) {
            None
        } else {
            Some(d)
        },
        None => None,
    }
}

/// What loading saved settings changes: the selected output device (see
/// [`spec_migrated_device`]) and `auto_start`, which follows the system's
/// state when that is known and is kept otherwise. The flag says whether
/// anything changed, so the settings are saved back.
pub fn migrate_loaded(selected: Option<String>, auto_start: bool, system_auto_start: Option<bool>) -> (r:
    (Option<String>, bool, bool))
    ensures
        match (r.0, spec_migrated_device(
            match selected {
                Some(d) => Some(d@),
                None => None,
            },
        )) {
            (Some(a), Some(b)) => a@ == b,
            (None, None) => true,
            _ => false,
        },
        r.1 == match system_auto_start {
            Some(s) => s,
            None => auto_start,
        },
        r.2 == ((selected is Some && r.0 is None) || (system_auto_start matches Some(s) && s
            != auto_start)),
{
    let had_device = selected.is_some();
    let device = match selected {
        Some(d) => if is_legacy_index_device_id(d.as_str()) {
            None
        } else {
            Some(d)
        },
        None => None,
    };
    let dropped = had_device && device.is_none();
    let (auto, synced) = match system_auto_start {
        Some(s) => (s, s != auto_start),
        None => (auto_start, false),
    };
    (device, auto, dropped || synced)
}

} // verus!
