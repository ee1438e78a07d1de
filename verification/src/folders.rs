//! Fixed on-disk layout under the data root (`~/.local/share/sorakey`):
//! writable state under `data/`, soundpacks under `soundpacks/`.
//!
//! Every function takes the data root as a string; resolving it from the
//! environment and touching the filesystem is the caller's job.

pub mod data;
pub mod soundpacks;

use vstd::prelude::*;
use crate::paths::{join, join_path};

verus! {

/// Writable state directory: `<root>/data`.
pub fn get_writable_data_dir(root: &str) -> (r: String)
    ensures
        r@ == join_path(root@, "data"@),
{
    join(root, "data")
}

/// Consent note written on every successful keyboard-access approval:
/// `<root>/keyboard-granted`.
pub fn consent_stamp(root: &str) -> (r: String)
    ensures
        r@ == join_path(root@, "keyboard-granted"@),
{
    join(root, "keyboard-granted")
}

} // verus!
