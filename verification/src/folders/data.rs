//! Files in the writable state directory.

use vstd::prelude::*;
use crate::paths::{join, join_path};
use super::get_writable_data_dir;

verus! {

/// The settings file: `<root>/data/config.json`.
pub fn config_json(root: &str) -> (r: String)
    ensures
        r@ == join_path(join_path(root@, "data"@), "config.json"@),
{
    let dir = get_writable_data_dir(root);
    join(dir.as_str(), "config.json")
}

/// The soundpack cache file: `<root>/data/soundpack_cache.json`.
pub fn soundpack_cache_json(root: &str) -> (r: String)
    ensures
        r@ == join_path(join_path(root@, "data"@), "soundpack_cache.json"@),
{
    let dir = get_writable_data_dir(root);
    join(dir.as_str(), "soundpack_cache.json")
}

} // verus!
