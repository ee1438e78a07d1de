//! Names for the copies kept before a file is overwritten or moved aside:
//! a soundpack audio file before conversion (`.bak`), a damaged settings
//! file (`.corrupt`), a V1 config before conversion (`.v1.backup`).
//!
//! It also names the temporary files written next to a target before
//! being renamed over it.
//!
//! Which names exist on disk is the caller's to check; this module says
//! which name to try next and when to give up.

use vstd::prelude::*;
use crate::text::{chars_of, decimal, lemma_decimal_injective, push_decimal, push_str, string_of};

verus! {

/// How many numbered names are tried before giving up: the plain name,
/// then `.1` to `.99`.
pub const RESCUE_ATTEMPTS: u32 = 100;

/// How many V1 config backups are kept: the plain name, then `.1` and `.2`.
pub const MAX_V1_BACKUPS: u32 = 3;

/// The `attempt`-th name for a copy of `path`: `<path><suffix>` first, then
/// `<path><suffix>.<attempt>`; `None` once `limit` names have been tried.
pub open spec fn spec_numbered_name(path: Seq<char>, suffix: Seq<char>, attempt: nat, limit: nat) -> Option<
    Seq<char>,
> {
    if attempt >= limit {
        None
    } else if attempt == 0 {
        Some(path + suffix)
    } else {
        Some(path + suffix + "."@ + decimal(attempt))
    }
}

/// See [`spec_numbered_name`].
pub fn numbered_name(path: &str, suffix: &str, attempt: u32, limit: u32) -> (r: Option<String>)
    ensures
        match spec_numbered_name(path@, suffix@, attempt as nat, limit as nat) {
            Some(n) => r matches Some(x) && x@ == n,
            None => r is None,
        },
{
    if attempt >= limit {
        return None;
    }
    let mut out = chars_of(path);
    push_str(&mut out, suffix);
    if attempt > 0 {
        push_str(&mut out, ".");
        push_decimal(&mut out, attempt as u64);
    }
    Some(string_of(out))
}

/// Different attempts never name the same file, so a later copy cannot
/// overwrite an earlier one.
pub proof fn lemma_numbered_names_distinct(
    path: Seq<char>,
    suffix: Seq<char>,
    a: nat,
    b: nat,
    limit: nat,
)
    requires
        a != b,
        spec_numbered_name(path, suffix, a, limit) is Some,
        spec_numbered_name(path, suffix, b, limit) is Some,
    ensures
        spec_numbered_name(path, suffix, a, limit) != spec_numbered_name(path, suffix, b, limit),
{
    let base = path + suffix;
    reveal_strlit(".");
    if a > 0 && b > 0 {
        let na = base + "."@ + decimal(a);
        let nb = base + "."@ + decimal(b);
        if na == nb {
            assert(na.subrange(base.len() + 1int, na.len() as int) =~= decimal(a));
            assert(nb.subrange(base.len() + 1int, nb.len() as int) =~= decimal(b));
            lemma_decimal_injective(a, b);
        }
    }
}

/// The name to back up `path` under before it is overwritten, for the
/// `attempt`-th try (see [`spec_numbered_name`] with `.bak`).
pub fn backup_name(path: &str, attempt: u32) -> (r: Option<String>)
    ensures
        match spec_numbered_name(path@, ".bak"@, attempt as nat, RESCUE_ATTEMPTS as nat) {
            Some(n) => r matches Some(x) && x@ == n,
            None => r is None,
        },
{
    numbered_name(path, ".bak", attempt, RESCUE_ATTEMPTS)
}

/// The name to move a damaged settings file to, for the `attempt`-th try
/// (see [`spec_numbered_name`] with `.corrupt`).
pub fn corrupt_copy_name(path: &str, attempt: u32) -> (r: Option<String>)
    ensures
        match spec_numbered_name(path@, ".corrupt"@, attempt as nat, RESCUE_ATTEMPTS as nat) {
            Some(n) => r matches Some(x) && x@ == n,
            None => r is None,
        },
{
    numbered_name(path, ".corrupt", attempt, RESCUE_ATTEMPTS)
}

/// The first index at or after `i` whose flag is false, if any.
pub open spec fn first_free_from(taken: Seq<bool>, i: int) -> Option<nat>
    decreases taken.len() - i,
{
    if i < 0 || i >= taken.len() {
        None
    } else if !taken[i] {
        Some(i as nat)
    } else {
        first_free_from(taken, i + 1)
    }
}

/// The first free name for a copy of `path` (see [`spec_numbered_name`],
/// tried up to [`RESCUE_ATTEMPTS`] times), given which names exist
/// (`taken[k]` for the `k`-th): `None` when every name that may be tried is
/// taken.
pub open spec fn spec_first_free_name(path: Seq<char>, suffix: Seq<char>, taken: Seq<bool>) -> Option<
    Seq<char>,
> {
    match first_free_from(taken, 0) {
        Some(k) => spec_numbered_name(path, suffix, k, RESCUE_ATTEMPTS as nat),
        None => None,
    }
}

/// See [`spec_first_free_name`].
pub fn first_free_name(path: &str, suffix: &str, taken: &Vec<bool>) -> (r: Option<String>)
    ensures
        match spec_first_free_name(path@, suffix@, taken@) {
            Some(n) => r matches Some(x) && x@ == n,
            None => r is None,
        },
{
    let mut i: usize = 0;
    while i < taken.len()
        invariant
            i <= taken@.len(),
            first_free_from(taken@, 0) == first_free_from(taken@, i as int),
        decreases taken.len() - i,
    {
        if !taken[i] {
            if i >= RESCUE_ATTEMPTS as usize {
                return None;
            }
            return numbered_name(path, suffix, i as u32, RESCUE_ATTEMPTS);
        }
        i = i + 1;
    }
    None
}

/// Where to back up a V1 config before converting it, given which of its
/// backup slots exist (`taken[k]` for the `k`-th name of
/// [`spec_numbered_name`] with `.v1.backup`): the first free slot, or the
/// plain name again when all are taken (the caller then drops that oldest
/// copy first), so at most three backups ever exist.
pub open spec fn spec_v1_backup_slot(taken: Seq<bool>) -> nat {
    if taken.len() >= 1 && !taken[0] {
        0
    } else if taken.len() >= 2 && !taken[1] {
        1
    } else if taken.len() >= 3 && !taken[2] {
        2
    } else {
        0
    }
}

/// See [`spec_v1_backup_slot`]: the slot and its name.
pub fn v1_backup_slot(config_path: &str, taken: &Vec<bool>) -> (r: (u32, String))
    requires
        taken@.len() == MAX_V1_BACKUPS,
    ensures
        r.0 as nat == spec_v1_backup_slot(taken@),
        spec_numbered_name(config_path@, ".v1.backup"@, r.0 as nat, MAX_V1_BACKUPS as nat) == Some(
            r.1@,
        ),
{
    let slot: u32 = if !taken[0] {
        0
    } else if !taken[1] {
        1
    } else if !taken[2] {
        2
    } else {
        0
    };
    match numbered_name(config_path, ".v1.backup", slot, MAX_V1_BACKUPS) {
        Some(name) => (slot, name),
        None => (slot, String::new()),
    }
}

/// The temporary file a converter output is written to before being renamed
/// over `path`: `<path>.tmp.<pid>`.
pub fn atomic_temp_name(path: &str, pid: u32) -> (r: String)
    ensures
        r@ == path@ + ".tmp."@ + decimal(pid as nat),
{
    let mut out = chars_of(path);
    push_str(&mut out, ".tmp.");
    push_decimal(&mut out, pid as u64);
    string_of(out)
}

/// A sibling temporary file for `target`, unique per process, clock reading
/// and call: `<target>.<pid>.<nanos>.<n>.tmp`.
pub fn sibling_temp_name(target: &str, pid: u32, nanos: u32, n: u64) -> (r: String)
    ensures
        r@ == target@ + "."@ + decimal(pid as nat) + "."@ + decimal(nanos as nat) + "."@ + decimal(
            n as nat,
        ) + ".tmp"@,
{
    let mut out = chars_of(target);
    push_str(&mut out, ".");
    push_decimal(&mut out, pid as u64);
    push_str(&mut out, ".");
    push_decimal(&mut out, nanos as u64);
    push_str(&mut out, ".");
    push_decimal(&mut out, n);
    push_str(&mut out, ".tmp");
    string_of(out)
}

} // verus!
