//! Aged log files and temporary cache entries. An entry's age is the time
//! since it was last modified, read by the caller: none where the
//! modification time could not be read, zero where it lies in the future.
use crate::paths::{extension_of, path_extension};
use crate::text::{eq_ignore_ascii_case_seq, starts_with_seq, str_eq_ignore_ascii_case, str_starts_with};
use vstd::prelude::*;

verus! {

/// Number of seconds in a standard 24-hour day.
pub const SECONDS_PER_DAY: u64 = 86400;

/// Whether an entry of this age (in seconds) is older than `threshold_days`
/// days, that is, its age exceeds the threshold; an entry of unknown age is
/// not.
pub open spec fn older_than(age_secs: Option<u64>, threshold_days: u64) -> bool {
    match age_secs {
        Some(age) => age > threshold_days * SECONDS_PER_DAY,
        None => false,
    }
}

/// Whether an entry of this age exceeds `threshold_days` days.
pub fn is_older_than(age_secs: Option<u64>, threshold_days: u64) -> (b: bool)
    requires
        threshold_days * SECONDS_PER_DAY <= u64::MAX,
    ensures
        b == older_than(age_secs, threshold_days),
{
    match age_secs {
        Some(age) => age > threshold_days * SECONDS_PER_DAY,
        None => false,
    }
}

/// Whether `path` names a log file: its extension is `log` in any case.
pub open spec fn is_log_path(path: Seq<char>) -> bool {
    path_extension(path) matches Some(e) && eq_ignore_ascii_case_seq(e, "log"@)
}

/// Determines whether a file is a log file older than `threshold_days`
/// days.
pub fn is_stale_log_file(path: &str, age_secs: Option<u64>, threshold_days: u64) -> (b: bool)
    requires
        threshold_days * SECONDS_PER_DAY <= u64::MAX,
    ensures
        b == (is_log_path(path@) && older_than(age_secs, threshold_days)),
{
    let is_log = match extension_of(path) {
        Some(e) => str_eq_ignore_ascii_case(e.as_str(), "log"),
        None => false,
    };
    if !is_log {
        return false;
    }
    is_older_than(age_secs, threshold_days)
}

/// Whether `path` lies in a system temporary tree (`/tmp/` or `/var/tmp/`).
pub open spec fn is_temp_tree_path(path: Seq<char>) -> bool {
    starts_with_seq(path, "/tmp/"@) || starts_with_seq(path, "/var/tmp/"@)
}

/// Determines whether an entry lies in a system temporary tree and is older
/// than `threshold_days` days.
pub fn is_stale_cache_entry(path: &str, age_secs: Option<u64>, threshold_days: u64) -> (b: bool)
    requires
        threshold_days * SECONDS_PER_DAY <= u64::MAX,
    ensures
        b == (is_temp_tree_path(path@) && older_than(age_secs, threshold_days)),
{
    let in_temp = str_starts_with(path, "/tmp/") || str_starts_with(path, "/var/tmp/");
    if !in_temp {
        return false;
    }
    is_older_than(age_secs, threshold_days)
}

} // verus!
