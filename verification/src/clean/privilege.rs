//! The privilege boundary: elevation is read from an effective user id.
use vstd::prelude::*;

verus! {

/// Whether an effective user id is root's.
pub open spec fn is_root_euid(euid: u32) -> bool {
    euid == 0
}

/// Whether this effective user id is root's (user id 0).
pub fn euid_is_root(euid: u32) -> (r: bool)
    ensures
        r == is_root_euid(euid),
{
    euid == 0
}

/// Returns whether the process is elevated, asking `euid_fn` for the
/// effective user id.
pub fn is_elevated_with<F: Fn() -> u32>(euid_fn: F) -> (r: bool)
    requires
        call_requires(euid_fn, ()),
    ensures
        exists|euid: u32| call_ensures(euid_fn, (), euid) && r == is_root_euid(euid),
{
    let euid = euid_fn();
    let r = euid_is_root(euid);
    assert(call_ensures(euid_fn, (), euid) && r == is_root_euid(euid));
    r
}

/// Known system cache directories that can be read or scanned.
pub fn system_cache_roots() -> (r: Vec<&'static str>)
    ensures
        r@.len() == 4,
        r@[0]@ == "/var/cache/pacman/pkg"@,
        r@[1]@ == "/var/log"@,
        r@[2]@ == "/tmp"@,
        r@[3]@ == "/var/tmp"@,
{
    vec!["/var/cache/pacman/pkg", "/var/log", "/tmp", "/var/tmp"]
}

/// System roots scanned only with root privileges.
pub fn elevated_system_roots() -> (r: Vec<&'static str>)
    ensures
        r@.len() == 2,
        r@[0]@ == "/var/cache"@,
        r@[1]@ == "/var/log/journal"@,
{
    vec!["/var/cache", "/var/log/journal"]
}

} // verus!
