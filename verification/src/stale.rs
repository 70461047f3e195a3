//! The staleness rule: when does a source file need copying.
//!
//! The decision is taken over plain timestamp values.  The caller reads the
//! two files' metadata; a destination whose metadata could not be read for
//! any reason is handed in as `None` and deliberately treated as absent, so
//! that a copy is attempted and any real problem surfaces there.

use vstd::prelude::*;

verus! {

/// A file modification timestamp: seconds and nanoseconds of its instant.
/// Any encoding works, as long as later instants compare greater
/// lexicographically.
#[derive(Debug, Clone, Copy, PartialEq, Eq, Structural)]
pub struct Mtime {
    pub secs: u64,
    pub nanos: u32,
}

/// `a` is a strictly later instant than `b`.
pub open spec fn later_than(a: Mtime, b: Mtime) -> bool {
    a.secs > b.secs || (a.secs == b.secs && a.nanos > b.nanos)
}

/// The staleness rule: a copy is required exactly when the destination
/// timestamp is unknown (file absent, or its metadata unreadable) or strictly
/// older than the source timestamp.  Equal timestamps count as up to date.
pub open spec fn needs_copy_spec(src_mtime: Mtime, dest_mtime: Option<Mtime>) -> bool {
    match dest_mtime {
        None => true,
        Some(d) => later_than(src_mtime, d),
    }
}

/// Decide whether the destination must be (re)written.
pub fn needs_copy(src_mtime: Mtime, dest_mtime: Option<Mtime>) -> (r: bool)
    ensures
        r == needs_copy_spec(src_mtime, dest_mtime),
{
    match dest_mtime {
        None => true,
        Some(d) => src_mtime.secs > d.secs || (src_mtime.secs == d.secs
            && src_mtime.nanos > d.nanos),
    }
}

} // verus!
