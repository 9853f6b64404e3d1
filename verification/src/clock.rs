//! The time as rows hold it.

use vstd::prelude::*;

verus! {

/// The number that a signed row holds for `s` seconds since the epoch.
pub open spec fn stamp(s: u64) -> int {
    if s <= i64::MAX {
        s as int
    } else {
        s - 0x1_0000_0000_0000_0000
    }
}

/// The time as rows hold it, given how many whole seconds the epoch is past.
pub fn now(since_epoch: u64) -> (r: i64)
    ensures
        r == stamp(since_epoch),
{
    if since_epoch <= i64::MAX as u64 {
        since_epoch as i64
    } else {
        -((u64::MAX - since_epoch) as i64) - 1
    }
}

/// The time is the number of seconds, as far as it fits; else it differs from it by a whole turn of
/// 64 bits.
pub proof fn law_stamp(s: u64)
    ensures
        i64::MIN <= stamp(s) <= i64::MAX,
        s < 0x8000_0000_0000_0000 ==> stamp(s) == s,
        stamp(s) % 0x1_0000_0000_0000_0000 == s,
{
}

} // verus!
