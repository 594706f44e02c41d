//! Time as plain numbers.
//!
//! An instant is a count of nanoseconds since a moment the caller chose; a
//! span is the difference of two instants.

use vstd::prelude::*;

verus! {

pub const MILLISECOND: u64 = 1_000_000;

pub const SECOND: u64 = 1_000_000_000;

/// The span from `from` to `to`, zero when `to` comes first.
pub open spec fn elapsed(from: u64, to: u64) -> u64 {
    if from <= to {
        (to - from) as u64
    } else {
        0
    }
}

/// The span from `from` to `to`, zero when `to` comes first.
pub(crate) fn since(from: u64, to: u64) -> (r: u64)
    ensures
        r == elapsed(from, to),
{
    if from <= to {
        to - from
    } else {
        0
    }
}

/// A span is what has to be added to its beginning to get to its end, and nothing
/// where the end comes first.
pub proof fn law_span_leads_from_one_instant_to_the_other(from: u64, to: u64)
    ensures
        from <= to ==> from + elapsed(from, to) == to,
        to < from ==> elapsed(from, to) == 0,
{
}

} // verus!
