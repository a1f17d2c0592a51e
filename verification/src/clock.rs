//! Times as they are written into answers and documents.

use vstd::prelude::*;

use crate::outside::{stamp_pattern, utc_format, utc_text};
use crate::protocol::{Reply, ReplyView};

verus! {

/// A moment as it is written, in UTC and to the second.
pub open spec fn stamp_text(seconds: i64, nanos: u32) -> Option<Seq<char>> {
    utc_text(seconds, nanos, stamp_pattern())
}

/// Writes a moment, given as seconds and nanoseconds since 1970. Every moment of the years 1970
/// to 9999 can be written.
pub fn stamp(seconds: i64, nanos: u32) -> (r: Option<String>)
    ensures
        stamp_text(seconds, nanos) == match r {
            Some(s) => Some(s@),
            None => None,
        },
        0 <= seconds <= 253_402_300_799 && nanos < 1_000_000_000 ==> r is Some,
{
    utc_format(seconds, nanos, "%Y-%m-%d %H:%M:%S")
}

/// The time read from the clock, as it is written.
pub open spec fn stamp_in<N>(r: ReplyView<N>) -> Option<Seq<char>> {
    match r {
        ReplyView::Time { seconds, nanos } => stamp_text(seconds, nanos),
        _ => None,
    }
}

/// The fault of a clock that cannot be read.
pub open spec fn clock_fault() -> Seq<char> {
    "No such local time"@
}

/// The fault of a clock that cannot be read.
pub fn clock_fault_text() -> (r: String)
    ensures
        r@ == clock_fault(),
{
    "No such local time".to_owned()
}

impl<N> Reply<N> {
    /// The time read from the clock, as it is written.
    pub fn stamp(&self) -> (r: Option<String>)
        ensures
            stamp_in(self@) == match r {
                Some(s) => Some(s@),
                None => None,
            },
    {
        match self {
            Reply::Time { seconds, nanos } => stamp(*seconds, *nanos),
            _ => None,
        }
    }
}

/// Times are written as year, month and day and then hours, minutes and seconds; a reply that is no
/// time gives none.
pub proof fn times_are_written_to_the_second<N>(seconds: i64, nanos: u32, r: ReplyView<N>)
    ensures
        !(r is Time) ==> stamp_in(r) is None,
        stamp_text(seconds, nanos) == utc_text(seconds, nanos, "%Y-%m-%d %H:%M:%S"@),
        stamp_in(ReplyView::<N>::Time { seconds, nanos }) == utc_text(
            seconds,
            nanos,
            "%Y-%m-%d %H:%M:%S"@,
        ),
{
}

} // verus!
