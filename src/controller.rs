//! The decisions of the polling loop. The loop itself (fetching, writing
//! files and settings, sleeping) runs outside; after each fetch it asks
//! here what to do next.
use vstd::prelude::*;

use crate::decoder::{
    column_table, decode, decoded_rows, rate_limit_sentinel, records_view, DecodeOutcome,
};
use crate::record::VesselRecord;
use crate::table::{csv_header_of, csv_records_of};

verus! {

/// Minutes added to the polling interval when the service says requests
/// come too often: the least step it allows.
pub const INTERVAL_DEFAULT_INCREMENT: u32 = 1;

/// What the loop does after a fetch.
pub enum CycleStep {
    /// Store the reports, then sleep for the current interval.
    Persist(Vec<VesselRecord>),
    /// Save the settings with this raised interval, then sleep for it.
    RaiseInterval(u32),
    /// Nothing to store: reload the settings and sleep for their interval.
    Retry,
}

/// The step after a fetch that gave `body` (`None`: the transport failed),
/// under a polling interval of `interval` minutes.
pub fn after_fetch(interval: u32, body: Option<&str>) -> (r: CycleStep)
    requires
        body matches Some(b) && b@ == rate_limit_sentinel() ==> interval <= u32::MAX
            - INTERVAL_DEFAULT_INCREMENT,
    ensures
        match body {
            None => r is Retry,
            Some(b) => if b@ == rate_limit_sentinel() {
                r == CycleStep::RaiseInterval((interval + INTERVAL_DEFAULT_INCREMENT) as u32)
            } else {
                match csv_header_of(b@) {
                    None => r is Retry,
                    Some(h) => r matches CycleStep::Persist(v) && records_view(v@) == decoded_rows(
                        column_table(h),
                        h.len() as int,
                        csv_records_of(b@),
                    ),
                }
            },
        },
{
    match body {
        None => CycleStep::Retry,
        Some(b) => match decode(b) {
            DecodeOutcome::RateLimited => CycleStep::RaiseInterval(
                interval + INTERVAL_DEFAULT_INCREMENT,
            ),
            DecodeOutcome::Unreadable => CycleStep::Retry,
            DecodeOutcome::Records(v) => CycleStep::Persist(v),
        },
    }
}

/// The length of a sleep of `minutes` minutes, in seconds.
pub fn sleep_seconds(minutes: u32) -> (r: u64)
    ensures
        r == minutes * 60,
{
    minutes as u64 * 60
}

} // verus!
