//! What to do when a connection cannot be accepted.
use std::io;
use std::time::Duration;
use vstd::prelude::*;

verus! {

/// How often failures, or the recovery from them, are reported, in nanoseconds.
pub const ACCEPT_ERROR_REPORT_INTERVAL: u64 = 600_000_000_000;

/// An error of the operating system.
#[verifier::external_type_specification]
#[verifier::external_body]
pub struct ExIoError(std::io::Error);

/// Why a connection could not be accepted.
#[derive(Clone, Copy, Debug, PartialEq, Eq)]
pub enum AcceptFailure {
    ConnectionAborted,
    ConnectionRefused,
    ConnectionReset,
    Interrupted,
    /// Anything else.
    Other,
}

/// Why an error says that a connection could not be accepted.
pub uninterp spec fn failure_of(err: io::Error) -> AcceptFailure;

/// `std::io::Error::kind`, of which four kinds are told apart. Which errors are of which
/// kind is given a name.
#[verifier::external_body]
fn accept_failure(err: &io::Error) -> (r: AcceptFailure)
    ensures
        r == failure_of(*err),
{
    match err.kind() {
        io::ErrorKind::ConnectionAborted => AcceptFailure::ConnectionAborted,
        io::ErrorKind::ConnectionRefused => AcceptFailure::ConnectionRefused,
        io::ErrorKind::ConnectionReset => AcceptFailure::ConnectionReset,
        io::ErrorKind::Interrupted => AcceptFailure::Interrupted,
        _ => AcceptFailure::Other,
    }
}

/// A time span of some seconds.
pub uninterp spec fn span_of_seconds(seconds: u64) -> Duration;

/// `std::time::Duration::from_secs`: a time span of so many seconds, which is given a
/// name.
#[verifier::external_body]
fn span_of(seconds: u64) -> (r: Duration)
    ensures
        r == span_of_seconds(seconds),
{
    Duration::from_secs(seconds)
}

/// Whether a failure cost one connection only, so that the next one can be tried at once.
pub open spec fn costs_one_connection(failure: AcceptFailure) -> bool {
    !(failure is Other)
}

/// How many seconds to wait after a failure; none where the next connection can be tried
/// at once. After anything but the loss of one connection, trying at once would go on
/// without end.
pub fn backoff_after(failure: AcceptFailure) -> (r: Option<u64>)
    ensures
        r == if costs_one_connection(failure) {
            None
        } else {
            Some(1u64)
        },
{
    match failure {
        AcceptFailure::ConnectionAborted => None,
        AcceptFailure::ConnectionRefused => None,
        AcceptFailure::ConnectionReset => None,
        AcceptFailure::Interrupted => None,
        AcceptFailure::Other => Some(1),
    }
}

/// How long to wait after a connection could not be accepted; none where the next one can
/// be tried at once.
pub fn accept_backoff(err: &io::Error) -> (r: Option<Duration>)
    ensures
        r == if costs_one_connection(failure_of(*err)) {
            None
        } else {
            Some(span_of_seconds(1))
        },
{
    match backoff_after(accept_failure(err)) {
        Some(n) => Some(span_of(n)),
        None => None,
    }
}

/// Where the loop that accepts connections is. Instants are in nanoseconds since it
/// started.
#[derive(Debug, PartialEq, Eq)]
pub struct AcceptLoop {
    /// Failures since a connection was last accepted.
    pub failed_accepts: u64,
    pub last_failure_reported: Option<u64>,
    pub last_recovery_reported: Option<u64>,
}

/// What to do when connections are accepted again.
#[derive(Clone, Copy, Debug, PartialEq, Eq)]
pub struct Recovery {
    /// Failures since a connection was last accepted.
    pub failed_accepts: u64,
    /// Whether to report it.
    pub report: bool,
}

/// What to do when a connection could not be accepted.
#[derive(Clone, Copy, Debug, PartialEq, Eq)]
pub enum AfterFailure {
    /// Go on with the next one.
    Skip,
    /// Wait for some seconds.
    Wait {
        seconds: u64,
        /// Whether to report it.
        report: bool,
    },
}

/// Whether it is time for a report: there was none, or it was long enough ago.
pub open spec fn report_due(last: Option<u64>, now: u64) -> bool {
    match last {
        Some(at) => now - at >= ACCEPT_ERROR_REPORT_INTERVAL,
        None => true,
    }
}

fn is_report_due(last: Option<u64>, now: u64) -> (r: bool)
    ensures
        r == report_due(last, now),
{
    match last {
        Some(at) => now >= at && now - at >= ACCEPT_ERROR_REPORT_INTERVAL,
        None => true,
    }
}

/// When a report was last made, after one at an instant where it was due.
pub open spec fn report_made(last: Option<u64>, now: u64) -> Option<u64> {
    if report_due(last, now) {
        Some(now)
    } else {
        last
    }
}

impl AcceptLoop {
    /// The loop before the first connection.
    pub fn new() -> (r: Self)
        ensures
            r.failed_accepts == 0,
            r.last_failure_reported is None,
            r.last_recovery_reported is None,
    {
        AcceptLoop { failed_accepts: 0, last_failure_reported: None, last_recovery_reported: None }
    }

    /// A connection was accepted. Tells what to do where it is the first after failures.
    pub fn accepted(&mut self, now: u64) -> (r: Option<Recovery>)
        ensures
            final(self).failed_accepts == 0,
            final(self).last_failure_reported == old(self).last_failure_reported,
            if old(self).failed_accepts == 0 {
                &&& r is None
                &&& final(self).last_recovery_reported == old(self).last_recovery_reported
            } else {
                &&& r == Some(
                    Recovery {
                        failed_accepts: old(self).failed_accepts,
                        report: report_due(old(self).last_recovery_reported, now),
                    },
                )
                &&& final(self).last_recovery_reported == report_made(
                    old(self).last_recovery_reported,
                    now,
                )
            },
    {
        if self.failed_accepts == 0 {
            return None;
        }
        let report: bool = is_report_due(self.last_recovery_reported, now);
        if report {
            self.last_recovery_reported = Some(now);
        }
        let failed_accepts: u64 = self.failed_accepts;
        self.failed_accepts = 0;
        Some(Recovery { failed_accepts, report })
    }

    /// A connection could not be accepted. Failures are counted as far as the count goes.
    pub fn failed(&mut self, failure: AcceptFailure, now: u64) -> (r: AfterFailure)
        ensures
            final(self).last_recovery_reported == old(self).last_recovery_reported,
            if costs_one_connection(failure) {
                &&& r is Skip
                &&& final(self).failed_accepts == old(self).failed_accepts
                &&& final(self).last_failure_reported == old(self).last_failure_reported
            } else {
                &&& r == (AfterFailure::Wait {
                    seconds: 1,
                    report: report_due(old(self).last_failure_reported, now),
                })
                &&& final(self).failed_accepts == if old(self).failed_accepts < u64::MAX {
                    (old(self).failed_accepts + 1) as u64
                } else {
                    u64::MAX
                }
                &&& final(self).last_failure_reported == report_made(
                    old(self).last_failure_reported,
                    now,
                )
            },
    {
        match backoff_after(failure) {
            None => AfterFailure::Skip,
            Some(seconds) => {
                if self.failed_accepts < u64::MAX {
                    self.failed_accepts = self.failed_accepts + 1;
                }
                let report: bool = is_report_due(self.last_failure_reported, now);
                if report {
                    self.last_failure_reported = Some(now);
                }
                AfterFailure::Wait { seconds, report }
            },
        }
    }

    /// A connection could not be accepted, for what an error says.
    pub fn failed_with(&mut self, err: &io::Error, now: u64) -> (r: AfterFailure)
        ensures
            final(self).last_recovery_reported == old(self).last_recovery_reported,
            if costs_one_connection(failure_of(*err)) {
                &&& r is Skip
                &&& final(self).failed_accepts == old(self).failed_accepts
                &&& final(self).last_failure_reported == old(self).last_failure_reported
            } else {
                &&& r == (AfterFailure::Wait {
                    seconds: 1,
                    report: report_due(old(self).last_failure_reported, now),
                })
                &&& final(self).failed_accepts == if old(self).failed_accepts < u64::MAX {
                    (old(self).failed_accepts + 1) as u64
                } else {
                    u64::MAX
                }
                &&& final(self).last_failure_reported == report_made(
                    old(self).last_failure_reported,
                    now,
                )
            },
    {
        self.failed(accept_failure(err), now)
    }
}

/// Two reports of the same thing are never closer than the interval: after one at an
/// instant, none is due before the interval is over.
pub proof fn law_reports_keep_their_distance(last: Option<u64>, now: u64, later: u64)
    requires
        now <= later,
        report_due(last, now),
    ensures
        report_due(report_made(last, now), later) == (later - now >= ACCEPT_ERROR_REPORT_INTERVAL),
{
}

/// Failures of a single connection are passed over at once; after any other one waits.
/// Failures are reported at most every ten minutes: at once where none was, and not again
/// until then.
pub proof fn law_when_failures_are_reported(failure: AcceptFailure, last: u64, now: u64)
    ensures
        costs_one_connection(failure) <==> failure == AcceptFailure::ConnectionAborted || failure
            == AcceptFailure::ConnectionRefused || failure == AcceptFailure::ConnectionReset
            || failure == AcceptFailure::Interrupted,
        report_due(None, now),
        report_due(Some(last), now) <==> now >= last + 600_000_000_000,
        report_made(None, now) == Some(now),
        report_due(Some(last), now) ==> report_made(Some(last), now) == Some(now),
        !report_due(Some(last), now) ==> report_made(Some(last), now) == Some(last),
{
}

} // verus!
