use revolt_core::accept::{
    accept_backoff, backoff_after, AcceptFailure, AcceptLoop, AfterFailure, Recovery,
    ACCEPT_ERROR_REPORT_INTERVAL,
};
use std::io;
use std::time::Duration;

#[test]
fn connection_errors_move_on_at_once() {
    for kind in [
        io::ErrorKind::ConnectionAborted,
        io::ErrorKind::ConnectionRefused,
        io::ErrorKind::ConnectionReset,
        io::ErrorKind::Interrupted,
    ] {
        assert_eq!(accept_backoff(&io::Error::from(kind)), None, "{kind:?}");
    }
}

/// Errnos of Linux.
#[test]
fn errnos_are_classified() {
    // ECONNABORTED, ECONNRESET, ECONNREFUSED, EINTR
    for errno in [103, 104, 111, 4] {
        assert_eq!(accept_backoff(&io::Error::from_raw_os_error(errno)), None, "errno {errno}");
    }
    // EMFILE, ENFILE, ENOBUFS, ENOMEM, EPERM, EBADF, EINVAL, ENOTSOCK
    for errno in [24, 23, 105, 12, 1, 9, 22, 88] {
        assert_eq!(
            accept_backoff(&io::Error::from_raw_os_error(errno)),
            Some(Duration::from_secs(1)),
            "errno {errno}"
        );
    }
}

#[test]
fn each_failure_has_its_backoff() {
    assert_eq!(backoff_after(AcceptFailure::ConnectionAborted), None);
    assert_eq!(backoff_after(AcceptFailure::ConnectionRefused), None);
    assert_eq!(backoff_after(AcceptFailure::ConnectionReset), None);
    assert_eq!(backoff_after(AcceptFailure::Interrupted), None);
    assert_eq!(backoff_after(AcceptFailure::Other), Some(1));
}

#[test]
fn failures_are_counted_and_reported_now_and_then() {
    let mut state = AcceptLoop::new();
    assert_eq!(state.accepted(5), None);

    assert_eq!(state.failed(AcceptFailure::ConnectionReset, 10), AfterFailure::Skip);
    assert_eq!(state.accepted(11), None);

    let broken = io::Error::from_raw_os_error(24);
    assert_eq!(
        state.failed_with(&broken, 20),
        AfterFailure::Wait { seconds: 1, report: true }
    );
    assert_eq!(
        state.failed_with(&broken, 20 + ACCEPT_ERROR_REPORT_INTERVAL - 1),
        AfterFailure::Wait { seconds: 1, report: false }
    );
    assert_eq!(
        state.failed_with(&broken, 20 + ACCEPT_ERROR_REPORT_INTERVAL),
        AfterFailure::Wait { seconds: 1, report: true }
    );
    assert_eq!(
        state.failed_with(&io::Error::from(io::ErrorKind::Interrupted), 30),
        AfterFailure::Skip
    );

    let now = 21 + ACCEPT_ERROR_REPORT_INTERVAL;
    assert_eq!(state.accepted(now), Some(Recovery { failed_accepts: 3, report: true }));
    assert_eq!(state.accepted(now + 1), None);
    state.failed(AcceptFailure::Other, now + 2);
    assert_eq!(state.accepted(now + 3), Some(Recovery { failed_accepts: 1, report: false }));
}

#[test]
fn the_count_of_failures_has_an_end() {
    let mut state = AcceptLoop::new();
    state.failed_accepts = u64::MAX;
    state.failed(AcceptFailure::Other, 1);
    assert_eq!(state.accepted(2), Some(Recovery { failed_accepts: u64::MAX, report: true }));
}
