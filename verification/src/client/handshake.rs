//! The schedule of one handshake attempt.

use vstd::prelude::*;

verus! {

/// When a handshake gives up and when it asks again.
///
/// All three are nanoseconds; `deadline` and `next_retry` count from the
/// moment the attempt began.
#[derive(Debug, PartialEq, Eq, Clone, Copy, Structural)]
pub struct ConnectAttempt {
    /// From this moment on the attempt has failed.
    pub deadline: u128,
    /// From this moment on the next `Request` is due.
    pub next_retry: u128,
    /// The time between one `Request` and the next.
    pub interval: u128,
}

impl ConnectAttempt {
    /// An attempt that gives up after `timeout` and whose first `Request`
    /// is due at once.
    pub open spec fn begun(timeout: u128, interval: u128) -> ConnectAttempt {
        ConnectAttempt { deadline: timeout, next_retry: 0, interval }
    }

    /// Whether the attempt has run out of time after `elapsed`.
    pub open spec fn expired(self, elapsed: u128) -> bool {
        elapsed >= self.deadline
    }

    /// Whether a `Request` is due after `elapsed`.
    pub open spec fn due(self, elapsed: u128) -> bool {
        !self.expired(elapsed) && elapsed >= self.next_retry
    }

    /// The attempt after a `Request` was sent: the next one is due one
    /// interval later. A moment past the largest number that can be
    /// written is held as that number.
    pub open spec fn rescheduled(self) -> ConnectAttempt {
        ConnectAttempt {
            deadline: self.deadline,
            next_retry: if self.next_retry + self.interval > u128::MAX {
                u128::MAX
            } else {
                (self.next_retry + self.interval) as u128
            },
            interval: self.interval,
        }
    }

    /// The attempt after `count` requests were sent.
    pub open spec fn rescheduled_by(self, count: nat) -> ConnectAttempt
        decreases count,
    {
        if count == 0 {
            self
        } else {
            self.rescheduled_by((count - 1) as nat).rescheduled()
        }
    }

    /// Holding a moment that cannot be written as the largest number loses
    /// nothing: such a moment is never reached before the deadline, so a
    /// `Request` is due after a rescheduling exactly when the time elapsed
    /// has reached the true sum.
    pub proof fn lemma_rescheduled_is_exact(self, elapsed: u128)
        ensures
            self.rescheduled().due(elapsed) <==> (!self.expired(elapsed) && elapsed
                >= self.next_retry + self.interval),
    {
    }

    /// After `count` requests the deadline and the interval are what they
    /// were, and the next request is due `count` intervals after the first
    /// was.
    pub proof fn lemma_rescheduled_by(self, count: nat)
        ensures
            self.rescheduled_by(count).deadline == self.deadline,
            self.rescheduled_by(count).interval == self.interval,
            self.rescheduled_by(count).next_retry == if self.next_retry + count * self.interval
                > u128::MAX {
                u128::MAX
            } else {
                (self.next_retry + count * self.interval) as u128
            },
        decreases count,
    {
        if count > 0 {
            let before = (count - 1) as nat;
            self.lemma_rescheduled_by(before);
            assert(count * self.interval == before * self.interval + self.interval)
                by (nonlinear_arith)
                requires
                    count == before + 1,
            ;
        }
    }

    /// The requests of an attempt follow each other at the interval: once
    /// `count` requests were sent, another is due exactly from `count`
    /// intervals after the beginning until the deadline.
    pub proof fn lemma_request_schedule(timeout: u128, interval: u128, count: nat, elapsed: u128)
        ensures
            ConnectAttempt::begun(timeout, interval).rescheduled_by(count).due(elapsed) <==> (
            count * interval <= elapsed < timeout),
    {
        ConnectAttempt::begun(timeout, interval).lemma_rescheduled_by(count);
    }

    /// An attempt sends no more requests than intervals begin before its
    /// deadline: once `count` intervals reach the deadline, no further
    /// request is ever due.
    pub proof fn lemma_requests_are_bounded(
        timeout: u128,
        interval: u128,
        count: nat,
        elapsed: u128,
    )
        requires
            count * interval >= timeout,
        ensures
            !ConnectAttempt::begun(timeout, interval).rescheduled_by(count).due(elapsed),
    {
        ConnectAttempt::lemma_request_schedule(timeout, interval, count, elapsed);
    }
}

} // verus!
