//! The readiness probe: the driver's status address is asked until it
//! answers, with a pause after each failure and an end after twenty.

use vstd::prelude::*;
use vstd::string::*;
use crate::error::{Error, ErrorView};

verus! {

/// The number of failed attempts after which the probe gives up.
pub const MAX_ATTEMPTS: u32 = 20;

/// The pause after a failed attempt, in milliseconds.
pub const BACKOFF_MILLIS: u64 = 50;

/// The state of a probe: how many attempts have failed.
#[derive(Clone, Copy, Debug, PartialEq, Eq, Structural)]
pub struct Probe {
    pub failures: u32,
}

/// What to do after an attempt.
#[derive(Clone, Copy, Debug, PartialEq, Eq, Structural)]
pub enum Verdict {
    /// The driver answered: open the session.
    Ready,
    /// Wait this many milliseconds, then ask again.
    Retry { after_millis: u64 },
    /// The driver is unreachable.
    GiveUp,
}

/// The address at which a driver at `url` reports its status.
pub open spec fn status_address(url: Seq<char>) -> Seq<char> {
    url + "/status"@
}

/// The state after an attempt, and what to do next. An answer ends the probe
/// at once. A failure is counted; the twentieth ends the probe, and a probe
/// that has ended stays so.
pub open spec fn after_attempt(probe: Probe, answered: bool) -> (Probe, Verdict) {
    if probe.failures >= 20 {
        (probe, Verdict::GiveUp)
    } else if answered {
        (probe, Verdict::Ready)
    } else if probe.failures + 1 >= 20 {
        (Probe { failures: 20 }, Verdict::GiveUp)
    } else {
        (Probe { failures: (probe.failures + 1) as u32 }, Verdict::Retry { after_millis: 50 })
    }
}

/// The state after `count` attempts in a row have failed.
pub open spec fn after_failures(count: nat) -> Probe
    decreases count,
{
    if count == 0 {
        Probe { failures: 0 }
    } else {
        after_attempt(after_failures((count - 1) as nat), false).0
    }
}

/// The address at which a driver at `url` reports its status.
pub fn status_url(url: &str) -> (r: String)
    ensures
        r@ == status_address(url@),
{
    let mut out = url.to_owned();
    out.append("/status");
    out
}

impl Verdict {
    /// The failure that this verdict stands for: giving up means that the
    /// driver is unreachable, and the other verdicts are no failure.
    pub open spec fn failure_view(self) -> Option<ErrorView> {
        if self == Verdict::GiveUp {
            Some(ErrorView::DriverUnreachable)
        } else {
            None
        }
    }

    /// The failure that this verdict stands for, if it is one.
    pub fn failure(self) -> (r: Option<Error>)
        ensures
            match r {
                Some(e) => self.failure_view() == Some(e@),
                None => self.failure_view() is None,
            },
    {
        match self {
            Verdict::GiveUp => Some(Error::DriverUnreachable),
            Verdict::Ready => None,
            Verdict::Retry { .. } => None,
        }
    }
}

impl Probe {
    /// A probe before its first attempt.
    pub fn new() -> (r: Probe)
        ensures
            r == after_failures(0),
    {
        Probe { failures: 0 }
    }

    /// Takes note of an attempt and says what to do next.
    pub fn record(&mut self, answered: bool) -> (verdict: Verdict)
        ensures
            (*final(self), verdict) == after_attempt(*old(self), answered),
    {
        if self.failures >= MAX_ATTEMPTS {
            Verdict::GiveUp
        } else if answered {
            Verdict::Ready
        } else if self.failures + 1 >= MAX_ATTEMPTS {
            self.failures = MAX_ATTEMPTS;
            Verdict::GiveUp
        } else {
            self.failures = self.failures + 1;
            Verdict::Retry { after_millis: BACKOFF_MILLIS }
        }
    }
}

/// A driver that never answers is asked twenty times: each of the first
/// nineteen failures is followed by a pause of fifty milliseconds, the
/// twentieth by giving up.
pub proof fn lemma_gives_up_at_twentieth(count: nat)
    ensures
        count <= 20 ==> after_failures(count).failures == count,
        count < 19 ==> after_attempt(after_failures(count), false).1 == (Verdict::Retry {
            after_millis: 50,
        }),
        count >= 19 ==> after_attempt(after_failures(count), false).1 == Verdict::GiveUp,
        count > 20 ==> after_failures(count).failures == 20,
    decreases count,
{
    if count > 0 {
        lemma_gives_up_at_twentieth((count - 1) as nat);
    }
}

/// An answer ends a probe that has not given up, whatever failed before.
pub proof fn lemma_answer_ends_probe(probe: Probe)
    requires
        probe.failures < 20,
    ensures
        after_attempt(probe, true) == (probe, Verdict::Ready),
{
}

} // verus!
