//! The background poller of one host: its reconnect schedule and the
//! order of its connect, discovery, metric and wait steps.

use vstd::prelude::*;

verus! {

/// The number of steps in the reconnect schedule.
pub const BACKOFF_STEPS: usize = 4;

/// The delay, in seconds, at step `step` of the reconnect schedule:
/// 30, 60, 120, then 300.
pub open spec fn backoff_secs(step: int) -> u64 {
    if step <= 0 {
        30
    } else if step == 1 {
        60
    } else if step == 2 {
        120
    } else {
        300
    }
}

/// Where a host's poller stands in the reconnect schedule.
pub struct BackoffState {
    step: usize,
}

impl View for BackoffState {
    type V = nat;

    closed spec fn view(&self) -> nat {
        self.step as nat
    }
}

impl BackoffState {
    #[verifier::type_invariant]
    spec fn well_formed(self) -> bool {
        self.step < BACKOFF_STEPS
    }

    /// At the start of the schedule.
    pub fn new() -> (r: Self)
        ensures
            r@ == 0,
    {
        BackoffState { step: 0 }
    }

    /// The delay before the next reconnect attempt, in seconds; the schedule
    /// then moves one step on, staying at its last step.
    pub fn next_delay(&mut self) -> (secs: u64)
        ensures
            secs == backoff_secs(old(self)@ as int),
            final(self)@ == (if old(self)@ + 1 < BACKOFF_STEPS {
                old(self)@ + 1
            } else {
                (BACKOFF_STEPS - 1) as nat
            }),
    {
        proof {
            use_type_invariant(&*self);
        }
        let secs = match self.step {
            0 => 30,
            1 => 60,
            2 => 120,
            _ => 300,
        };
        self.step = if self.step + 1 < BACKOFF_STEPS {
            self.step + 1
        } else {
            BACKOFF_STEPS - 1
        };
        secs
    }

    /// Back to the start of the schedule, after a successful connection.
    pub fn reset(&mut self)
        ensures
            final(self)@ == 0,
    {
        self.step = 0;
    }
}

/// The step after `k` delays from the start of the schedule.
pub open spec fn step_after(k: nat) -> nat {
    if k < BACKOFF_STEPS {
        k
    } else {
        (BACKOFF_STEPS - 1) as nat
    }
}

/// The reconnect schedule: from the start (or after a reset), the `k`-th
/// delay (counting from 0) is taken at step `step_after(k)`, so the delays
/// are 30, 60, 120 and then always 300 seconds; they never decrease and never
/// exceed 300 seconds.
pub proof fn lemma_backoff_schedule(k: nat)
    ensures
        (if step_after(k) + 1 < BACKOFF_STEPS {
            step_after(k) + 1
        } else {
            (BACKOFF_STEPS - 1) as nat
        }) == step_after(k + 1),
        backoff_secs(step_after(k) as int) <= backoff_secs(step_after(k + 1) as int),
        backoff_secs(step_after(k) as int) <= 300,
        k >= 3 ==> backoff_secs(step_after(k) as int) == 300,
{
}


// ---------------------------------------------------------------------------
// The poller of one host
// ---------------------------------------------------------------------------

/// What the poller of a host does next.
#[derive(Debug, Clone, Copy, PartialEq, Eq, Structural)]
pub enum PollAction {
    /// Open an SSH session (reporting `Connecting`, then the result).
    Connect,
    /// Start the Quick Scan of the host in the background.
    Discover,
    /// Collect and send one metrics snapshot.
    CollectMetrics,
    /// Wait this many seconds (a manual refresh ends the wait early).
    WaitBackoff(u64),
    /// Wait for the poll interval (a manual refresh ends the wait early).
    WaitInterval,
    /// The application has shut down: stop polling.
    Stop,
}

/// How the last action ended.
#[derive(Debug, Clone, Copy, PartialEq, Eq, Structural)]
pub enum PollOutcome {
    /// It succeeded.
    Succeeded,
    /// It failed (no session, or the metric commands failed).
    Failed,
    /// The event channel to the application is closed.
    Closed,
}

/// The poller's view: reconnect step, session open, Quick Scan started on
/// this session.
pub ghost struct PollerView {
    pub step: nat,
    pub connected: bool,
    pub discovered: bool,
}

/// The step after the current one in the reconnect schedule.
pub open spec fn next_step(step: nat) -> nat {
    if step + 1 < BACKOFF_STEPS {
        step + 1
    } else {
        (BACKOFF_STEPS - 1) as nat
    }
}

/// Where the loop starts over: connect without a session, then start the
/// Quick Scan once per session, then collect metrics.
pub open spec fn loop_start(p: PollerView) -> PollAction {
    if !p.connected {
        PollAction::Connect
    } else if !p.discovered {
        PollAction::Discover
    } else {
        PollAction::CollectMetrics
    }
}

/// The poller and its next action after `last` ended with `o`.
///
/// A connection resets the reconnect schedule and starts a new session; a
/// failed connection, or failed metric collection (which drops the session),
/// waits the next delay of the schedule; sent metrics wait for the poll
/// interval; a closed channel stops the poller.
pub open spec fn poll_step(p: PollerView, last: PollAction, o: PollOutcome) -> (
    PollerView,
    PollAction,
) {
    match last {
        PollAction::Connect => if o == PollOutcome::Succeeded {
            let q = PollerView { step: 0, connected: true, discovered: false };
            (q, loop_start(q))
        } else {
            (
                PollerView { step: next_step(p.step), ..p },
                PollAction::WaitBackoff(backoff_secs(p.step as int)),
            )
        },
        PollAction::Discover => {
            let q = PollerView { discovered: true, ..p };
            (q, loop_start(q))
        },
        PollAction::CollectMetrics => if o == PollOutcome::Succeeded {
            (p, PollAction::WaitInterval)
        } else if o == PollOutcome::Closed {
            (p, PollAction::Stop)
        } else {
            (
                PollerView { step: next_step(p.step), connected: false, ..p },
                PollAction::WaitBackoff(backoff_secs(p.step as int)),
            )
        },
        PollAction::WaitBackoff(_) | PollAction::WaitInterval => (p, loop_start(p)),
        PollAction::Stop => (p, PollAction::Stop),
    }
}

/// The state of the poller of one host.
pub struct PollerState {
    backoff: BackoffState,
    connected: bool,
    discovered: bool,
}

impl View for PollerState {
    type V = PollerView;

    closed spec fn view(&self) -> PollerView {
        PollerView { step: self.backoff@, connected: self.connected, discovered: self.discovered }
    }
}

impl PollerState {
    /// A poller without a session, at the start of the reconnect schedule;
    /// its first action is [`PollAction::Connect`].
    pub fn new() -> (r: Self)
        ensures
            r@ == (PollerView { step: 0, connected: false, discovered: false }),
    {
        PollerState { backoff: BackoffState::new(), connected: false, discovered: false }
    }

    /// Records how `last` ended and returns the next action; see
    /// [`poll_step`].
    pub fn next(&mut self, last: PollAction, outcome: PollOutcome) -> (r: PollAction)
        ensures
            (final(self)@, r) == poll_step(old(self)@, last, outcome),
    {
        match last {
            PollAction::Connect => {
                if outcome == PollOutcome::Succeeded {
                    self.backoff.reset();
                    self.connected = true;
                    self.discovered = false;
                    PollAction::Discover
                } else {
                    PollAction::WaitBackoff(self.backoff.next_delay())
                }
            },
            PollAction::Discover => {
                self.discovered = true;
                self.start()
            },
            PollAction::CollectMetrics => {
                if outcome == PollOutcome::Succeeded {
                    PollAction::WaitInterval
                } else if outcome == PollOutcome::Closed {
                    PollAction::Stop
                } else {
                    self.connected = false;
                    PollAction::WaitBackoff(self.backoff.next_delay())
                }
            },
            PollAction::WaitBackoff(_) | PollAction::WaitInterval => self.start(),
            PollAction::Stop => PollAction::Stop,
        }
    }

    /// Where the loop starts over; see [`loop_start`].
    fn start(&self) -> (r: PollAction)
        ensures
            r == loop_start(self@),
    {
        if !self.connected {
            PollAction::Connect
        } else if !self.discovered {
            PollAction::Discover
        } else {
            PollAction::CollectMetrics
        }
    }
}

/// The poller after a run of outcomes from a fresh start.
pub open spec fn poll_run(outs: Seq<PollOutcome>) -> (PollerView, PollAction)
    decreases outs.len(),
{
    if outs.len() == 0 {
        (PollerView { step: 0, connected: false, discovered: false }, PollAction::Connect)
    } else {
        let (p, a) = poll_run(outs.drop_last());
        poll_step(p, a, outs.last())
    }
}

/// What holds at every point of a poller run: the step stays within the
/// schedule; metrics are collected and the Quick Scan started only on an open
/// session, metrics only after the Quick Scan of that session was started; a
/// connection is attempted only without a session; every wait after a
/// failure is a delay of the schedule, between 30 and 300 seconds.
pub open spec fn poller_ok(r: (PollerView, PollAction)) -> bool {
    let (p, a) = r;
    &&& p.step < BACKOFF_STEPS
    &&& a == PollAction::Connect ==> !p.connected
    &&& a == PollAction::Discover ==> p.connected && !p.discovered
    &&& a == PollAction::CollectMetrics ==> p.connected && p.discovered
    &&& (a matches PollAction::WaitBackoff(d) ==> 30 <= d <= 300)
}

/// The poller's run keeps [`poller_ok`], whatever the outcomes.
pub proof fn lemma_poller_ok(outs: Seq<PollOutcome>)
    ensures
        poller_ok(poll_run(outs)),
    decreases outs.len(),
{
    if outs.len() > 0 {
        lemma_poller_ok(outs.drop_last());
    }
}

/// A successful connection starts the session afresh: the reconnect schedule
/// is back at its start and the Quick Scan comes next.
pub proof fn lemma_connect_resets(p: PollerView)
    ensures
        poll_step(p, PollAction::Connect, PollOutcome::Succeeded).0.step == 0,
        poll_step(p, PollAction::Connect, PollOutcome::Succeeded).1 == PollAction::Discover,
{
}

} // verus!
