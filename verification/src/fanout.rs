//! Decision logic of the event fan-out task.
//!
//! The task is a perpetual loop: while nobody subscribes it stays parked and
//! opens no connection to the daemon; once a subscriber exists it opens a
//! live event subscription and republishes every event to the broadcast
//! channel; when the stream fails it backs off exponentially before
//! retrying. The driver performs the returned action (sleep, subscribe,
//! publish) and feeds the next input back into `step`.

use vstd::prelude::*;

verus! {

/// How long the parked task sleeps between subscriber-count checks, in
/// seconds.
pub const IDLE_POLL_SECS: u64 = 1;

/// `2^n`, the mathematical function the backoff schedule follows.
pub open spec fn pow2_spec(n: nat) -> nat
    decreases n,
{
    if n == 0 {
        1
    } else {
        2 * pow2_spec((n - 1) as nat)
    }
}

/// The backoff exponent: the attempt count, capped at 5.
pub open spec fn capped_attempt(attempt: u32) -> nat {
    if attempt <= 5 {
        attempt as nat
    } else {
        5
    }
}

/// Backoff delay in seconds after `attempt` consecutive failed subscription
/// attempts: `2^min(attempt, 5)`, at most 32.
pub open spec fn backoff_of(attempt: u32) -> nat {
    pow2_spec(capped_attempt(attempt))
}

/// Exponential backoff delay in seconds for the given number of consecutive
/// failed subscription attempts, capped at `2^5 = 32` seconds.
pub fn backoff_secs(attempt: u32) -> (r: u64)
    ensures
        r == backoff_of(attempt),
        r <= 32,
{
    let capped: u32 = if attempt < 5 {
        attempt
    } else {
        5
    };
    let mut r: u64 = 1;
    let mut i: u32 = 0;
    while i < capped
        invariant
            i <= capped <= 5,
            r == pow2_spec(i as nat),
        decreases capped - i,
    {
        proof {
            reveal_with_fuel(pow2_spec, 7);
        }
        r = r * 2;
        i = i + 1;
    }
    proof {
        reveal_with_fuel(pow2_spec, 7);
    }
    r
}

/// Where the fan-out task stands.
#[derive(Clone, Copy, Debug, PartialEq, Eq, Structural)]
pub enum FanoutMode {
    /// No subscription is open; the task periodically re-checks the
    /// subscriber count.
    Parked,
    /// A live subscription to the daemon's event stream is open.
    Streaming,
}

/// What the driving loop observed since the last step.
#[derive(Clone, Copy, Debug, PartialEq, Eq, Structural)]
pub enum FanoutInput {
    /// While parked: the broadcast channel's current subscriber count.
    Poll { subscribers: usize },
    /// While streaming: one event was received on the open subscription.
    EventArrived,
    /// While streaming: publishing an event was rejected; `subscribers` is
    /// the channel's subscriber count at that moment.
    PublishRejected { subscribers: usize },
    /// While streaming: the upstream stream errored or closed.
    StreamEnded,
}

/// What the driving loop must do next.
#[derive(Clone, Copy, Debug, PartialEq, Eq, Structural)]
pub enum FanoutAction {
    /// Sleep the fixed idle interval (`IDLE_POLL_SECS`), then poll the
    /// subscriber count again.
    SleepIdle,
    /// Open a subscription to the daemon's event stream.
    Subscribe,
    /// Serialize the received event and publish it to the broadcast
    /// channel.
    Publish,
    /// Keep reading from the open subscription.
    KeepStreaming,
    /// Drop the open subscription and return to idle polling.
    Park,
    /// Drop the subscription, sleep `secs` seconds, then poll again.
    SleepBackoff { secs: u64 },
}

/// The fan-out task's state between suspension points.
#[derive(Clone, Copy, Debug, PartialEq, Eq, Structural)]
pub struct FanoutTask {
    pub mode: FanoutMode,
    /// Consecutive failed subscription attempts; reset as soon as an event
    /// is received on a subscription.
    pub attempt: u32,
}

/// `attempt + 1`, saturating.
pub open spec fn bumped(attempt: u32) -> u32 {
    if attempt == u32::MAX {
        attempt
    } else {
        (attempt + 1) as u32
    }
}

/// The transition function of the fan-out task.
pub open spec fn step_spec(t: FanoutTask, input: FanoutInput) -> (FanoutTask, FanoutAction) {
    match input {
        FanoutInput::Poll { subscribers } => {
            if subscribers == 0 {
                (t, FanoutAction::SleepIdle)
            } else {
                (
                    FanoutTask { mode: FanoutMode::Streaming, attempt: bumped(t.attempt) },
                    FanoutAction::Subscribe,
                )
            }
        },
        FanoutInput::EventArrived => {
            (FanoutTask { mode: FanoutMode::Streaming, attempt: 0 }, FanoutAction::Publish)
        },
        FanoutInput::PublishRejected { subscribers } => {
            if subscribers == 0 {
                (FanoutTask { mode: FanoutMode::Parked, attempt: t.attempt }, FanoutAction::Park)
            } else {
                (t, FanoutAction::KeepStreaming)
            }
        },
        FanoutInput::StreamEnded => {
            (
                FanoutTask { mode: FanoutMode::Parked, attempt: t.attempt },
                FanoutAction::SleepBackoff { secs: backoff_of(t.attempt) as u64 },
            )
        },
    }
}

impl FanoutTask {
    /// The inputs that can arise in the task's current mode.
    pub open spec fn accepts(self, input: FanoutInput) -> bool {
        match input {
            FanoutInput::Poll { .. } => self.mode is Parked,
            FanoutInput::EventArrived => self.mode is Streaming,
            FanoutInput::PublishRejected { .. } => self.mode is Streaming,
            FanoutInput::StreamEnded => self.mode is Streaming,
        }
    }

    /// A freshly spawned task: parked, with no failed attempts.
    pub fn new() -> (r: FanoutTask)
        ensures
            r.mode is Parked,
            r.attempt == 0,
    {
        FanoutTask { mode: FanoutMode::Parked, attempt: 0 }
    }

    /// Performs one transition: updates the task's state and returns the
    /// action the driving loop must perform before the next step.
    ///
    /// While nobody subscribes the task never asks for a subscription; a
    /// stream failure is answered with an exponential backoff capped at 32
    /// seconds; and a received event resets the failed-attempt counter.
    pub fn step(&mut self, input: FanoutInput) -> (r: FanoutAction)
        requires
            old(self).accepts(input),
        ensures
            (*final(self), r) == step_spec(*old(self), input),
            r is Subscribe <==> (input matches FanoutInput::Poll { subscribers } && subscribers
                > 0),
            input matches FanoutInput::Poll { subscribers } && subscribers == 0 ==> r
                is SleepIdle && *final(self) == *old(self),
            input is StreamEnded ==> r == (FanoutAction::SleepBackoff {
                secs: backoff_of(old(self).attempt) as u64,
            }) && backoff_of(old(self).attempt) <= 32,
            input is EventArrived ==> final(self).attempt == 0,
    {
        proof {
            lemma_backoff_bounds(self.attempt);
        }
        match input {
            FanoutInput::Poll { subscribers } => {
                if subscribers == 0 {
                    FanoutAction::SleepIdle
                } else {
                    self.attempt = if self.attempt == u32::MAX {
                        self.attempt
                    } else {
                        self.attempt + 1
                    };
                    self.mode = FanoutMode::Streaming;
                    FanoutAction::Subscribe
                }
            },
            FanoutInput::EventArrived => {
                self.attempt = 0;
                self.mode = FanoutMode::Streaming;
                FanoutAction::Publish
            },
            FanoutInput::PublishRejected { subscribers } => {
                if subscribers == 0 {
                    self.mode = FanoutMode::Parked;
                    FanoutAction::Park
                } else {
                    FanoutAction::KeepStreaming
                }
            },
            FanoutInput::StreamEnded => {
                let secs = backoff_secs(self.attempt);
                self.mode = FanoutMode::Parked;
                FanoutAction::SleepBackoff { secs }
            },
        }
    }
}

/// The backoff delay follows `2^min(attempt, 5)` exactly: a first failed
/// attempt waits 2 seconds, and from the fifth consecutive failure on the
/// delay stays capped at 32 seconds and grows no further.
pub proof fn lemma_backoff_bounds(attempt: u32)
    ensures
        backoff_of(attempt) == pow2_spec(capped_attempt(attempt)),
        attempt == 1 ==> backoff_of(attempt) == 2,
        attempt >= 5 ==> backoff_of(attempt) == 32,
        1 <= backoff_of(attempt) <= 32,
{
    reveal_with_fuel(pow2_spec, 7);
    if capped_attempt(attempt) < 5 {
        assert(pow2_spec(0) == 1);
        assert(pow2_spec(1) == 2);
        assert(pow2_spec(2) == 4);
        assert(pow2_spec(3) == 8);
        assert(pow2_spec(4) == 16);
    } else {
        assert(pow2_spec(5) == 32);
    }
}

/// While nobody subscribes, the task issues no subscription call: polling a
/// zero subscriber count only sleeps the idle interval and leaves the task
/// unchanged, for as long as that holds.
pub proof fn lemma_idle_never_subscribes(t: FanoutTask)
    requires
        t.mode is Parked,
    ensures
        step_spec(t, FanoutInput::Poll { subscribers: 0 }).0 == t,
        step_spec(t, FanoutInput::Poll { subscribers: 0 }).1 == FanoutAction::SleepIdle,
        forall|input: FanoutInput|
            t.accepts(input) && (#[trigger] step_spec(t, input).1) is Subscribe ==> (input
                matches FanoutInput::Poll { subscribers } && subscribers > 0),
{
}

/// A successful event delivery resets the attempt counter, whatever it had
/// reached: the next stream failure starts the backoff schedule over, from
/// one second.
pub proof fn lemma_delivery_resets_attempts(t: FanoutTask)
    requires
        t.mode is Streaming,
    ensures
        step_spec(t, FanoutInput::EventArrived).0.attempt == 0,
        step_spec(step_spec(t, FanoutInput::EventArrived).0, FanoutInput::StreamEnded).1
            == (FanoutAction::SleepBackoff { secs: 1 }),
{
    reveal_with_fuel(pow2_spec, 2);
}

} // verus!
