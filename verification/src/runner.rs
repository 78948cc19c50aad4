//! The life of one stream's runner: connect, subscribe, consume, and after
//! every failure wait and start again.

use crate::config::CommitmentLevel;
use crate::handlers::message_handler::{handles, Handled};
use crate::retry::{BackoffPolicy, Retry};
use crate::subscription::{
    exit_reason, filter_name, ConsumeStep, SlotSubscription, StreamItem, SubscriptionManager,
};
use vstd::prelude::*;

verus! {

/// Where a runner stands.
#[derive(Clone, Copy, Debug, PartialEq, Eq, Structural)]
pub enum RunnerState {
    Disconnected,
    Connecting,
    Subscribed,
    Consuming,
}

/// What happens to a runner.
#[derive(Debug)]
pub enum RunnerEvent {
    /// It is time to connect: at the start, and when a wait is over.
    Wake,
    /// The connection stands.
    Connected,
    /// The service has accepted the subscription.
    SubscriptionOpen,
    /// Connecting or subscribing has failed.
    Failed,
    /// The stream has yielded an item, `None` at its end, at the time given.
    Item(Option<StreamItem>, u128),
}

/// What the runner's host has to do next.
#[derive(Debug)]
pub enum RunnerAction {
    /// Connect to the stream's endpoint.
    Connect,
    /// Open the subscription with this request.
    Subscribe(SlotSubscription),
    /// Wait for the stream's next item.
    Receive,
    /// Do what the handled message asks for, then wait for the next item.
    Deliver(Handled),
    /// Wait so many milliseconds, then wake the runner.
    Wait { delay_ms: u64 },
    /// Stop: the policy allows no further retry.
    GiveUp,
    /// Nothing: the event does not belong to the runner's state.
    Ignore,
}

/// Whether the event is a failure in that state: a failed connection or
/// subscription, or while consuming the stream's end, a transport failure or
/// a message without an update.
pub open spec fn fails(state: RunnerState, event: RunnerEvent) -> bool {
    match (state, event) {
        (RunnerState::Disconnected, _) => false,
        (_, RunnerEvent::Failed) => true,
        (RunnerState::Consuming, RunnerEvent::Item(item, _)) => exit_reason(item) is Some,
        _ => false,
    }
}

/// The state after the event: every failure leads back to `Disconnected`,
/// each expected event one state on, and any other event nowhere.
pub open spec fn state_after(state: RunnerState, event: RunnerEvent) -> RunnerState {
    if fails(state, event) {
        RunnerState::Disconnected
    } else {
        match (state, event) {
            (RunnerState::Disconnected, RunnerEvent::Wake) => RunnerState::Connecting,
            (RunnerState::Connecting, RunnerEvent::Connected) => RunnerState::Subscribed,
            (RunnerState::Subscribed, RunnerEvent::SubscriptionOpen) => RunnerState::Consuming,
            _ => state,
        }
    }
}

/// The failures in a row after the event: one more after a failure, none
/// once a subscription is open, and else as many as before.
pub open spec fn failures_after(state: RunnerState, event: RunnerEvent, failures: nat) -> nat {
    if fails(state, event) {
        failures + 1
    } else if state == RunnerState::Subscribed && event is SubscriptionOpen {
        0
    } else {
        failures
    }
}

/// Whether `action` is what the runner of the stream named `stream` asks
/// for when the event finds it in `state` after `failures` failures in a
/// row.
pub open spec fn asks(
    stream: Seq<char>,
    commitment: CommitmentLevel,
    policy: BackoffPolicy,
    state: RunnerState,
    failures: nat,
    event: RunnerEvent,
    action: RunnerAction,
) -> bool {
    if fails(state, event) {
        if policy.allows(failures + 1) {
            action == (RunnerAction::Wait { delay_ms: policy.delay_after(failures) as u64 })
        } else {
            action == RunnerAction::GiveUp
        }
    } else {
        match (state, event) {
            (RunnerState::Disconnected, RunnerEvent::Wake) => action == RunnerAction::Connect,
            (RunnerState::Connecting, RunnerEvent::Connected) => {
                &&& action matches RunnerAction::Subscribe(request)
                &&& request.filter_name@ == filter_name()
                &&& request.filter_by_commitment
                &&& !request.interslot_updates
                &&& request.commitment == commitment
            },
            (RunnerState::Subscribed, RunnerEvent::SubscriptionOpen) => action
                == RunnerAction::Receive,
            (RunnerState::Consuming, RunnerEvent::Item(Some(StreamItem::Message(msg)), at)) => {
                &&& action matches RunnerAction::Deliver(h)
                &&& handles(stream, msg, at, Ok(h))
            },
            _ => action == RunnerAction::Ignore,
        }
    }
}

/// The runner of one stream.
pub struct Runner {
    state: RunnerState,
    manager: SubscriptionManager,
    retry: Retry,
}

impl Runner {
    /// Where the runner stands.
    pub closed spec fn spec_state(&self) -> RunnerState {
        self.state
    }

    /// The name of the runner's stream.
    pub closed spec fn stream(&self) -> Seq<char> {
        self.manager.stream()
    }

    /// The commitment level that the runner subscribes at.
    pub closed spec fn commitment(&self) -> CommitmentLevel {
        self.manager.commitment()
    }

    /// The policy of the runner's retries.
    pub closed spec fn policy(&self) -> BackoffPolicy {
        self.retry.policy()
    }

    /// The failures in a row so far.
    pub closed spec fn failures(&self) -> nat {
        self.retry.failures()
    }

    /// The runner's parts are in order.
    pub closed spec fn wf(&self) -> bool {
        self.manager.wf() && self.retry.wf()
    }

    /// The policy of a runner in order is one whose delays do not shrink: by
    /// `lemma_delays_never_shrink`, no wait of a run of failures is shorter
    /// than the one before it, and none exceeds the policy's limit.
    pub proof fn lemma_policy_wf(&self)
        requires
            self.wf(),
        ensures
            self.policy().wf(),
            self.policy().delay_after(self.failures()) <= self.policy().max_delay_ms,
    {
        self.retry.lemma_policy_wf();
    }

    /// A runner for the stream of that name, disconnected and without a
    /// failure.
    pub fn new(stream_id: String, commitment: CommitmentLevel, policy: BackoffPolicy) -> (runner:
        Runner)
        requires
            policy.wf(),
        ensures
            runner.wf(),
            runner.spec_state() == RunnerState::Disconnected,
            runner.stream() == stream_id@,
            runner.commitment() == commitment,
            runner.policy() == policy,
            runner.failures() == 0,
    {
        Runner {
            state: RunnerState::Disconnected,
            manager: SubscriptionManager::new(stream_id, commitment),
            retry: Retry::new(policy),
        }
    }

    /// Where the runner stands.
    #[verifier::when_used_as_spec(spec_state)]
    pub fn state(&self) -> (state: RunnerState)
        ensures
            state == self.spec_state(),
    {
        self.state
    }

    /// The stream's name.
    pub fn stream_id(&self) -> (name: &String)
        ensures
            name@ == self.stream(),
    {
        self.manager.stream_id()
    }

    /// Goes back to `Disconnected` after a failure and says how long to
    /// wait, or that it is over.
    fn fail(&mut self) -> (action: RunnerAction)
        requires
            old(self).wf(),
        ensures
            final(self).wf(),
            final(self).spec_state() == RunnerState::Disconnected,
            final(self).stream() == old(self).stream(),
            final(self).commitment() == old(self).commitment(),
            final(self).policy() == old(self).policy(),
            final(self).failures() == old(self).failures() + 1,
            action == if old(self).policy().allows(old(self).failures() + 1) {
                RunnerAction::Wait {
                    delay_ms: old(self).policy().delay_after(old(self).failures()) as u64,
                }
            } else {
                RunnerAction::GiveUp
            },
    {
        self.state = RunnerState::Disconnected;
        match self.retry.on_failure() {
            Some(delay_ms) => RunnerAction::Wait { delay_ms },
            None => RunnerAction::GiveUp,
        }
    }

    /// Takes one event and says what to do next.
    pub fn step(&mut self, event: RunnerEvent) -> (action: RunnerAction)
        requires
            old(self).wf(),
        ensures
            final(self).wf(),
            final(self).stream() == old(self).stream(),
            final(self).commitment() == old(self).commitment(),
            final(self).policy() == old(self).policy(),
            final(self).spec_state() == state_after(old(self).spec_state(), event),
            final(self).failures() == failures_after(
                old(self).spec_state(),
                event,
                old(self).failures(),
            ),
            asks(
                old(self).stream(),
                old(self).commitment(),
                old(self).policy(),
                old(self).spec_state(),
                old(self).failures(),
                event,
                action,
            ),
    {
        match self.state {
            RunnerState::Disconnected => match event {
                RunnerEvent::Wake => {
                    self.state = RunnerState::Connecting;
                    RunnerAction::Connect
                },
                _ => RunnerAction::Ignore,
            },
            RunnerState::Connecting => match event {
                RunnerEvent::Connected => {
                    self.state = RunnerState::Subscribed;
                    RunnerAction::Subscribe(self.manager.request())
                },
                RunnerEvent::Failed => self.fail(),
                _ => RunnerAction::Ignore,
            },
            RunnerState::Subscribed => match event {
                RunnerEvent::SubscriptionOpen => {
                    self.state = RunnerState::Consuming;
                    self.retry.reset();
                    RunnerAction::Receive
                },
                RunnerEvent::Failed => self.fail(),
                _ => RunnerAction::Ignore,
            },
            RunnerState::Consuming => match event {
                RunnerEvent::Item(item, received_at) => {
                    match self.manager.consume(item, received_at) {
                        ConsumeStep::Continue(h) => RunnerAction::Deliver(h),
                        ConsumeStep::Exit(_) => self.fail(),
                    }
                },
                RunnerEvent::Failed => self.fail(),
                _ => RunnerAction::Ignore,
            },
        }
    }
}

/// After a failure in any state, the runner is disconnected; from there a
/// wake-up, a connection and an open subscription bring it back to
/// consuming, with its failures forgotten, whatever happened before.
pub proof fn lemma_runner_recovers(state: RunnerState, failure: RunnerEvent, failures: nat)
    requires
        fails(state, failure),
    ensures
        state_after(state, failure) == RunnerState::Disconnected,
        state_after(RunnerState::Disconnected, RunnerEvent::Wake) == RunnerState::Connecting,
        state_after(RunnerState::Connecting, RunnerEvent::Connected) == RunnerState::Subscribed,
        state_after(RunnerState::Subscribed, RunnerEvent::SubscriptionOpen)
            == RunnerState::Consuming,
        failures_after(RunnerState::Subscribed, RunnerEvent::SubscriptionOpen, failures) == 0,
{
}

} // verus!
