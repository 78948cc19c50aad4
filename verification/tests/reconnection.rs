use slot_race::config::CommitmentLevel;
use slot_race::handlers::message_handler::{Handled, SubscribeUpdate, UpdateOneof};
use slot_race::handlers::update_handlers::{SlotStatus, SlotUpdate};
use slot_race::referee::{RaceEvent, Referee};
use slot_race::retry::{BackoffPolicy, Retry};
use slot_race::runner::{Runner, RunnerAction, RunnerEvent, RunnerState};
use slot_race::subscription::{
    ConsumeStep, ExitReason, StreamItem, SubscriptionManager,
};

fn slot_message(slot: u64) -> StreamItem {
    StreamItem::Message(SubscribeUpdate {
        update_oneof: Some(UpdateOneof::Slot(SlotUpdate {
            slot,
            parent: None,
            status: SlotStatus::Processed,
        })),
    })
}

fn wait_of(action: RunnerAction) -> u64 {
    match action {
        RunnerAction::Wait { delay_ms } => delay_ms,
        other => panic!("expected a wait, got {other:?}"),
    }
}

#[test]
fn standard_delays_grow_by_half_up_to_a_minute() {
    let policy = BackoffPolicy::standard();
    assert!(policy.is_wf());
    assert_eq!(policy.initial_delay_ms, 500);
    assert_eq!(policy.multiplier_percent, 150);
    assert_eq!(policy.max_delay_ms, 60_000);
    assert_eq!(policy.max_attempts, None);
    let mut retry = Retry::new(policy);
    let mut delays = Vec::new();
    for _ in 0..16 {
        delays.push(retry.on_failure().unwrap());
    }
    assert_eq!(
        &delays[..13],
        &[500, 750, 1125, 1687, 2530, 3795, 5692, 8538, 12807, 19210, 28815, 43222, 60000]
    );
    assert!(delays[13..].iter().all(|d| *d == 60_000));
    assert!(delays.windows(2).all(|w| w[0] <= w[1]));
    retry.reset();
    assert_eq!(retry.on_failure(), Some(500));
}

#[test]
fn next_delay_is_capped_and_never_overflows() {
    let policy = BackoffPolicy {
        initial_delay_ms: 1,
        multiplier_percent: u64::MAX,
        max_delay_ms: u64::MAX,
        max_attempts: None,
    };
    assert!(policy.is_wf());
    assert_eq!(policy.next_delay(0), 0);
    assert_eq!(policy.next_delay(100), u64::MAX);
    assert_eq!(policy.next_delay(u64::MAX), u64::MAX);
    assert_eq!(BackoffPolicy::standard().next_delay(1), 1);
    assert_eq!(BackoffPolicy::standard().next_delay(3), 4);
    assert_eq!(BackoffPolicy::standard().next_delay(59_999), 60_000);
    assert_eq!(BackoffPolicy::standard().next_delay(1_000_000), 60_000);
}

#[test]
fn shrinking_policies_are_told_apart() {
    let shrinking = BackoffPolicy {
        initial_delay_ms: 10,
        multiplier_percent: 99,
        max_delay_ms: 100,
        max_attempts: None,
    };
    assert!(!shrinking.is_wf());
    let over_limit = BackoffPolicy {
        initial_delay_ms: 101,
        multiplier_percent: 100,
        max_delay_ms: 100,
        max_attempts: None,
    };
    assert!(!over_limit.is_wf());
    assert!(BackoffPolicy::immediate().is_wf());
}

#[test]
fn attempts_can_be_limited() {
    let policy = BackoffPolicy {
        initial_delay_ms: 10,
        multiplier_percent: 200,
        max_delay_ms: 25,
        max_attempts: Some(3),
    };
    let mut retry = Retry::new(policy);
    assert_eq!(retry.on_failure(), Some(10));
    assert_eq!(retry.on_failure(), Some(20));
    assert_eq!(retry.on_failure(), Some(25));
    assert_eq!(retry.on_failure(), None);
    assert_eq!(retry.on_failure(), None);
    retry.reset();
    assert_eq!(retry.on_failure(), Some(10));

    let mut never = Retry::new(BackoffPolicy { max_attempts: Some(0), ..policy });
    assert_eq!(never.on_failure(), None);
}

#[test]
fn subscription_asks_for_slots_at_the_configured_level() {
    let manager = SubscriptionManager::new("alpha".to_string(), CommitmentLevel::Finalized);
    assert_eq!(manager.stream_id(), "alpha");
    let request = manager.request();
    assert_eq!(request.filter_name, "client");
    assert!(request.filter_by_commitment);
    assert!(!request.interslot_updates);
    assert_eq!(request.commitment, CommitmentLevel::Finalized);
}

#[test]
fn consuming_ends_on_anything_but_a_message_with_an_update() {
    let mut manager = SubscriptionManager::new("alpha".to_string(), CommitmentLevel::Processed);
    assert!(matches!(
        manager.consume(Some(slot_message(1)), 10),
        ConsumeStep::Continue(Handled::Slot(_))
    ));
    assert!(matches!(
        manager.consume(Some(StreamItem::TransportError), 11),
        ConsumeStep::Exit(ExitReason::StreamError)
    ));
    assert!(matches!(manager.consume(None, 12), ConsumeStep::Exit(ExitReason::StreamEnded)));
    let empty = StreamItem::Message(SubscribeUpdate { update_oneof: None });
    assert!(matches!(
        manager.consume(Some(empty), 13),
        ConsumeStep::Exit(ExitReason::MalformedMessage)
    ));
    let ping = StreamItem::Message(SubscribeUpdate { update_oneof: Some(UpdateOneof::Ping) });
    assert!(matches!(
        manager.consume(Some(ping), 14),
        ConsumeStep::Continue(Handled::Ping { reply_id: 1 })
    ));
}

#[test]
fn runner_retries_with_growing_delays_and_resumes_reporting() {
    let mut referee = Referee::new(10, false);
    let mut runner =
        Runner::new("alpha".to_string(), CommitmentLevel::Confirmed, BackoffPolicy::standard());
    assert_eq!(runner.state(), RunnerState::Disconnected);
    assert_eq!(runner.stream_id(), "alpha");

    // first connection
    assert!(matches!(runner.step(RunnerEvent::Wake), RunnerAction::Connect));
    assert_eq!(runner.state(), RunnerState::Connecting);
    match runner.step(RunnerEvent::Connected) {
        RunnerAction::Subscribe(request) => {
            assert_eq!(request.commitment, CommitmentLevel::Confirmed);
            assert_eq!(request.filter_name, "client");
        }
        other => panic!("expected a subscription, got {other:?}"),
    }
    assert_eq!(runner.state(), RunnerState::Subscribed);
    assert!(matches!(runner.step(RunnerEvent::SubscriptionOpen), RunnerAction::Receive));
    assert_eq!(runner.state(), RunnerState::Consuming);
    match runner.step(RunnerEvent::Item(Some(slot_message(1)), 100)) {
        RunnerAction::Deliver(Handled::Slot(notice)) => {
            assert!(referee.process_event(notice.event));
        }
        other => panic!("expected a slot, got {other:?}"),
    }

    // the transport fails, and so do three attempts to connect again
    let mut delays = Vec::new();
    delays.push(wait_of(runner.step(RunnerEvent::Item(Some(StreamItem::TransportError), 200))));
    assert_eq!(runner.state(), RunnerState::Disconnected);
    for _ in 0..3 {
        assert!(matches!(runner.step(RunnerEvent::Wake), RunnerAction::Connect));
        delays.push(wait_of(runner.step(RunnerEvent::Failed)));
        assert_eq!(runner.state(), RunnerState::Disconnected);
    }
    // the connection stands, but the subscription is refused
    assert!(matches!(runner.step(RunnerEvent::Wake), RunnerAction::Connect));
    assert!(matches!(runner.step(RunnerEvent::Connected), RunnerAction::Subscribe(_)));
    delays.push(wait_of(runner.step(RunnerEvent::Failed)));
    assert_eq!(delays, vec![500, 750, 1125, 1687, 2530]);
    assert!(delays.windows(2).all(|w| w[0] <= w[1]));
    assert!(delays.iter().all(|d| *d <= 60_000));

    // the connection recovers
    assert!(matches!(runner.step(RunnerEvent::Wake), RunnerAction::Connect));
    assert!(matches!(runner.step(RunnerEvent::Connected), RunnerAction::Subscribe(_)));
    assert!(matches!(runner.step(RunnerEvent::SubscriptionOpen), RunnerAction::Receive));
    assert_eq!(runner.state(), RunnerState::Consuming);
    match runner.step(RunnerEvent::Item(Some(slot_message(2)), 9_000)) {
        RunnerAction::Deliver(Handled::Slot(notice)) => {
            match &notice.event {
                RaceEvent::SlotReport { slot, stream_id, timestamp } => {
                    assert_eq!((*slot, stream_id.as_str(), *timestamp), (2, "alpha", 9_000));
                }
            }
            assert!(referee.process_event(notice.event));
        }
        other => panic!("expected a slot, got {other:?}"),
    }
    assert_eq!(referee.results().len(), 2);
    assert_eq!(referee.results()[1].winner, "alpha");

    // a later failure starts again from the first delay
    assert_eq!(wait_of(runner.step(RunnerEvent::Item(None, 9_500))), 500);
}

#[test]
fn runner_leaves_the_subscription_on_a_message_without_update() {
    let mut runner =
        Runner::new("alpha".to_string(), CommitmentLevel::Processed, BackoffPolicy::immediate());
    runner.step(RunnerEvent::Wake);
    runner.step(RunnerEvent::Connected);
    runner.step(RunnerEvent::SubscriptionOpen);
    let empty = StreamItem::Message(SubscribeUpdate { update_oneof: None });
    assert_eq!(wait_of(runner.step(RunnerEvent::Item(Some(empty), 1))), 0);
    assert_eq!(runner.state(), RunnerState::Disconnected);
}

#[test]
fn runner_ignores_events_out_of_place() {
    let mut runner =
        Runner::new("alpha".to_string(), CommitmentLevel::Processed, BackoffPolicy::standard());
    assert!(matches!(runner.step(RunnerEvent::Failed), RunnerAction::Ignore));
    assert!(matches!(runner.step(RunnerEvent::Connected), RunnerAction::Ignore));
    assert!(matches!(
        runner.step(RunnerEvent::Item(Some(slot_message(1)), 1)),
        RunnerAction::Ignore
    ));
    assert_eq!(runner.state(), RunnerState::Disconnected);
    runner.step(RunnerEvent::Wake);
    assert!(matches!(runner.step(RunnerEvent::Wake), RunnerAction::Ignore));
    assert!(matches!(runner.step(RunnerEvent::SubscriptionOpen), RunnerAction::Ignore));
    assert_eq!(runner.state(), RunnerState::Connecting);
    runner.step(RunnerEvent::Connected);
    assert!(matches!(runner.step(RunnerEvent::Item(None, 1)), RunnerAction::Ignore));
    assert_eq!(runner.state(), RunnerState::Subscribed);
    // the failure that was ignored while disconnected did not count
    assert_eq!(wait_of(runner.step(RunnerEvent::Failed)), 500);
}

#[test]
fn runner_gives_up_when_the_policy_says_so() {
    let policy = BackoffPolicy {
        initial_delay_ms: 5,
        multiplier_percent: 100,
        max_delay_ms: 5,
        max_attempts: Some(1),
    };
    let mut runner = Runner::new("alpha".to_string(), CommitmentLevel::Processed, policy);
    runner.step(RunnerEvent::Wake);
    assert_eq!(wait_of(runner.step(RunnerEvent::Failed)), 5);
    runner.step(RunnerEvent::Wake);
    assert!(matches!(runner.step(RunnerEvent::Failed), RunnerAction::GiveUp));
    assert_eq!(runner.state(), RunnerState::Disconnected);
}
