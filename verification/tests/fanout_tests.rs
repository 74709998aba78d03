use orqos::fanout::{backoff_secs, FanoutAction, FanoutInput, FanoutMode, FanoutTask};

/// Counts how often the task asks to subscribe, standing in for the daemon
/// connection a driver would open.
struct SubscribeCounter {
    calls: usize,
}

impl SubscribeCounter {
    fn drive(&mut self, task: &mut FanoutTask, input: FanoutInput) -> FanoutAction {
        let action = task.step(input);
        if action == FanoutAction::Subscribe {
            self.calls += 1;
        }
        action
    }
}

#[test]
fn idle_task_never_subscribes() {
    let mut task = FanoutTask::new();
    let mut daemon = SubscribeCounter { calls: 0 };
    for _ in 0..100 {
        let action = daemon.drive(&mut task, FanoutInput::Poll { subscribers: 0 });
        assert_eq!(action, FanoutAction::SleepIdle);
    }
    assert_eq!(daemon.calls, 0);
}

#[test]
fn subscriber_wakes_the_task() {
    let mut task = FanoutTask::new();
    let mut daemon = SubscribeCounter { calls: 0 };
    let action = daemon.drive(&mut task, FanoutInput::Poll { subscribers: 1 });
    assert_eq!(action, FanoutAction::Subscribe);
    assert_eq!(daemon.calls, 1);
    assert_eq!(task.mode, FanoutMode::Streaming);
}

#[test]
fn backoff_schedule_grows_then_caps() {
    assert_eq!(backoff_secs(0), 1);
    assert_eq!(backoff_secs(1), 2);
    assert_eq!(backoff_secs(2), 4);
    assert_eq!(backoff_secs(3), 8);
    assert_eq!(backoff_secs(4), 16);
    assert_eq!(backoff_secs(5), 32);
    assert_eq!(backoff_secs(6), 32);
    assert_eq!(backoff_secs(100), 32);
}

#[test]
fn first_failed_subscription_waits_two_seconds() {
    let mut task = FanoutTask::new();
    // One subscriber appears; the first subscription attempt is made.
    assert_eq!(task.step(FanoutInput::Poll { subscribers: 1 }), FanoutAction::Subscribe);
    // The stream fails before any event arrives.
    let action = task.step(FanoutInput::StreamEnded);
    assert_eq!(action, FanoutAction::SleepBackoff { secs: 2 });
}

#[test]
fn five_consecutive_failures_cap_at_thirty_two_seconds() {
    let mut task = FanoutTask::new();
    let mut last = 0u64;
    for _ in 0..8 {
        assert_eq!(task.step(FanoutInput::Poll { subscribers: 1 }), FanoutAction::Subscribe);
        match task.step(FanoutInput::StreamEnded) {
            FanoutAction::SleepBackoff { secs } => last = secs,
            other => panic!("expected backoff, got {:?}", other),
        }
    }
    assert_eq!(last, 32);
}

#[test]
fn delivery_resets_attempt_counter() {
    let mut task = FanoutTask::new();
    // Fail a few subscriptions in a row.
    for _ in 0..4 {
        task.step(FanoutInput::Poll { subscribers: 1 });
        task.step(FanoutInput::StreamEnded);
    }
    assert!(task.attempt >= 4);
    // A subscription that delivers an event resets the counter...
    task.step(FanoutInput::Poll { subscribers: 1 });
    assert_eq!(task.step(FanoutInput::EventArrived), FanoutAction::Publish);
    assert_eq!(task.attempt, 0);
    // ...so the next failure backs off from the start of the schedule.
    assert_eq!(task.step(FanoutInput::StreamEnded), FanoutAction::SleepBackoff { secs: 1 });
}

#[test]
fn losing_all_subscribers_parks_the_task() {
    let mut task = FanoutTask::new();
    task.step(FanoutInput::Poll { subscribers: 2 });
    task.step(FanoutInput::EventArrived);
    let action = task.step(FanoutInput::PublishRejected { subscribers: 0 });
    assert_eq!(action, FanoutAction::Park);
    assert_eq!(task.mode, FanoutMode::Parked);
}

#[test]
fn rejected_publish_with_subscribers_keeps_streaming() {
    let mut task = FanoutTask::new();
    task.step(FanoutInput::Poll { subscribers: 2 });
    let action = task.step(FanoutInput::PublishRejected { subscribers: 1 });
    assert_eq!(action, FanoutAction::KeepStreaming);
    assert_eq!(task.mode, FanoutMode::Streaming);
}
