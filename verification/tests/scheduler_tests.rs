use parrot_pet::scheduler::{SchedulerState, REMINDER_INTERVAL_MS};

fn reminders(texts: &[&str]) -> Vec<String> {
    texts.iter().map(|t| t.to_string()).collect()
}

#[test]
fn nothing_fires_before_the_interval() {
    let mut sched = SchedulerState::new(reminders(&["a"]), 0);
    for now in [0, 1, 1000, REMINDER_INTERVAL_MS - 1] {
        sched.tick(now);
        assert!(!sched.has_message_ready());
    }
    assert_eq!(sched.get_message(), None);
}

#[test]
fn the_interval_boundary_fires_exactly() {
    let mut sched = SchedulerState::new(reminders(&["a"]), 5000);
    sched.tick(5000 + REMINDER_INTERVAL_MS - 1);
    assert!(!sched.has_message_ready());
    sched.tick(5000 + REMINDER_INTERVAL_MS);
    assert!(sched.has_message_ready());
    assert_eq!(sched.get_message(), Some("a".to_string()));
}

#[test]
fn an_empty_list_never_fires() {
    let mut sched = SchedulerState::new(Vec::new(), 0);
    for i in 0..10u64 {
        sched.tick(i * REMINDER_INTERVAL_MS);
        assert!(!sched.has_message_ready());
    }
    assert_eq!(sched.get_message(), None);
}

#[test]
fn round_robin_returns_each_reminder_in_order_then_repeats() {
    let mut sched = SchedulerState::new(reminders(&["one", "two", "three"]), 0);
    let mut now = 0u64;
    let mut delivered = Vec::new();
    for _ in 0..6 {
        now += REMINDER_INTERVAL_MS;
        sched.tick(now);
        assert!(sched.has_message_ready());
        delivered.push(sched.get_message().unwrap());
    }
    assert_eq!(delivered, reminders(&["one", "two", "three", "one", "two", "three"]));
}

#[test]
fn at_most_one_message_pends_at_a_time() {
    let mut sched = SchedulerState::new(reminders(&["first", "second"]), 0);
    // Tick far past the cadence many times without consuming: the pending
    // message never changes and no second one is produced.
    for k in 1..50u64 {
        sched.tick(k * REMINDER_INTERVAL_MS);
        assert!(sched.has_message_ready());
    }
    assert_eq!(sched.get_message(), Some("first".to_string()));
    assert!(!sched.has_message_ready());
    assert_eq!(sched.get_message(), None);
}

#[test]
fn two_reminders_arrive_one_interval_apart() {
    // Simulate 1800 s of 16 ms ticks with a two-entry list.
    let mut sched = SchedulerState::new(reminders(&["drink water", "stretch"]), 0);
    let mut now = 0u64;
    while now < REMINDER_INTERVAL_MS {
        sched.tick(now);
        assert!(!sched.has_message_ready());
        now += 16;
    }
    sched.tick(now);
    assert!(sched.has_message_ready());
    assert_eq!(sched.get_message(), Some("drink water".to_string()));
    assert!(!sched.has_message_ready());
    let second_due = now + REMINDER_INTERVAL_MS;
    while now < second_due {
        sched.tick(now);
        now += 16;
    }
    sched.tick(now);
    assert_eq!(sched.get_message(), Some("stretch".to_string()));
}
