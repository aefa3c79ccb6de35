use admin_console::config::Target;
use admin_console::monitor::MonitorState;
use admin_console::types::{AppEvent, MonitorCommand, Task};

fn one_target() -> Vec<Target> {
    vec![Target { name: String::from("alpha"), address: String::from("10.0.0.1:22") }]
}

fn log_texts(events: &[AppEvent]) -> Vec<String> {
    let mut out = Vec::new();
    for e in events {
        if let AppEvent::LogOutput(s) = e {
            out.push(s.clone());
        }
    }
    out
}

#[test]
fn history_stays_at_twenty_after_ticks() {
    let mut state = MonitorState::new(one_target(), Vec::new());
    assert_eq!(state.statuses[0].history.len(), 20);
    for round in 0..25u32 {
        let probes = vec![(round % 2 == 0, round as u128)];
        state.tick(&probes, "12:00:00", "12:00");
        assert_eq!(state.statuses.len(), 1);
        assert_eq!(state.statuses[0].history.len(), 20);
    }
}

#[test]
fn offline_sample_is_exactly_999_and_online_sample_is_latency() {
    let mut state = MonitorState::new(one_target(), Vec::new());
    state.tick(&vec![(false, 0)], "12:00:00", "12:00");
    assert_eq!(*state.statuses[0].history.back().unwrap(), 999);
    state.tick(&vec![(true, 42)], "12:00:01", "12:00");
    assert_eq!(*state.statuses[0].history.back().unwrap(), 42);
    assert!(state.statuses[0].is_online);
    assert_eq!(state.statuses[0].latency, 42);
}

#[test]
fn one_failed_probe_flips_to_offline() {
    let mut state = MonitorState::new(one_target(), Vec::new());
    state.tick(&vec![(true, 5)], "12:00:00", "12:00");
    assert!(state.statuses[0].is_online);
    state.tick(&vec![(false, 0)], "12:00:01", "12:00");
    assert!(!state.statuses[0].is_online);
}

#[test]
fn online_to_offline_emits_one_log_and_one_notification() {
    let mut state = MonitorState::new(one_target(), Vec::new());
    state.tick(&vec![(true, 5)], "12:00:00", "12:00");
    let (events, notices) = state.tick(&vec![(false, 0)], "12:00:01", "12:00");
    let logs = log_texts(&events);
    assert_eq!(logs.len(), 1);
    assert_eq!(logs[0], "[12:00:01] ALERT: Server 'alpha' went OFFLINE!");
    assert_eq!(notices.len(), 1);
    assert_eq!(notices[0].summary, "SERVER DOWN");
    assert_eq!(notices[0].body, "Server 'alpha' stopped responding.");
}

#[test]
fn offline_to_online_emits_one_log_and_no_notification() {
    let mut state = MonitorState::new(one_target(), Vec::new());
    state.tick(&vec![(true, 5)], "12:00:00", "12:00");
    state.tick(&vec![(false, 0)], "12:00:01", "12:00");
    let (events, notices) = state.tick(&vec![(true, 8)], "12:00:02", "12:00");
    let logs = log_texts(&events);
    assert_eq!(logs.len(), 1);
    assert_eq!(logs[0], "[12:00:02] INFO: Server 'alpha' is back ONLINE.");
    assert_eq!(notices.len(), 0);
}

#[test]
fn unchanged_status_emits_no_transition_log() {
    let mut state = MonitorState::new(one_target(), Vec::new());
    state.tick(&vec![(true, 5)], "12:00:00", "12:00");
    let (events, notices) = state.tick(&vec![(true, 6)], "12:00:01", "12:00");
    assert_eq!(log_texts(&events).len(), 0);
    assert_eq!(notices.len(), 0);
}

#[test]
fn every_tick_emits_one_status_snapshot() {
    let mut state = MonitorState::new(one_target(), Vec::new());
    let (events, _) = state.tick(&vec![(true, 5)], "12:00:00", "12:00");
    let mut snapshots = 0;
    for e in &events {
        if let AppEvent::ServerUpdate(data) = e {
            snapshots += 1;
            assert_eq!(data.len(), 1);
            assert_eq!(data[0].name, "alpha");
            assert!(data[0].is_online);
            assert_eq!(data[0].latency, 5);
        }
    }
    assert_eq!(snapshots, 1);
}

#[test]
fn due_reminder_fires_once_per_minute() {
    let tasks = vec![Task {
        title: String::from("Stand up"),
        description: String::from("daily"),
        time: String::from("07:00"),
        completed: false,
    }];
    let mut state = MonitorState::new(Vec::new(), tasks);
    let (events, notices) = state.tick(&Vec::new(), "07:00:00", "07:00");
    let fired: Vec<&AppEvent> =
        events.iter().filter(|e| matches!(e, AppEvent::TaskCompleted(_))).collect();
    assert_eq!(fired.len(), 1);
    if let AppEvent::TaskCompleted(title) = fired[0] {
        assert_eq!(title, "Stand up");
    }
    assert_eq!(notices.len(), 1);
    assert_eq!(notices[0].summary, "Reminder: Stand up");
    assert_eq!(notices[0].body, "daily");

    let (events2, notices2) = state.tick(&Vec::new(), "07:00:01", "07:00");
    assert!(events2.iter().all(|e| !matches!(e, AppEvent::TaskCompleted(_))));
    assert_eq!(notices2.len(), 0);
}

#[test]
fn completed_or_untimed_tasks_never_fire() {
    let tasks = vec![
        Task {
            title: String::from("Done"),
            description: String::new(),
            time: String::from("07:00"),
            completed: true,
        },
        Task {
            title: String::from("Untimed"),
            description: String::new(),
            time: String::new(),
            completed: false,
        },
    ];
    let mut state = MonitorState::new(Vec::new(), tasks);
    let (events, notices) = state.tick(&Vec::new(), "07:00:00", "07:00");
    assert!(events.iter().all(|e| !matches!(e, AppEvent::TaskCompleted(_))));
    assert_eq!(notices.len(), 0);
}

#[test]
fn last_task_update_wins() {
    let mut state = MonitorState::new(one_target(), Vec::new());
    let first = vec![Task {
        title: String::from("old"),
        description: String::new(),
        time: String::new(),
        completed: false,
    }];
    let second = vec![Task {
        title: String::from("new"),
        description: String::new(),
        time: String::new(),
        completed: false,
    }];
    state.apply_command(MonitorCommand::UpdateTasks(first));
    state.apply_command(MonitorCommand::UpdateTasks(second));
    assert_eq!(state.tasks.len(), 1);
    assert_eq!(state.tasks[0].title, "new");
}

#[test]
fn target_update_resets_statuses() {
    let mut state = MonitorState::new(one_target(), Vec::new());
    state.tick(&vec![(true, 5)], "12:00:00", "12:00");
    let new_targets = vec![
        Target { name: String::from("beta"), address: String::from("10.0.0.2:80") },
        Target { name: String::from("gamma"), address: String::from("10.0.0.3:80") },
    ];
    state.apply_command(MonitorCommand::UpdateTargets(new_targets));
    assert_eq!(state.statuses.len(), 2);
    assert_eq!(state.statuses[0].name, "beta");
    assert!(!state.statuses[0].is_online);
    assert_eq!(state.statuses[1].history.len(), 20);
}
