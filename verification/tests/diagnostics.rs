use omasend::diagnostics::{LogBuffer, MAX_ENTRIES};

#[test]
fn logs_keep_complete_events_and_bound_session_memory() {
    let mut logs = LogBuffer::new();
    logs.append("first event\n");
    assert_eq!(logs.snapshot(), "first event");
    for index in 0..MAX_ENTRIES {
        logs.append(&format!("event {index}"));
    }
    let text = logs.snapshot();
    assert_eq!(text.lines().count(), MAX_ENTRIES);
    assert!(text.starts_with("event 0\n"));
    assert!(text.ends_with("event 499"));
    logs.clear();
    assert!(logs.snapshot().is_empty());
}

#[test]
fn long_log_entries_are_cut() {
    let mut logs = LogBuffer::new();
    let long = "x".repeat(20_000);
    logs.append(&format!("{long}  \t\n"));
    assert_eq!(logs.snapshot().chars().count(), 16_384);
    logs.append("second");
    assert!(logs.snapshot().ends_with("\nsecond"));
}
