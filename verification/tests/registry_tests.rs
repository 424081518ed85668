use eggsecutor::codec::serialize_processes;
use eggsecutor::errors::ErrorKind;
use eggsecutor::file_io::get_running_processes_from_state_file;
use eggsecutor::process::{ProcessInfo, ProcessStatus};
use eggsecutor::registry::{
    add_process_to_state_tracker, clear_all_processes_from_file, find_process_by_name,
    find_process_by_pid, is_existing_pid, is_pid_being_tracked, remove_process_from_state_tracker,
    resolve_process_identifier, stop_and_clear_all_processes, stop_process_by_process_identifier,
};

fn record(name: &str, pid: &str) -> ProcessInfo {
    ProcessInfo {
        name: name.to_string(),
        pid: pid.to_string(),
        status: ProcessStatus::Running,
    }
}

#[test]
fn add_should_append_in_insertion_order() {
    let mut processes = vec![record("alpha", "1")];
    add_process_to_state_tracker(&mut processes, record("beta", "2"));
    assert_eq!(processes.len(), 2);
    assert_eq!(processes[0].name, "alpha");
    assert_eq!(processes[1].name, "beta");
}

#[test]
fn find_by_name_should_return_first_match() {
    let processes = vec![record("worker", "1"), record("worker", "2")];
    let found = find_process_by_name(&processes, "worker").expect("should find by name");
    assert_eq!(found.pid, "1");
    assert!(find_process_by_name(&processes, "absent").is_none());
}

#[test]
fn find_by_pid_should_return_first_match() {
    let processes = vec![record("a", "7"), record("b", "8")];
    let found = find_process_by_pid(&processes, "8").expect("should find by pid");
    assert_eq!(found.name, "b");
    assert!(find_process_by_pid(&processes, "9").is_none());
}

#[test]
fn tracked_and_existing_pid_checks_should_agree_with_contents() {
    let processes = vec![record("a", "41")];
    assert!(is_pid_being_tracked(&processes, "41"));
    assert!(!is_pid_being_tracked(&processes, "42"));
    // all three conditions are needed: parseable, tracked, alive
    assert!(is_existing_pid(&processes, "41", true));
    assert!(!is_existing_pid(&processes, "41", false));
    assert!(!is_existing_pid(&processes, "42", true));
    let non_numeric = vec![record("a", "name-not-number")];
    assert!(!is_existing_pid(&non_numeric, "name-not-number", true));
}

#[test]
fn liveness_filtering_should_keep_only_live_records() {
    let processes = vec![record("alive-one", "100"), record("dead-one", "200")];
    let alive = vec![true, false];
    let live = get_running_processes_from_state_file(processes, &alive);
    assert_eq!(live.len(), 1);
    assert_eq!(live[0].pid, "100");
}

#[test]
fn remove_should_drop_only_the_given_pid() {
    let mut processes = vec![record("a", "1"), record("b", "2"), record("c", "1")];
    remove_process_from_state_tracker(&mut processes, "1");
    assert_eq!(processes.len(), 1);
    assert_eq!(processes[0].name, "b");
}

#[test]
fn remove_of_untracked_pid_should_leave_store_bytes_unchanged() {
    let mut processes = vec![record("a", "1"), record("b", "2")];
    let before = serialize_processes(&processes);
    remove_process_from_state_tracker(&mut processes, "999");
    let after = serialize_processes(&processes);
    assert_eq!(before, after);
}

#[test]
fn resolution_should_prefer_name_over_literal_pid() {
    // a record is named "7" while a different record carries pid "7"
    let processes = vec![record("7", "42"), record("other", "7")];
    let pid = resolve_process_identifier(&processes, "7", true).expect("name should resolve");
    assert_eq!(pid, "42");
}

#[test]
fn resolution_should_accept_tracked_live_pid() {
    let processes = vec![record("worker", "111")];
    let pid = resolve_process_identifier(&processes, "111", true).expect("pid should resolve");
    assert_eq!(pid, "111");
}

#[test]
fn resolution_should_fail_for_unknown_identifier() {
    let processes = vec![record("worker", "111")];
    let err = resolve_process_identifier(&processes, "ghost", true).unwrap_err();
    assert_eq!(err.kind, ErrorKind::NoSuchProcess);
    assert!(err.message.contains("ghost"));
    // a tracked pid that is no longer alive is refused too
    let err = resolve_process_identifier(&processes, "111", false).unwrap_err();
    assert_eq!(err.kind, ErrorKind::NoSuchProcess);
}

#[test]
fn stop_should_signal_and_then_remove_the_record() {
    let processes = vec![record("worker", "111")];
    let remaining = stop_process_by_process_identifier(&processes, "worker", true, true, "")
        .expect("stop should succeed");
    assert_eq!(remaining.len(), 0);
    assert_eq!(serialize_processes(&remaining), "[]");
}

#[test]
fn stop_should_not_remove_on_failed_signal() {
    let processes = vec![record("worker", "111")];
    let result =
        stop_process_by_process_identifier(&processes, "worker", true, false, "signal refused");
    let err = result.unwrap_err();
    assert_eq!(err.kind, ErrorKind::Io);
    // no new registry value was produced, so the store keeps its record
    assert_eq!(processes.len(), 1);
    assert_eq!(processes[0].pid, "111");
}

#[test]
fn stop_all_should_collect_outcomes_and_clear() {
    let processes = vec![record("a", "1"), record("b", "2"), record("c", "3")];
    let signal_ok = vec![true, false, true];
    let (outcomes, cleared) = stop_and_clear_all_processes(&processes, &signal_ok);
    assert_eq!(outcomes.len(), 3);
    assert_eq!(outcomes[0], ("1".to_string(), true));
    assert_eq!(outcomes[1], ("2".to_string(), false));
    assert_eq!(outcomes[2], ("3".to_string(), true));
    assert_eq!(cleared.len(), 0);
}

#[test]
fn clear_should_be_idempotent() {
    let first = clear_all_processes_from_file();
    let second = clear_all_processes_from_file();
    assert_eq!(serialize_processes(&first), "[]");
    assert_eq!(serialize_processes(&second), "[]");
}
