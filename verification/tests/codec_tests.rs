use eggsecutor::codec::{parse_processes, serialize_processes};
use eggsecutor::errors::ErrorKind;
use eggsecutor::process::{ProcessInfo, ProcessStatus};

fn record(name: &str, pid: &str, status: ProcessStatus) -> ProcessInfo {
    ProcessInfo {
        name: name.to_string(),
        pid: pid.to_string(),
        status,
    }
}

#[test]
fn serialize_one_record_should_be_exact() {
    let processes = vec![record("worker", "111", ProcessStatus::Running)];
    assert_eq!(
        serialize_processes(&processes),
        "[{\"name\":\"worker\",\"pid\":\"111\",\"status\":\"Running\"}]"
    );
}

#[test]
fn serialize_empty_registry_should_be_brackets() {
    let processes: Vec<ProcessInfo> = vec![];
    assert_eq!(serialize_processes(&processes), "[]");
}

#[test]
fn save_then_load_should_round_trip() {
    let processes = vec![
        record("worker", "111", ProcessStatus::Running),
        record("helper", "222", ProcessStatus::Stopped),
        record("7", "42", ProcessStatus::Running),
    ];
    let serialized = serialize_processes(&processes);
    let loaded = parse_processes(&serialized).expect("round trip should parse");
    assert_eq!(loaded.len(), processes.len());
    for (original, restored) in processes.iter().zip(loaded.iter()) {
        assert_eq!(original.name, restored.name);
        assert_eq!(original.pid, restored.pid);
        assert_eq!(original.status, restored.status);
    }
}

#[test]
fn parse_of_valid_process_data_should_be_ok() {
    let process_data = "[{\"name\":\"TEST_PROCES\",\"pid\":\"0000\",\"status\":\"Running\"}]";
    let processes = parse_processes(process_data)
        .expect("getting processes from file returned unexpected error");
    assert!(processes.len() > 0);
    assert_eq!(processes[0].name, "TEST_PROCES");
    assert_eq!(processes[0].pid, "0000");
    assert_eq!(processes[0].status, ProcessStatus::Running);
}

#[test]
fn parse_of_empty_content_should_be_data_format_error() {
    let result = parse_processes("");
    assert!(result.is_err());
    assert_eq!(result.unwrap_err().kind, ErrorKind::DataFormat);
}

#[test]
fn parse_of_malformed_content_should_be_data_format_error() {
    for bad in [
        "not json",
        "[",
        "[]x",
        "[{\"name\":\"a\",\"pid\":\"1\",\"status\":\"Paused\"}]",
        "[{\"name\":\"a\",\"pid\":\"1\",\"status\":\"Running\"},]",
        "{\"name\":\"a\",\"pid\":\"1\",\"status\":\"Running\"}",
    ] {
        let result = parse_processes(bad);
        assert!(result.is_err(), "content {:?} should be refused", bad);
        assert_eq!(result.unwrap_err().kind, ErrorKind::DataFormat);
    }
}
