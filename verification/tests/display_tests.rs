use eggsecutor::output_display::{
    get_display_header_string, get_display_output_str_for_processes, get_post_hatch_message_string,
    get_pre_hatch_message_string,
};
use eggsecutor::process::{ProcessInfo, ProcessStatus};

#[test]
fn pass() {}

#[test]
fn display_output_str_for_empty_vec_should_just_be_header() {
    let empty_process_list = vec![];
    let display_string = get_display_output_str_for_processes(empty_process_list);
    // since no processes, should only be header
    let header_string = get_display_header_string();
    // trim both strings for consistency
    assert_eq!(display_string.trim(), header_string.trim());
}

#[test]
fn display_header_string_should_be_non_empty() {
    let msg = get_display_header_string();
    assert!(msg.len() > 0);
}

#[test]
fn display_header_string_should_have_padded_columns() {
    let msg = get_display_header_string();
    let expected = format!(
        "{}\n{}",
        "Process name    pid     status    ",
        "-----------------------------------"
    );
    assert_eq!(msg, expected);
}

#[test]
fn console_line_should_have_padded_columns() {
    let process = ProcessInfo {
        name: "worker".to_string(),
        pid: "111".to_string(),
        status: ProcessStatus::Running,
    };
    assert_eq!(
        process.to_console_string(),
        "worker          111     Running   \n"
    );
}

#[test]
fn display_output_should_list_every_process() {
    let processes = vec![
        ProcessInfo {
            name: "alpha".to_string(),
            pid: "1".to_string(),
            status: ProcessStatus::Running,
        },
        ProcessInfo {
            name: "beta".to_string(),
            pid: "2".to_string(),
            status: ProcessStatus::Stopped,
        },
    ];
    let display_string = get_display_output_str_for_processes(processes);
    assert!(display_string.starts_with(&get_display_header_string()));
    assert!(display_string.contains("alpha"));
    assert!(display_string.contains("beta"));
    assert!(display_string.contains("Stopped"));
}

#[test]
fn pre_hatch_mesage_ok() {
    let filename = "test-filename";
    let message = get_pre_hatch_message_string(filename);
    assert!(message.contains(filename));
}

#[test]
fn post_hatch_message_ok() {
    let pid = 1234;
    let message = get_post_hatch_message_string(pid);
    assert!(message.contains(&pid.to_string()));
}

#[test]
fn post_hatch_message_should_be_exact() {
    let message = get_post_hatch_message_string(40960);
    assert_eq!(message, "egg hatched, tracking process with pid: \"40960\"");
}
