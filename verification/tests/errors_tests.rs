use eggsecutor::errors::{
    handle_no_file_data_error, handle_no_such_process_error, handle_process_boot_error,
    handle_spawn_failure, ErrorKind,
};

#[test]
fn process_boot_error_should_return_io_clap_err() {
    let err_msg = "test boot error";
    let err = handle_process_boot_error(err_msg);
    assert!(err.message.contains(err_msg));
    assert_eq!(err.kind, ErrorKind::Io);
}

#[test]
fn no_such_process_error_should_return_invalid_value_clap_err() {
    let process_err_msg = "test process not found error";
    let err = handle_no_such_process_error(process_err_msg);
    assert!(err.message.contains(process_err_msg));
    assert_eq!(err.kind, ErrorKind::NoSuchProcess);
}

#[test]
fn no_file_data_error_should_return_clap_io_err() {
    let process_err_msg = "no state file data found. Add a process to track first";
    let err = handle_no_file_data_error();
    assert!(err.message.contains(process_err_msg));
    assert_eq!(err.kind, ErrorKind::NoStateData);
}

#[test]
fn spawn_failure_error_should_return_clap_io_error() {
    let process_err_msg = "test spawn error";
    let err = handle_spawn_failure(process_err_msg);
    assert!(err.message.contains(process_err_msg));
    assert_eq!(err.kind, ErrorKind::Io);
}

#[test]
fn spawn_failure_error_message_should_be_exact() {
    let err = handle_spawn_failure("boom");
    assert_eq!(
        err.message,
        "could not hatch process: binary could not be executed. Details: boom"
    );
}

#[test]
fn no_such_process_error_message_should_quote_identifier() {
    let err = handle_no_such_process_error("ghost");
    assert_eq!(
        err.message,
        "couldn not stop process. no matching process with identifier: \"ghost\""
    );
}
