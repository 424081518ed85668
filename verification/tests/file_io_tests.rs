use eggsecutor::errors::ErrorKind;
use eggsecutor::file_io::{
    check_if_file_is_valid, get_bin_path, get_default_state_file_path_string,
    get_state_file_env_key, get_state_file_path,
};
use eggsecutor::process::{is_well_formed_record, ProcessInfo, ProcessStatus};

#[test]
fn file_valid_check_should_err_with_nonexistent_file_path() {
    let nonexistent_file_path = "no-such-file.testfile";
    let result = check_if_file_is_valid(nonexistent_file_path, false);
    assert!(result.is_err());
    assert_eq!(result.unwrap_err().kind, ErrorKind::InvalidPath);
}

#[test]
fn file_valid_check_should_be_ok_with_existing_file() {
    let file_path = "some-present-file.testfile";
    let result = check_if_file_is_valid(file_path, true);
    assert!(result.is_ok());
}

#[test]
fn state_file_env_key_should_be_default_value() {
    let default_env_key = "EGGSECUTOR_STATE_FILE";
    assert_eq!(default_env_key, &get_state_file_env_key());
}

#[test]
fn default_state_file_path_string_should_be_set() {
    let expected_default_path = "~/.eggsecutor.state";
    assert_eq!(expected_default_path, &get_default_state_file_path_string());
}

#[test]
fn state_file_path_should_return_default_if_env_not_set() {
    let state_file_path = get_state_file_path(None);
    // the tilde of the default path must be expanded
    let expected_path = shellexpand::tilde(&get_default_state_file_path_string()).to_string();
    assert_eq!(expected_path, state_file_path);
}

#[test]
fn state_file_path_should_return_user_set_path_if_env_key_present() {
    let test_path_value = "test-dir";
    let state_file_path = get_state_file_path(Some(test_path_value.to_string()));
    assert_eq!(test_path_value, state_file_path);
}

#[test]
fn bin_path_should_be_relative_to_working_directory() {
    assert_eq!(get_bin_path("my-binary"), "./my-binary");
}

#[test]
fn record_well_formedness_should_refuse_special_characters() {
    let plain = ProcessInfo {
        name: "worker".to_string(),
        pid: "111".to_string(),
        status: ProcessStatus::Running,
    };
    assert!(is_well_formed_record(&plain));
    let quoted_name = ProcessInfo {
        name: "odd\"name".to_string(),
        pid: "111".to_string(),
        status: ProcessStatus::Running,
    };
    assert!(!is_well_formed_record(&quoted_name));
}

#[test]
fn hatch_of_missing_path_should_fail_before_any_side_effect() {
    let result = check_if_file_is_valid("./nope", false);
    assert!(result.is_err());
    assert_eq!(result.unwrap_err().kind, ErrorKind::InvalidPath);
}
