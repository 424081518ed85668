use vstd::prelude::*;

verus! {

/// The failure kinds an operation can surface: an OS or file failure, state
/// content that does not deserialize, a missing state file where records are
/// required, a user-supplied path that does not exist, and an identifier that
/// resolves to no tracked process.
#[derive(Clone, Copy, PartialEq, Eq, Structural, Debug)]
pub enum ErrorKind {
    Io,
    DataFormat,
    NoStateData,
    InvalidPath,
    NoSuchProcess,
}

/// A failure of a registry operation: its kind and the human-readable
/// message an invocation terminates with.
#[derive(Debug)]
pub struct EggError {
    pub kind: ErrorKind,
    pub message: String,
}

/// The error for a binary that could not be spawned; `err_reason` is the
/// underlying OS error detail.
pub fn handle_spawn_failure(err_reason: &str) -> (r: EggError)
    ensures
        r.kind == ErrorKind::Io,
        r.message@ == "could not hatch process: binary could not be executed. Details: "@
            + err_reason@,
{
    let mut message = String::new();
    message.append("could not hatch process: binary could not be executed. Details: ");
    message.append(err_reason);
    EggError { kind: ErrorKind::Io, message }
}

/// The error for an operation that needs existing records when the state
/// file has none to load.
pub fn handle_no_file_data_error() -> (r: EggError)
    ensures
        r.kind == ErrorKind::NoStateData,
        r.message@ == "no state file data found. Add a process to track first"@,
{
    let mut message = String::new();
    message.append("no state file data found. Add a process to track first");
    EggError { kind: ErrorKind::NoStateData, message }
}

/// The error for an identifier that matches no tracked process.
pub fn handle_no_such_process_error(process_info: &str) -> (r: EggError)
    ensures
        r.kind == ErrorKind::NoSuchProcess,
        r.message@ == "couldn not stop process. no matching process with identifier: \""@
            + process_info@ + "\""@,
{
    let mut message = String::new();
    message.append("couldn not stop process. no matching process with identifier: \"");
    message.append(process_info);
    message.append("\"");
    EggError { kind: ErrorKind::NoSuchProcess, message }
}

/// The error for a process that exited abruptly right after being hatched;
/// `err_reason` is the underlying OS error detail.
pub fn handle_process_boot_error(err_reason: &str) -> (r: EggError)
    ensures
        r.kind == ErrorKind::Io,
        r.message@ == "process abruptly exited after being hatched, details: "@ + err_reason@,
{
    let mut message = String::new();
    message.append("process abruptly exited after being hatched, details: ");
    message.append(err_reason);
    EggError { kind: ErrorKind::Io, message }
}

/// The error for a user-supplied file path that does not exist on disk.
pub fn get_invalid_file_path_error() -> (r: EggError)
    ensures
        r.kind == ErrorKind::InvalidPath,
        r.message@ == "invalid file path provided: file does not exist"@,
{
    let mut message = String::new();
    message.append("invalid file path provided: file does not exist");
    EggError { kind: ErrorKind::InvalidPath, message }
}

/// The error for persisted state content that does not deserialize.
pub fn get_data_format_error() -> (r: EggError)
    ensures
        r.kind == ErrorKind::DataFormat,
        r.message@ == "state file data is not in a valid serialized form"@,
{
    let mut message = String::new();
    message.append("state file data is not in a valid serialized form");
    EggError { kind: ErrorKind::DataFormat, message }
}

/// The error for a termination signal that could not be sent; `err_reason`
/// is the underlying OS error detail.
pub fn get_signal_failure_error(err_reason: &str) -> (r: EggError)
    ensures
        r.kind == ErrorKind::Io,
        r.message@ == "could not stop process: termination signal failed. Details: "@
            + err_reason@,
{
    let mut message = String::new();
    message.append("could not stop process: termination signal failed. Details: ");
    message.append(err_reason);
    EggError { kind: ErrorKind::Io, message }
}

} // verus!
