use vstd::prelude::*;

use crate::errors::{get_invalid_file_path_error, EggError, ErrorKind};
use crate::process::{recs_view, ProcessInfo};
use crate::registry::keep_alive_from;

verus! {

/// The environment variable that overrides the state file location.
pub fn get_state_file_env_key() -> (r: String)
    ensures
        r@ == "EGGSECUTOR_STATE_FILE"@,
{
    "EGGSECUTOR_STATE_FILE".to_owned()
}

/// The default state file location, under the user's home directory.
pub fn get_default_state_file_path_string() -> (r: String)
    ensures
        r@ == "~/.eggsecutor.state"@,
{
    "~/.eggsecutor.state".to_owned()
}

/// Relies on shellexpand::tilde: only a leading tilde is expanded, so a
/// path that does not start with one comes back unchanged. What a leading
/// tilde expands to depends on the machine's home directory.
#[verifier::external_body]
fn expand_tilde(path: &str) -> (r: String)
    ensures
        path@.len() == 0 ==> r@ == path@,
        path@.len() > 0 && path@[0] != '~' ==> r@ == path@,
{
    shellexpand::tilde(path).to_string()
}

/// The state file path: the environment override where one is set, else the
/// default under the home directory, tilde-expanded either way.
pub fn get_state_file_path(env_value: Option<String>) -> (r: String)
    ensures
        (match env_value {
            Some(p) => p@.len() > 0 && p@[0] != '~' ==> r@ == p@,
            None => true,
        }),
{
    let path_string = match env_value {
        Some(state_path) => state_path,
        None => get_default_state_file_path_string(),
    };
    expand_tilde(path_string.as_str())
}

/// The spawn path for a hatched binary: the filename taken relative to the
/// working directory.
pub fn get_bin_path(filename: &str) -> (r: String)
    ensures
        r@ == "./"@ + filename@,
{
    let mut out = String::new();
    out.append("./");
    out.append(filename);
    out
}

/// Decides whether a user-supplied file path may be used; `file_exists` is
/// the filesystem's answer for it. A missing path is refused before any
/// side effect.
pub fn check_if_file_is_valid(filename: &str, file_exists: bool) -> (r: Result<(), EggError>)
    ensures
        file_exists ==> r is Ok,
        !file_exists ==> (r matches Err(e) && e.kind == ErrorKind::InvalidPath),
{
    match file_exists {
        true => Ok(()),
        false => Err(get_invalid_file_path_error()),
    }
}

/// Keeps only the records whose liveness probe succeeded: `alive` holds the
/// prober's answer for each record's pid, in order. Records of dead
/// processes are dropped from the returned registry.
pub fn get_running_processes_from_state_file(
    processes: Vec<ProcessInfo>,
    alive: &Vec<bool>,
) -> (r: Vec<ProcessInfo>)
    requires
        alive@.len() == processes@.len(),
    ensures
        recs_view(r@) == keep_alive_from(recs_view(processes@), alive@, 0),
{
    let ghost rs = recs_view(processes@);
    let n = processes.len();
    let mut out: Vec<ProcessInfo> = Vec::new();
    let mut i: usize = 0;
    while i < n
        invariant
            0 <= i <= n,
            n == processes@.len(),
            alive@.len() == processes@.len(),
            rs == recs_view(processes@),
            recs_view(out@) + keep_alive_from(rs, alive@, i as int) == keep_alive_from(
                rs,
                alive@,
                0,
            ),
        decreases n - i,
    {
        proof {
            assert(rs[i as int] == processes@[i as int]@);
        }
        if alive[i] {
            let ghost before = out@;
            out.push(processes[i].duplicate());
            proof {
                assert(recs_view(out@) =~= recs_view(before).push(rs[i as int]));
                assert(recs_view(before).push(rs[i as int]) + keep_alive_from(
                    rs,
                    alive@,
                    i + 1,
                ) =~= recs_view(before) + keep_alive_from(rs, alive@, i as int));
            }
        }
        i = i + 1;
    }
    proof {
        assert(recs_view(out@) + keep_alive_from(rs, alive@, n as int) =~= recs_view(out@));
    }
    out
}

} // verus!
