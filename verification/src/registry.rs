use vstd::prelude::*;

use crate::errors::{get_signal_failure_error, handle_no_such_process_error, EggError, ErrorKind};
use crate::numeric::{is_i32_string, parses_as_i32};
use crate::process::{recs_view, ProcessInfo, ProcessInfoView};
use crate::text::str_eq;

verus! {

/// The first record at or after index `i` whose name is `name`.
pub open spec fn find_by_name_from(
    rs: Seq<ProcessInfoView>,
    name: Seq<char>,
    i: int,
) -> Option<ProcessInfoView>
    decreases rs.len() - i,
{
    if i < 0 || i >= rs.len() {
        None
    } else if rs[i].name == name {
        Some(rs[i])
    } else {
        find_by_name_from(rs, name, i + 1)
    }
}

/// The first record whose name is `name`, in insertion order.
pub open spec fn find_first_by_name(rs: Seq<ProcessInfoView>, name: Seq<char>) -> Option<
    ProcessInfoView,
> {
    find_by_name_from(rs, name, 0)
}

/// The first record at or after index `i` whose pid is `pid`.
pub open spec fn find_by_pid_from(
    rs: Seq<ProcessInfoView>,
    pid: Seq<char>,
    i: int,
) -> Option<ProcessInfoView>
    decreases rs.len() - i,
{
    if i < 0 || i >= rs.len() {
        None
    } else if rs[i].pid == pid {
        Some(rs[i])
    } else {
        find_by_pid_from(rs, pid, i + 1)
    }
}

/// The first record whose pid is `pid`, in insertion order.
pub open spec fn find_first_by_pid(rs: Seq<ProcessInfoView>, pid: Seq<char>) -> Option<
    ProcessInfoView,
> {
    find_by_pid_from(rs, pid, 0)
}

/// Whether some record carries `pid`.
pub open spec fn pid_tracked(rs: Seq<ProcessInfoView>, pid: Seq<char>) -> bool {
    find_first_by_pid(rs, pid) is Some
}

/// The records at or after index `i` whose pid is not `pid`, in order.
pub open spec fn remove_by_pid_from(
    rs: Seq<ProcessInfoView>,
    pid: Seq<char>,
    i: int,
) -> Seq<ProcessInfoView>
    decreases rs.len() - i,
{
    if i < 0 || i >= rs.len() {
        Seq::empty()
    } else if rs[i].pid == pid {
        remove_by_pid_from(rs, pid, i + 1)
    } else {
        seq![rs[i]] + remove_by_pid_from(rs, pid, i + 1)
    }
}

/// The registry without the records that carry `pid`, in order.
pub open spec fn remove_by_pid(rs: Seq<ProcessInfoView>, pid: Seq<char>) -> Seq<ProcessInfoView> {
    remove_by_pid_from(rs, pid, 0)
}

/// The records at or after index `i` whose liveness flag is set, in order.
pub open spec fn keep_alive_from(
    rs: Seq<ProcessInfoView>,
    alive: Seq<bool>,
    i: int,
) -> Seq<ProcessInfoView>
    decreases rs.len() - i,
{
    if i < 0 || i >= rs.len() {
        Seq::empty()
    } else if alive[i] {
        seq![rs[i]] + keep_alive_from(rs, alive, i + 1)
    } else {
        keep_alive_from(rs, alive, i + 1)
    }
}

/// The stop-target resolution policy: a name match takes priority; failing
/// that, the identifier is accepted as a literal pid only if it parses as an
/// integer, is tracked, and is alive.
pub open spec fn resolve_spec(
    rs: Seq<ProcessInfoView>,
    identifier: Seq<char>,
    identifier_alive: bool,
) -> Option<Seq<char>> {
    match find_first_by_name(rs, identifier) {
        Some(r) => Some(r.pid),
        None => if parses_as_i32(identifier) && pid_tracked(rs, identifier) && identifier_alive {
            Some(identifier)
        } else {
            None
        },
    }
}

/// A tracked name takes priority over a literal pid reading: where some
/// record's name equals the identifier, resolution yields that first
/// record's pid, whatever the identifier's own liveness as a pid.
pub proof fn lemma_name_priority_resolution(
    rs: Seq<ProcessInfoView>,
    identifier: Seq<char>,
    identifier_alive: bool,
)
    requires
        find_first_by_name(rs, identifier) is Some,
    ensures
        resolve_spec(rs, identifier, identifier_alive) == Some(
            find_first_by_name(rs, identifier).unwrap().pid,
        ),
{
}

proof fn lemma_remove_untracked_from(rs: Seq<ProcessInfoView>, pid: Seq<char>, i: int)
    requires
        0 <= i <= rs.len(),
        find_by_pid_from(rs, pid, i) is None,
    ensures
        remove_by_pid_from(rs, pid, i) == rs.subrange(i, rs.len() as int),
    decreases rs.len() - i,
{
    if i >= rs.len() {
        assert(remove_by_pid_from(rs, pid, i) =~= rs.subrange(i, rs.len() as int));
    } else {
        assert(rs[i].pid != pid);
        lemma_remove_untracked_from(rs, pid, i + 1);
        assert(seq![rs[i]] + rs.subrange(i + 1, rs.len() as int) =~= rs.subrange(
            i,
            rs.len() as int,
        ));
    }
}

/// Removing an untracked pid leaves the registry unchanged, and with it the
/// persisted bytes.
pub proof fn lemma_remove_untracked_is_noop(rs: Seq<ProcessInfoView>, pid: Seq<char>)
    requires
        !pid_tracked(rs, pid),
    ensures
        remove_by_pid(rs, pid) == rs,
        crate::codec::ser_records(remove_by_pid(rs, pid)) == crate::codec::ser_records(rs),
{
    lemma_remove_untracked_from(rs, pid, 0);
    assert(rs.subrange(0, rs.len() as int) =~= rs);
}

/// The first tracked record launched under `name`, in insertion order.
pub fn find_process_by_name(processes: &Vec<ProcessInfo>, name: &str) -> (r: Option<ProcessInfo>)
    ensures
        match r {
            Some(p) => find_first_by_name(recs_view(processes@), name@) == Some(p@),
            None => find_first_by_name(recs_view(processes@), name@) is None,
        },
{
    let ghost rs = recs_view(processes@);
    let n = processes.len();
    let mut i: usize = 0;
    while i < n
        invariant
            0 <= i <= n,
            n == processes@.len(),
            rs == recs_view(processes@),
            find_by_name_from(rs, name@, 0) == find_by_name_from(rs, name@, i as int),
        decreases n - i,
    {
        proof {
            assert(rs[i as int] == processes@[i as int]@);
        }
        if str_eq(processes[i].name.as_str(), name) {
            return Some(processes[i].duplicate());
        }
        i = i + 1;
    }
    None
}

/// The first tracked record carrying `pid`, in insertion order.
pub fn find_process_by_pid(processes: &Vec<ProcessInfo>, pid: &str) -> (r: Option<ProcessInfo>)
    ensures
        match r {
            Some(p) => find_first_by_pid(recs_view(processes@), pid@) == Some(p@),
            None => find_first_by_pid(recs_view(processes@), pid@) is None,
        },
{
    let ghost rs = recs_view(processes@);
    let n = processes.len();
    let mut i: usize = 0;
    while i < n
        invariant
            0 <= i <= n,
            n == processes@.len(),
            rs == recs_view(processes@),
            find_by_pid_from(rs, pid@, 0) == find_by_pid_from(rs, pid@, i as int),
        decreases n - i,
    {
        proof {
            assert(rs[i as int] == processes@[i as int]@);
        }
        if str_eq(processes[i].pid.as_str(), pid) {
            return Some(processes[i].duplicate());
        }
        i = i + 1;
    }
    None
}

/// Whether `pid` is carried by some tracked record.
pub fn is_pid_being_tracked(processes: &Vec<ProcessInfo>, pid: &str) -> (r: bool)
    ensures
        r == pid_tracked(recs_view(processes@), pid@),
{
    match find_process_by_pid(processes, pid) {
        Some(_) => true,
        None => false,
    }
}

/// Whether `pid` may be taken as a literal pid to stop: it parses as an
/// integer, is tracked, and is alive. `pid_alive` is the liveness probe's
/// answer for it.
pub fn is_existing_pid(processes: &Vec<ProcessInfo>, pid: &str, pid_alive: bool) -> (r: bool)
    ensures
        r == (parses_as_i32(pid@) && pid_tracked(recs_view(processes@), pid@) && pid_alive),
{
    let parseable = is_i32_string(pid);
    let tracked_pid = is_pid_being_tracked(processes, pid);
    parseable && tracked_pid && pid_alive
}

/// Appends a new record to the registry.
pub fn add_process_to_state_tracker(processes: &mut Vec<ProcessInfo>, process_info: ProcessInfo)
    ensures
        recs_view(final(processes)@) == recs_view(old(processes)@).push(process_info@),
{
    let ghost orig = processes@;
    let ghost pv = process_info@;
    processes.push(process_info);
    proof {
        assert(recs_view(processes@) =~= recs_view(orig).push(pv));
    }
}

/// An owned copy of the registry, equal to it in the model.
pub fn duplicate_processes(processes: &Vec<ProcessInfo>) -> (r: Vec<ProcessInfo>)
    ensures
        recs_view(r@) == recs_view(processes@),
{
    let n = processes.len();
    let mut out: Vec<ProcessInfo> = Vec::new();
    let mut i: usize = 0;
    while i < n
        invariant
            0 <= i <= n,
            n == processes@.len(),
            out@.len() == i,
            forall|q: int| 0 <= q < i ==> (#[trigger] out@[q])@ == processes@[q]@,
        decreases n - i,
    {
        out.push(processes[i].duplicate());
        i = i + 1;
    }
    proof {
        assert forall|q: int|
            0 <= q < n implies recs_view(out@)[q] == recs_view(processes@)[q] by {
            assert(out@[q]@ == processes@[q]@);
        }
        assert(recs_view(out@) =~= recs_view(processes@));
    }
    out
}

/// Removes every record carrying `pid` from the registry; removing an
/// untracked pid leaves the registry unchanged.
pub fn remove_process_from_state_tracker(processes: &mut Vec<ProcessInfo>, pid: &str)
    ensures
        recs_view(final(processes)@) == remove_by_pid(recs_view(old(processes)@), pid@),
{
    let ghost rs = recs_view(processes@);
    let n = processes.len();
    let mut out: Vec<ProcessInfo> = Vec::new();
    let mut i: usize = 0;
    while i < n
        invariant
            0 <= i <= n,
            n == processes@.len(),
            rs == recs_view(processes@),
            recs_view(out@) + remove_by_pid_from(rs, pid@, i as int) == remove_by_pid(rs, pid@),
        decreases n - i,
    {
        proof {
            assert(rs[i as int] == processes@[i as int]@);
        }
        if !str_eq(processes[i].pid.as_str(), pid) {
            let ghost before = out@;
            out.push(processes[i].duplicate());
            proof {
                assert(recs_view(out@) =~= recs_view(before).push(rs[i as int]));
                assert(recs_view(before).push(rs[i as int]) + remove_by_pid_from(rs, pid@, i + 1)
                    =~= recs_view(before) + remove_by_pid_from(rs, pid@, i as int));
            }
        }
        i = i + 1;
    }
    proof {
        assert(recs_view(out@) + remove_by_pid_from(rs, pid@, n as int) =~= recs_view(out@));
    }
    *processes = out;
}

/// Resolves a stop target to a pid, as `resolve_spec` describes: a tracked
/// record's name takes priority; otherwise the identifier itself is accepted
/// only as a parseable, tracked, live pid. `identifier_alive` is the
/// liveness probe's answer for the identifier taken as a pid.
pub fn resolve_process_identifier(
    processes: &Vec<ProcessInfo>,
    process_identifier: &str,
    identifier_alive: bool,
) -> (r: Result<String, EggError>)
    ensures
        match r {
            Ok(pid) => resolve_spec(recs_view(processes@), process_identifier@, identifier_alive)
                == Some(pid@),
            Err(e) => resolve_spec(recs_view(processes@), process_identifier@, identifier_alive)
                is None && e.kind == ErrorKind::NoSuchProcess && e.message@
                == "couldn not stop process. no matching process with identifier: \""@
                + process_identifier@ + "\""@,
        },
{
    match find_process_by_name(processes, process_identifier) {
        Some(process) => Ok(process.pid),
        None => {
            if is_existing_pid(processes, process_identifier, identifier_alive) {
                Ok(process_identifier.to_owned())
            } else {
                Err(handle_no_such_process_error(process_identifier))
            }
        },
    }
}

/// Decides a whole stop operation. `signal_ok` says whether the
/// termination signal to the resolved pid was sent successfully, and
/// `signal_err` carries the OS error detail when it was not. The record is
/// removed only on a successful signal: on any error the registry value is
/// not produced, and the caller must leave the store as it is.
pub fn stop_process_by_process_identifier(
    processes: &Vec<ProcessInfo>,
    process_identifier: &str,
    identifier_alive: bool,
    signal_ok: bool,
    signal_err: &str,
) -> (r: Result<Vec<ProcessInfo>, EggError>)
    ensures
        resolve_spec(recs_view(processes@), process_identifier@, identifier_alive) is None ==> (
        r matches Err(e) && e.kind == ErrorKind::NoSuchProcess),
        (resolve_spec(recs_view(processes@), process_identifier@, identifier_alive) is Some
            && !signal_ok) ==> (r matches Err(e) && e.kind == ErrorKind::Io),
        forall|pid: Seq<char>|
            resolve_spec(recs_view(processes@), process_identifier@, identifier_alive) == Some(pid)
                && signal_ok ==> (r matches Ok(v) && recs_view(v@) == remove_by_pid(
                recs_view(processes@),
                pid,
            )),
{
    match resolve_process_identifier(processes, process_identifier, identifier_alive) {
        Err(e) => Err(e),
        Ok(pid) => {
            if !signal_ok {
                Err(get_signal_failure_error(signal_err))
            } else {
                let mut remaining = duplicate_processes(processes);
                remove_process_from_state_tracker(&mut remaining, pid.as_str());
                Ok(remaining)
            }
        },
    }
}

/// Decides a stop-all operation: pairs every tracked pid with the outcome
/// of its termination signal, and yields the empty registry that replaces
/// the store. A failure to stop one record does not keep the others from
/// being attempted; the caller reports the collected outcomes.
pub fn stop_and_clear_all_processes(
    processes: &Vec<ProcessInfo>,
    signal_ok: &Vec<bool>,
) -> (r: (Vec<(String, bool)>, Vec<ProcessInfo>))
    requires
        signal_ok@.len() == processes@.len(),
    ensures
        r.0@.len() == processes@.len(),
        forall|i: int|
            0 <= i < r.0@.len() ==> (#[trigger] r.0@[i]).0@ == recs_view(processes@)[i].pid
                && r.0@[i].1 == signal_ok@[i],
        r.1@.len() == 0,
{
    let n = processes.len();
    let mut outcomes: Vec<(String, bool)> = Vec::new();
    let mut i: usize = 0;
    while i < n
        invariant
            0 <= i <= n,
            n == processes@.len(),
            signal_ok@.len() == processes@.len(),
            outcomes@.len() == i,
            forall|q: int|
                0 <= q < i ==> (#[trigger] outcomes@[q]).0@ == recs_view(processes@)[q].pid
                    && outcomes@[q].1 == signal_ok@[q],
        decreases n - i,
    {
        proof {
            assert(recs_view(processes@)[i as int] == processes@[i as int]@);
        }
        outcomes.push((processes[i].pid.clone(), signal_ok[i]));
        i = i + 1;
    }
    let cleared: Vec<ProcessInfo> = Vec::new();
    (outcomes, cleared)
}

/// The empty registry that a clear operation persists, discarding all
/// tracked records without sending any signals.
pub fn clear_all_processes_from_file() -> (r: Vec<ProcessInfo>)
    ensures
        r@.len() == 0,
        recs_view(r@) == Seq::<ProcessInfoView>::empty(),
{
    let r: Vec<ProcessInfo> = Vec::new();
    proof {
        assert(recs_view(r@) =~= Seq::<ProcessInfoView>::empty());
    }
    r
}

} // verus!
