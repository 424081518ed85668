use vstd::prelude::*;

verus! {

/// Status recorded for a tracked process. Only `Running` is ever persisted;
/// liveness is always probed fresh from the OS, and reconciliation removes
/// records instead of updating them to `Stopped`.
#[derive(Clone, Copy, PartialEq, Eq, Structural, Debug)]
pub enum ProcessStatus {
    Running,
    Stopped,
}

/// Mathematical model of one tracked process record: the launch name, the
/// string-encoded OS process id, and the recorded status.
#[verifier::ext_equal]
pub struct ProcessInfoView {
    pub name: Seq<char>,
    pub pid: Seq<char>,
    pub status: ProcessStatus,
}

/// One tracked process record as held in memory and persisted in the state
/// file.
#[derive(Debug)]
pub struct ProcessInfo {
    pub name: String,
    pub pid: String,
    pub status: ProcessStatus,
}

impl View for ProcessInfo {
    type V = ProcessInfoView;

    open spec fn view(&self) -> ProcessInfoView {
        ProcessInfoView { name: self.name@, pid: self.pid@, status: self.status }
    }
}

impl ProcessInfo {
    /// An owned copy of this record, equal to it in the model.
    pub fn duplicate(&self) -> (r: ProcessInfo)
        ensures
            r@ == self@,
    {
        ProcessInfo { name: self.name.clone(), pid: self.pid.clone(), status: self.status }
    }
}

/// The model of a registry: the records of a vector, in order.
pub open spec fn recs_view(s: Seq<ProcessInfo>) -> Seq<ProcessInfoView> {
    s.map_values(|p: ProcessInfo| p@)
}

/// A character that may stand in a persisted string without escaping:
/// not a quote, not a backslash, not a control character.
pub open spec fn plain_char(c: char) -> bool {
    c != '"' && c != '\\' && c as int >= 32
}

/// A string whose characters all persist as themselves.
pub open spec fn wf_chars(s: Seq<char>) -> bool {
    forall|i: int| 0 <= i < s.len() ==> plain_char(#[trigger] s[i])
}

/// A well-formed record: name and pid persist as themselves.
pub open spec fn wf_record(r: ProcessInfoView) -> bool {
    wf_chars(r.name) && wf_chars(r.pid)
}

/// A well-formed registry: every record is well-formed.
pub open spec fn wf_records(rs: Seq<ProcessInfoView>) -> bool {
    forall|i: int| 0 <= i < rs.len() ==> wf_record(#[trigger] rs[i])
}

/// Whether every character of `s` persists as itself.
pub fn is_plain_str(s: &str) -> (r: bool)
    ensures
        r == wf_chars(s@),
{
    let n: usize = s.unicode_len();
    let mut i: usize = 0;
    while i < n
        invariant
            0 <= i <= n,
            n == s@.len(),
            forall|j: int| 0 <= j < i ==> plain_char(#[trigger] s@[j]),
        decreases n - i,
    {
        let c = s.get_char(i);
        if c == '"' || c == '\\' || (c as u32) < 32 {
            return false;
        }
        i = i + 1;
    }
    true
}

/// Whether a record is well-formed, so that it persists as itself.
pub fn is_well_formed_record(p: &ProcessInfo) -> (r: bool)
    ensures
        r == wf_record(p@),
{
    let name_ok = is_plain_str(p.name.as_str());
    let pid_ok = is_plain_str(p.pid.as_str());
    name_ok && pid_ok
}

/// The characters under which a status is persisted.
pub open spec fn status_chars(st: ProcessStatus) -> Seq<char> {
    match st {
        ProcessStatus::Running => seq!['R', 'u', 'n', 'n', 'i', 'n', 'g'],
        ProcessStatus::Stopped => seq!['S', 't', 'o', 'p', 'p', 'e', 'd'],
    }
}

/// The status text, pinned to `status_chars`.
pub fn status_str(st: ProcessStatus) -> (r: &'static str)
    ensures
        r@ == status_chars(st),
{
    match st {
        ProcessStatus::Running => {
            let s = "Running";
            proof {
                reveal_strlit("Running");
                assert(s@ =~= status_chars(ProcessStatus::Running));
            }
            s
        },
        ProcessStatus::Stopped => {
            let s = "Stopped";
            proof {
                reveal_strlit("Stopped");
                assert(s@ =~= status_chars(ProcessStatus::Stopped));
            }
            s
        },
    }
}

} // verus!
