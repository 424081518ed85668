use vstd::prelude::*;

use crate::numeric::{dec_chars, u32_to_string};
use crate::process::{recs_view, status_chars, status_str, ProcessInfo, ProcessInfoView};
use crate::text::{dash_run, pad_right, pad_right_chars, repeat_char};

verus! {

/// One console table line for a record: name, pid and status in padded
/// columns, ended by a newline.
pub open spec fn console_line_chars(r: ProcessInfoView) -> Seq<char> {
    pad_right_chars(r.name, 15) + seq![' '] + pad_right_chars(r.pid, 7) + seq![' ']
        + pad_right_chars(status_chars(r.status), 10) + seq!['\n']
}

impl ProcessInfo {
    /// This record as one console table line, as `console_line_chars`
    /// describes.
    pub fn to_console_string(&self) -> (r: String)
        ensures
            r@ == console_line_chars(self@),
    {
        let mut out = pad_right(self.name.as_str(), 15);
        out.append(" ");
        let pid_col = pad_right(self.pid.as_str(), 7);
        out.append(pid_col.as_str());
        out.append(" ");
        let status_col = pad_right(status_str(self.status), 10);
        out.append(status_col.as_str());
        out.append("\n");
        proof {
            reveal_strlit(" ");
            reveal_strlit("\n");
            assert(" "@ =~= seq![' ']);
            assert("\n"@ =~= seq!['\n']);
            assert(out@ =~= console_line_chars(self@));
        }
        out
    }
}

/// The console table header: the column titles and a rule of dashes.
pub open spec fn display_header_chars() -> Seq<char> {
    pad_right_chars("Process name"@, 15) + seq![' '] + pad_right_chars("pid"@, 7) + seq![' ']
        + pad_right_chars("status"@, 10) + seq!['\n'] + repeat_char('-', 35)
}

/// The console table header, as `display_header_chars` describes.
pub fn get_display_header_string() -> (r: String)
    ensures
        r@ == display_header_chars(),
{
    let mut out = pad_right("Process name", 15);
    out.append(" ");
    let pid_col = pad_right("pid", 7);
    out.append(pid_col.as_str());
    out.append(" ");
    let status_col = pad_right("status", 10);
    out.append(status_col.as_str());
    out.append("\n");
    let rule = dash_run(35);
    out.append(rule.as_str());
    proof {
        reveal_strlit(" ");
        reveal_strlit("\n");
        assert(" "@ =~= seq![' ']);
        assert("\n"@ =~= seq!['\n']);
        assert(out@ =~= display_header_chars());
    }
    out
}

/// The console table lines of the records from index `i` on.
pub open spec fn console_rows_from(rs: Seq<ProcessInfoView>, i: int) -> Seq<char>
    decreases rs.len() - i,
{
    if i < 0 || i >= rs.len() {
        Seq::empty()
    } else {
        console_line_chars(rs[i]) + console_rows_from(rs, i + 1)
    }
}

/// The whole console listing: the header, a newline, then one line per
/// record.
pub open spec fn display_output_chars(rs: Seq<ProcessInfoView>) -> Seq<char> {
    display_header_chars() + seq!['\n'] + console_rows_from(rs, 0)
}

/// The console listing of a registry, as `display_output_chars` describes.
pub fn get_display_output_str_for_processes(processes: Vec<ProcessInfo>) -> (r: String)
    ensures
        r@ == display_output_chars(recs_view(processes@)),
{
    let ghost rs = recs_view(processes@);
    let mut out = get_display_header_string();
    out.append("\n");
    proof {
        reveal_strlit("\n");
        assert("\n"@ =~= seq!['\n']);
    }
    let n = processes.len();
    let mut i: usize = 0;
    while i < n
        invariant
            0 <= i <= n,
            n == processes@.len(),
            rs == recs_view(processes@),
            out@ + console_rows_from(rs, i as int) == display_output_chars(rs),
        decreases n - i,
    {
        proof {
            assert(rs[i as int] == processes@[i as int]@);
        }
        let line = processes[i].to_console_string();
        out.append(line.as_str());
        proof {
            assert(out@ + console_rows_from(rs, i + 1) =~= display_output_chars(rs));
        }
        i = i + 1;
    }
    proof {
        assert(out@ =~= display_output_chars(rs));
    }
    out
}

/// The message printed before a binary is hatched.
pub open spec fn pre_hatch_message_chars(filename: Seq<char>) -> Seq<char> {
    "Hatching process \""@ + filename + "\" and starting to track..."@
}

/// The pre-hatch message, as `pre_hatch_message_chars` describes.
pub fn get_pre_hatch_message_string(filename: &str) -> (r: String)
    ensures
        r@ == pre_hatch_message_chars(filename@),
{
    let mut out = String::new();
    out.append("Hatching process \"");
    out.append(filename);
    out.append("\" and starting to track...");
    out
}

/// The message printed once a hatched process is tracked, carrying its pid
/// in decimal.
pub open spec fn post_hatch_message_chars(pid: nat) -> Seq<char> {
    "egg hatched, tracking process with pid: \""@ + dec_chars(pid) + "\""@
}

/// The post-hatch message, as `post_hatch_message_chars` describes.
pub fn get_post_hatch_message_string(pid: u32) -> (r: String)
    ensures
        r@ == post_hatch_message_chars(pid as nat),
{
    let mut out = String::new();
    out.append("egg hatched, tracking process with pid: \"");
    let digits = u32_to_string(pid);
    out.append(digits.as_str());
    out.append("\"");
    out
}

} // verus!
