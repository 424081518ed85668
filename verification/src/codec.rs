use vstd::prelude::*;

use crate::errors::{get_data_format_error, EggError, ErrorKind};
use crate::process::{
    plain_char, recs_view, status_chars, status_str, wf_chars, wf_record, wf_records, ProcessInfo,
    ProcessInfoView, ProcessStatus,
};

verus! {

// The persisted form of a registry is a serialized array of record objects,
// written without any whitespace between tokens: each record carries its
// `name`, `pid` and `status` fields, in that order, with every string given
// verbatim between double quotes. Well-formed strings (no quote, backslash or
// control character) persist as themselves, so the format needs no escapes.
//
// `ser_records` below is the exact sequence of characters saved for a
// registry, and `parse_records_spec` is the exact meaning of loading: the two
// are related by `lemma_save_load_round_trip`.
/// `s` between double quotes.
pub open spec fn quoted(s: Seq<char>) -> Seq<char> {
    seq!['"'] + s + seq!['"']
}

/// The opening of a record object up to its name value.
pub open spec fn name_key_chars() -> Seq<char> {
    seq!['{', '"', 'n', 'a', 'm', 'e', '"', ':']
}

/// The separator between the name value and the pid value.
pub open spec fn pid_key_chars() -> Seq<char> {
    seq![',', '"', 'p', 'i', 'd', '"', ':']
}

/// The separator between the pid value and the status value.
pub open spec fn status_key_chars() -> Seq<char> {
    seq![',', '"', 's', 't', 'a', 't', 'u', 's', '"', ':']
}

/// The serialized form of one record.
pub open spec fn ser_record(r: ProcessInfoView) -> Seq<char> {
    name_key_chars() + quoted(r.name) + pid_key_chars() + quoted(r.pid) + status_key_chars()
        + quoted(status_chars(r.status)) + seq!['}']
}

/// The serialized forms of the records from index `i` on, separated by
/// commas.
pub open spec fn ser_records_from(rs: Seq<ProcessInfoView>, i: int) -> Seq<char>
    decreases rs.len() - i,
{
    if i < 0 || i >= rs.len() {
        Seq::empty()
    } else if i == rs.len() - 1 {
        ser_record(rs[i])
    } else {
        ser_record(rs[i]) + seq![','] + ser_records_from(rs, i + 1)
    }
}

/// The serialized form of a whole registry: the records between brackets.
pub open spec fn ser_records(rs: Seq<ProcessInfoView>) -> Seq<char> {
    seq!['['] + ser_records_from(rs, 0) + seq![']']
}

/// Appends `content` between double quotes.
fn append_quoted(out: &mut String, content: &str)
    ensures
        final(out)@ == old(out)@ + quoted(content@),
{
    out.append("\"");
    out.append(content);
    out.append("\"");
    proof {
        reveal_strlit("\"");
        assert(out@ =~= old(out)@ + quoted(content@));
    }
}

/// Appends the serialized form of one record.
fn append_record(out: &mut String, p: &ProcessInfo)
    ensures
        final(out)@ == old(out)@ + ser_record(p@),
{
    out.append("{\"name\":");
    append_quoted(out, p.name.as_str());
    out.append(",\"pid\":");
    append_quoted(out, p.pid.as_str());
    out.append(",\"status\":");
    append_quoted(out, status_str(p.status));
    out.append("}");
    proof {
        reveal_strlit("{\"name\":");
        reveal_strlit(",\"pid\":");
        reveal_strlit(",\"status\":");
        reveal_strlit("}");
        assert("{\"name\":"@ =~= name_key_chars());
        assert(",\"pid\":"@ =~= pid_key_chars());
        assert(",\"status\":"@ =~= status_key_chars());
        assert("}"@ =~= seq!['}']);
        assert(out@ =~= old(out)@ + ser_record(p@));
    }
}

/// Appends the serialized forms of the records from index `i` on.
fn append_records_from(out: &mut String, processes: &Vec<ProcessInfo>, i: usize)
    requires
        i <= processes@.len(),
    ensures
        final(out)@ == old(out)@ + ser_records_from(recs_view(processes@), i as int),
    decreases processes@.len() - i,
{
    if i < processes.len() {
        append_record(out, &processes[i]);
        if i + 1 < processes.len() {
            out.append(",");
            append_records_from(out, processes, i + 1);
            proof {
                reveal_strlit(",");
                assert(","@ =~= seq![',']);
                assert(out@ =~= old(out)@ + ser_records_from(
                    recs_view(processes@),
                    i as int,
                ));
            }
        } else {
            proof {
                assert(out@ =~= old(out)@ + ser_records_from(
                    recs_view(processes@),
                    i as int,
                ));
            }
        }
    }
}

/// Serializes a registry of well-formed records into the exact character
/// sequence that the state file holds.
pub fn serialize_processes(processes: &Vec<ProcessInfo>) -> (r: String)
    requires
        wf_records(recs_view(processes@)),
    ensures
        r@ == ser_records(recs_view(processes@)),
{
    let mut out = String::new();
    out.append("[");
    append_records_from(&mut out, processes, 0);
    out.append("]");
    proof {
        reveal_strlit("[");
        reveal_strlit("]");
        assert("["@ =~= seq!['[']);
        assert("]"@ =~= seq![']']);
        assert(out@ =~= ser_records(recs_view(processes@)));
    }
    out
}

/// Whether the characters of `lit` stand in `s` at position `i`.
pub open spec fn lit_at(s: Seq<char>, i: int, lit: Seq<char>) -> bool {
    0 <= i && i + lit.len() <= s.len() && s.subrange(i, i + lit.len()) == lit
}

/// The position of the closing quote of a string value whose content starts
/// at `i`: the first quote at or after `i`, provided everything before it is
/// plain.
pub open spec fn scan_string_end(s: Seq<char>, i: int) -> Option<int>
    decreases s.len() - i,
{
    if i < 0 || i >= s.len() {
        None
    } else if s[i] == '"' {
        Some(i)
    } else if plain_char(s[i]) {
        scan_string_end(s, i + 1)
    } else {
        None
    }
}

/// The meaning of a quoted string value at position `i`: its content and the
/// position just after its closing quote.
pub open spec fn parse_string_at(s: Seq<char>, i: int) -> Option<(Seq<char>, int)> {
    if 0 <= i < s.len() && s[i] == '"' {
        match scan_string_end(s, i + 1) {
            Some(j) => Some((s.subrange(i + 1, j), j + 1)),
            None => None,
        }
    } else {
        None
    }
}

/// The meaning of a quoted status value at position `i`.
pub open spec fn parse_status_at(s: Seq<char>, i: int) -> Option<(ProcessStatus, int)> {
    if lit_at(s, i, quoted(status_chars(ProcessStatus::Running))) {
        Some((ProcessStatus::Running, i + 9))
    } else if lit_at(s, i, quoted(status_chars(ProcessStatus::Stopped))) {
        Some((ProcessStatus::Stopped, i + 9))
    } else {
        None
    }
}

/// The meaning of a record object at position `i`: the record and the
/// position just after its closing brace.
pub open spec fn parse_record_at(s: Seq<char>, i: int) -> Option<(ProcessInfoView, int)> {
    if !lit_at(s, i, name_key_chars()) {
        None
    } else {
        match parse_string_at(s, i + name_key_chars().len() as int) {
            None => None,
            Some((name, j)) => if !lit_at(s, j, pid_key_chars()) {
                None
            } else {
                match parse_string_at(s, j + pid_key_chars().len() as int) {
                    None => None,
                    Some((pid, k)) => if !lit_at(s, k, status_key_chars()) {
                        None
                    } else {
                        match parse_status_at(s, k + status_key_chars().len() as int) {
                            None => None,
                            Some((st, m)) => if 0 <= m < s.len() && s[m] == '}' {
                                Some((ProcessInfoView { name, pid, status: st }, m + 1))
                            } else {
                                None
                            },
                        }
                    },
                }
            },
        }
    }
}

/// The meaning of a non-empty record list at position `i`, up to and
/// including the closing bracket. `fuel` bounds the recursion; any fuel at
/// least the number of records suffices, and the top-level entry point hands
/// in the whole input length.
pub open spec fn parse_records_from(s: Seq<char>, i: int, fuel: nat) -> Option<
    (Seq<ProcessInfoView>, int),
>
    decreases fuel,
{
    if fuel == 0 {
        None
    } else {
        match parse_record_at(s, i) {
            None => None,
            Some((r, j)) => if 0 <= j < s.len() && s[j] == ',' {
                match parse_records_from(s, j + 1, (fuel - 1) as nat) {
                    None => None,
                    Some((rest, k)) => Some((seq![r] + rest, k)),
                }
            } else if 0 <= j < s.len() && s[j] == ']' {
                Some((seq![r], j + 1))
            } else {
                None
            },
        }
    }
}

/// The exact meaning of loading: the registry a persisted character sequence
/// deserializes to, or `None` where the content is not a valid serialized
/// registry.
pub open spec fn parse_records_spec(s: Seq<char>) -> Option<Seq<ProcessInfoView>> {
    if s.len() == 2 && s[0] == '[' && s[1] == ']' {
        Some(Seq::empty())
    } else if s.len() >= 1 && s[0] == '[' {
        match parse_records_from(s, 1, s.len() as nat) {
            None => None,
            Some((rs, k)) => if k == s.len() {
                Some(rs)
            } else {
                None
            },
        }
    } else {
        None
    }
}

proof fn lemma_lit_at_concat(s: Seq<char>, i: int, a: Seq<char>, b: Seq<char>)
    requires
        lit_at(s, i, a + b),
    ensures
        lit_at(s, i, a),
        lit_at(s, i + a.len(), b),
{
    assert forall|q: int| 0 <= q < a.len() implies s.subrange(i, i + a.len() as int)[q] == a[q] by {
        assert(s.subrange(i, i + (a + b).len() as int)[q] == (a + b)[q]);
    }
    assert(s.subrange(i, i + a.len() as int) =~= a);
    assert forall|q: int|
        0 <= q < b.len() implies s.subrange(
        i + a.len(),
        i + a.len() + b.len() as int,
    )[q] == b[q] by {
        assert(s.subrange(i, i + (a + b).len() as int)[a.len() + q] == (a + b)[a.len() + q]);
    }
    assert(s.subrange(i + a.len(), i + a.len() + b.len() as int) =~= b);
}

proof fn lemma_scan_string_end_plain(s: Seq<char>, i: int, j: int)
    requires
        0 <= i <= j < s.len(),
        forall|k: int| i <= k < j ==> plain_char(#[trigger] s[k]),
        s[j] == '"',
    ensures
        scan_string_end(s, i) == Some(j),
    decreases j - i,
{
    if i < j {
        assert(plain_char(s[i]));
        lemma_scan_string_end_plain(s, i + 1, j);
    }
}

proof fn lemma_parse_string_at_quoted(s: Seq<char>, i: int, content: Seq<char>)
    requires
        wf_chars(content),
        lit_at(s, i, quoted(content)),
    ensures
        parse_string_at(s, i) == Some((content, i + content.len() + 2)),
{
    let ln = content.len() as int;
    let sub = s.subrange(i, i + ln + 2);
    assert(s[i] == '"') by {
        assert(sub[0] == quoted(content)[0]);
    }
    assert(s[i + 1 + ln] == '"') by {
        assert(sub[1 + ln] == quoted(content)[1 + ln]);
    }
    assert forall|k: int| i + 1 <= k < i + 1 + ln implies plain_char(#[trigger] s[k]) by {
        assert(sub[k - i] == quoted(content)[k - i]);
        assert(s[k] == content[k - i - 1]);
    }
    lemma_scan_string_end_plain(s, i + 1, i + 1 + ln);
    assert forall|q: int| 0 <= q < ln implies s.subrange(i + 1, i + 1 + ln)[q] == content[q] by {
        assert(sub[1 + q] == quoted(content)[1 + q]);
    }
    assert(s.subrange(i + 1, i + 1 + ln) =~= content);
}

proof fn lemma_parse_record_at_ser(s: Seq<char>, i: int, r: ProcessInfoView)
    requires
        wf_record(r),
        lit_at(s, i, ser_record(r)),
    ensures
        parse_record_at(s, i) == Some((r, i + ser_record(r).len())),
{
    let p1 = name_key_chars();
    let p2 = quoted(r.name);
    let p3 = pid_key_chars();
    let p4 = quoted(r.pid);
    let p5 = status_key_chars();
    let p6 = quoted(status_chars(r.status));
    let p7 = seq!['}'];
    lemma_lit_at_concat(s, i, p1 + p2 + p3 + p4 + p5 + p6, p7);
    lemma_lit_at_concat(s, i, p1 + p2 + p3 + p4 + p5, p6);
    lemma_lit_at_concat(s, i, p1 + p2 + p3 + p4, p5);
    lemma_lit_at_concat(s, i, p1 + p2 + p3, p4);
    lemma_lit_at_concat(s, i, p1 + p2, p3);
    lemma_lit_at_concat(s, i, p1, p2);
    let o2 = i + p1.len() as int;
    let o3 = o2 + p2.len() as int;
    let o4 = o3 + p3.len() as int;
    let o5 = o4 + p4.len() as int;
    let o6 = o5 + p5.len() as int;
    let o7 = o6 + p6.len() as int;
    lemma_parse_string_at_quoted(s, o2, r.name);
    lemma_parse_string_at_quoted(s, o4, r.pid);
    // the status literal at o6 decides the status branch uniquely: the two
    // status texts differ in their first character
    if r.status == ProcessStatus::Stopped && lit_at(
        s,
        o6,
        quoted(status_chars(ProcessStatus::Running)),
    ) {
        assert(s.subrange(o6, o6 + 9)[1] == quoted(status_chars(ProcessStatus::Running))[1]);
        assert(s.subrange(o6, o6 + 9)[1] == quoted(status_chars(ProcessStatus::Stopped))[1]);
        assert(false);
    }
    assert(parse_status_at(s, o6) == Some((r.status, o7)));
    assert(s[o7] == '}') by {
        assert(s.subrange(o7, o7 + 1)[0] == p7[0]);
    }
    assert(parse_record_at(s, i) == Some((r, i + ser_record(r).len())));
}

proof fn lemma_ser_records_from_len(rs: Seq<ProcessInfoView>, i: int)
    requires
        0 <= i,
    ensures
        ser_records_from(rs, i).len() >= rs.len() - i,
    decreases rs.len() - i,
{
    if i < rs.len() && i != rs.len() - 1 {
        lemma_ser_records_from_len(rs, i + 1);
    }
}

proof fn lemma_parse_records_from_ser(
    s: Seq<char>,
    i: int,
    rs: Seq<ProcessInfoView>,
    ri: int,
    fuel: nat,
)
    requires
        wf_records(rs),
        0 <= ri < rs.len(),
        fuel >= rs.len() - ri,
        lit_at(s, i, ser_records_from(rs, ri) + seq![']']),
    ensures
        parse_records_from(s, i, fuel) == Some(
            (rs.subrange(ri, rs.len() as int), i + ser_records_from(rs, ri).len() + 1),
        ),
    decreases rs.len() - ri,
{
    assert(wf_record(rs[ri]));
    let rec = ser_record(rs[ri]);
    if ri == rs.len() - 1 {
        lemma_lit_at_concat(s, i, rec, seq![']']);
        lemma_parse_record_at_ser(s, i, rs[ri]);
        let j = i + rec.len() as int;
        assert(s[j] == ']') by {
            assert(s.subrange(j, j + 1)[0] == seq![']'][0]);
        }
        assert(rs.subrange(ri, rs.len() as int) =~= seq![rs[ri]]);
    } else {
        let rest = ser_records_from(rs, ri + 1);
        assert((rec + seq![','] + rest) + seq![']'] =~= (rec + seq![',']) + (rest + seq![']']));
        lemma_lit_at_concat(s, i, rec + seq![','], rest + seq![']']);
        lemma_lit_at_concat(s, i, rec, seq![',']);
        lemma_parse_record_at_ser(s, i, rs[ri]);
        let j = i + rec.len() as int;
        assert(s[j] == ',') by {
            assert(s.subrange(j, j + 1)[0] == seq![','][0]);
        }
        lemma_parse_records_from_ser(s, j + 1, rs, ri + 1, (fuel - 1) as nat);
        assert(seq![rs[ri]] + rs.subrange(ri + 1, rs.len() as int) =~= rs.subrange(
            ri,
            rs.len() as int,
        ));
    }
}

/// Saving then loading restores the registry: parsing the serialized form of
/// any well-formed record sequence yields exactly that sequence.
pub proof fn lemma_save_load_round_trip(rs: Seq<ProcessInfoView>)
    requires
        wf_records(rs),
    ensures
        parse_records_spec(ser_records(rs)) == Some(rs),
{
    let s = ser_records(rs);
    if rs.len() == 0 {
        assert(s =~= seq!['[', ']']);
        assert(Seq::<ProcessInfoView>::empty() =~= rs);
    } else {
        lemma_ser_records_from_len(rs, 0);
        let inner = ser_records_from(rs, 0);
        assert(s[0] == '[');
        assert(lit_at(s, 1, inner + seq![']'])) by {
            assert(s.subrange(1, s.len() as int) =~= inner + seq![']']);
        }
        lemma_parse_records_from_ser(s, 1, rs, 0, s.len() as nat);
        assert(rs.subrange(0, rs.len() as int) =~= rs);
    }
}

/// The persisted form of the empty registry is exactly the two bracket
/// characters: a clear operation always writes these same bytes, however
/// often it runs.
pub proof fn lemma_cleared_registry_serialization()
    ensures
        ser_records(Seq::<ProcessInfoView>::empty()) == seq!['[', ']'],
{
    assert(ser_records(Seq::<ProcessInfoView>::empty()) =~= seq!['[', ']']);
}

/// Whether the characters of `lit` stand in `s` at position `i`, decided
/// executably.
fn match_lit_at(s: &str, i: usize, lit: &str) -> (r: bool)
    ensures
        r == lit_at(s@, i as int, lit@),
{
    let n = s.unicode_len();
    let m = lit.unicode_len();
    if i > n || m > n - i {
        return false;
    }
    let mut j: usize = 0;
    while j < m
        invariant
            0 <= j <= m,
            i + m <= n,
            n == s@.len(),
            m == lit@.len(),
            forall|q: int| 0 <= q < j ==> s@[i + q] == lit@[q],
        decreases m - j,
    {
        if s.get_char(i + j) != lit.get_char(j) {
            proof {
                assert(s@.subrange(i as int, i + m)[j as int] != lit@[j as int]);
            }
            return false;
        }
        j = j + 1;
    }
    proof {
        assert(s@.subrange(i as int, i + m) =~= lit@);
    }
    true
}

/// Finds the closing quote of a string value whose content starts at `i`,
/// as `scan_string_end` describes.
fn scan_string_end_exec(s: &str, i: usize) -> (r: Option<usize>)
    ensures
        match r {
            Some(j) => scan_string_end(s@, i as int) == Some(j as int) && i <= j < s@.len(),
            None => scan_string_end(s@, i as int) is None,
        },
{
    let n = s.unicode_len();
    if i >= n {
        return None;
    }
    let mut k = i;
    while k < n
        invariant
            i <= k <= n,
            n == s@.len(),
            scan_string_end(s@, i as int) == scan_string_end(s@, k as int),
        decreases n - k,
    {
        let c = s.get_char(k);
        if c == '"' {
            return Some(k);
        }
        if c == '\\' || (c as u32) < 32 {
            return None;
        }
        k = k + 1;
    }
    None
}

/// Reads a quoted string value at position `i`, as `parse_string_at`
/// describes.
fn parse_string_at_exec(s: &str, i: usize) -> (r: Option<(String, usize)>)
    ensures
        match r {
            Some(p) => parse_string_at(s@, i as int) == Some((p.0@, p.1 as int)),
            None => parse_string_at(s@, i as int) is None,
        },
{
    let n = s.unicode_len();
    if i >= n {
        return None;
    }
    if s.get_char(i) != '"' {
        return None;
    }
    match scan_string_end_exec(s, i + 1) {
        None => None,
        Some(j) => {
            let content = s.substring_char(i + 1, j).to_owned();
            Some((content, j + 1))
        },
    }
}

/// Reads a quoted status value at position `i`, as `parse_status_at`
/// describes.
fn parse_status_at_exec(s: &str, i: usize) -> (r: Option<(ProcessStatus, usize)>)
    ensures
        match r {
            Some(p) => parse_status_at(s@, i as int) == Some((p.0, p.1 as int)),
            None => parse_status_at(s@, i as int) is None,
        },
{
    let n = s.unicode_len();
    proof {
        reveal_strlit("\"Running\"");
        reveal_strlit("\"Stopped\"");
        assert("\"Running\""@ =~= quoted(status_chars(ProcessStatus::Running)));
        assert("\"Stopped\""@ =~= quoted(status_chars(ProcessStatus::Stopped)));
    }
    if match_lit_at(s, i, "\"Running\"") {
        Some((ProcessStatus::Running, i + 9))
    } else if match_lit_at(s, i, "\"Stopped\"") {
        Some((ProcessStatus::Stopped, i + 9))
    } else {
        None
    }
}

/// Reads a record object at position `i`, as `parse_record_at` describes.
fn parse_record_at_exec(s: &str, i: usize) -> (r: Option<(ProcessInfo, usize)>)
    ensures
        match r {
            Some(p) => parse_record_at(s@, i as int) == Some((p.0@, p.1 as int)),
            None => parse_record_at(s@, i as int) is None,
        },
{
    let n = s.unicode_len();
    proof {
        reveal_strlit("{\"name\":");
        reveal_strlit(",\"pid\":");
        reveal_strlit(",\"status\":");
        assert("{\"name\":"@ =~= name_key_chars());
        assert(",\"pid\":"@ =~= pid_key_chars());
        assert(",\"status\":"@ =~= status_key_chars());
    }
    if !match_lit_at(s, i, "{\"name\":") {
        return None;
    }
    match parse_string_at_exec(s, i + 8) {
        None => None,
        Some((name, j)) => {
            if !match_lit_at(s, j, ",\"pid\":") {
                return None;
            }
            match parse_string_at_exec(s, j + 7) {
                None => None,
                Some((pid, k)) => {
                    if !match_lit_at(s, k, ",\"status\":") {
                        return None;
                    }
                    match parse_status_at_exec(s, k + 10) {
                        None => None,
                        Some((st, m)) => {
                            if m < n && s.get_char(m) == '}' {
                                Some((ProcessInfo { name, pid, status: st }, m + 1))
                            } else {
                                None
                            }
                        },
                    }
                },
            }
        },
    }
}

/// Reads a non-empty record list at position `i`, as `parse_records_from`
/// describes.
fn parse_records_from_exec(s: &str, i: usize, fuel: usize) -> (r: Option<(Vec<ProcessInfo>, usize)>)
    ensures
        match r {
            Some(p) => parse_records_from(s@, i as int, fuel as nat) == Some(
                (recs_view(p.0@), p.1 as int),
            ),
            None => parse_records_from(s@, i as int, fuel as nat) is None,
        },
    decreases fuel,
{
    if fuel == 0 {
        return None;
    }
    match parse_record_at_exec(s, i) {
        None => None,
        Some((rec, j)) => {
            let n = s.unicode_len();
            if j < n && s.get_char(j) == ',' {
                match parse_records_from_exec(s, j + 1, fuel - 1) {
                    None => None,
                    Some((mut rest, k)) => {
                        rest.insert(0, rec);
                        proof {
                            assert(recs_view(rest@) =~= seq![rest@[0]@] + recs_view(
                                rest@.drop_first(),
                            ));
                        }
                        Some((rest, k))
                    },
                }
            } else if j < n && s.get_char(j) == ']' {
                let mut one: Vec<ProcessInfo> = Vec::new();
                one.push(rec);
                proof {
                    assert(recs_view(one@) =~= seq![one@[0]@]);
                }
                Some((one, j + 1))
            } else {
                None
            }
        },
    }
}

/// Deserializes state-file content into its registry, as
/// `parse_records_spec` describes; content that is not a valid serialized
/// registry is refused with a data-format error.
pub fn parse_processes(contents: &str) -> (r: Result<Vec<ProcessInfo>, EggError>)
    ensures
        match r {
            Ok(v) => parse_records_spec(contents@) == Some(recs_view(v@)),
            Err(e) => parse_records_spec(contents@) is None && e.kind == ErrorKind::DataFormat
                && e.message@ == "state file data is not in a valid serialized form"@,
        },
{
    let n = contents.unicode_len();
    if n == 2 && contents.get_char(0) == '[' && contents.get_char(1) == ']' {
        let empty: Vec<ProcessInfo> = Vec::new();
        proof {
            assert(recs_view(empty@) =~= Seq::<ProcessInfoView>::empty());
        }
        return Ok(empty);
    }
    if n >= 1 && contents.get_char(0) == '[' {
        match parse_records_from_exec(contents, 1, n) {
            None => Err(get_data_format_error()),
            Some((v, k)) => if k == n {
                Ok(v)
            } else {
                Err(get_data_format_error())
            },
        }
    } else {
        Err(get_data_format_error())
    }
}

} // verus!
