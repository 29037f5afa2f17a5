//! Host-introspection helpers the run context is filled from: the NUMA
//! topology summary parsed from tool output, CPU-info field extraction,
//! and the override-or-digest rule for hardening-profile fingerprints.
//! Reading files and running tools happens outside the library; only
//! the parsing and the decision rules live here.

use vstd::prelude::*;

use crate::cli::trim_ascii;
use crate::strutil::{spec_dec_digits, str_eq, u64_to_string};

verus! {

/// What a hardening or egress fingerprint resolves to: the digest of
/// the file's bytes.
pub uninterp spec fn sha256_hex_of(b: Seq<u8>) -> Seq<char>;

/// Relies on sha2::Sha256: the digest depends on the bytes alone, and
/// its lowercase hex rendering is 64 digits long.
#[verifier::external_body]
fn sha256_hex(bytes: &Vec<u8>) -> (r: String)
    ensures
        r@ == sha256_hex_of(bytes@),
        r@.len() == 64,
{
    let digest = <sha2::Sha256 as sha2::Digest>::digest(bytes.as_slice());
    format!("{:x}", digest)
}

/// The override-or-digest rule for a machine-fidelity fingerprint: an
/// explicit override wins; otherwise the file's bytes are digested;
/// with neither, the field stays absent.
pub fn fidelity_digest(override_value: Option<String>, contents: Option<Vec<u8>>) -> (r: Option<
    String,
>)
    ensures
        override_value matches Some(v) ==> (r matches Some(s) && s@ == v@),
        override_value is None ==> (contents matches Some(b) ==> (r matches Some(s) && s@
            == sha256_hex_of(b@))),
        override_value is None && contents is None ==> r is None,
{
    match override_value {
        Some(v) => Some(v),
        None => match contents {
            Some(b) => Some(sha256_hex(&b)),
            None => None,
        },
    }
}

fn find_colon(s: &str) -> (r: Option<usize>)
    ensures
        r matches Some(i) ==> i < s@.len(),
        match r {
            Some(i) => crate::cli::spec_first_char(s@, ':') == Some(i as int),
            None => crate::cli::spec_first_char(s@, ':') is None,
        },
{
    let len = s.unicode_len();
    let mut i: usize = 0;
    while i < len
        invariant
            len == s@.len(),
            i <= len,
            forall|k: int| 0 <= k < i ==> s@[k] != ':',
        decreases len - i,
    {
        if s.get_char(i) == ':' {
            proof {
                crate::cli::lemma_first_char_at(s@, ':', i as int);
            }
            return Some(i);
        }
        i += 1;
    }
    proof {
        crate::cli::lemma_first_char_none(s@, ':');
    }
    None
}

pub open spec fn spec_starts_with(s: Seq<char>, prefix: Seq<char>) -> bool {
    prefix.len() <= s.len() && s.subrange(0, prefix.len() as int) == prefix
}

pub open spec fn spec_ends_with(s: Seq<char>, suffix: Seq<char>) -> bool {
    suffix.len() <= s.len() && s.subrange(s.len() - suffix.len(), s.len() as int) == suffix
}

fn starts_with(s: &str, prefix: &str) -> (r: bool)
    ensures
        r == spec_starts_with(s@, prefix@),
{
    let plen = prefix.unicode_len();
    let slen = s.unicode_len();
    if plen > slen {
        return false;
    }
    let mut i: usize = 0;
    while i < plen
        invariant
            plen == prefix@.len(),
            slen == s@.len(),
            plen <= slen,
            i <= plen,
            forall|k: int| 0 <= k < i ==> s@[k] == prefix@[k],
        decreases plen - i,
    {
        if s.get_char(i) != prefix.get_char(i) {
            proof {
                assert(s@.subrange(0, plen as int)[i as int] != prefix@[i as int]);
            }
            return false;
        }
        i += 1;
    }
    proof {
        assert(s@.subrange(0, plen as int) =~= prefix@);
    }
    true
}

fn ends_with(s: &str, suffix: &str) -> (r: bool)
    ensures
        r == spec_ends_with(s@, suffix@),
{
    let xlen = suffix.unicode_len();
    let slen = s.unicode_len();
    if xlen > slen {
        return false;
    }
    let start = slen - xlen;
    let mut i: usize = 0;
    while i < xlen
        invariant
            xlen == suffix@.len(),
            slen == s@.len(),
            start == slen - xlen,
            i <= xlen,
            forall|k: int| 0 <= k < i ==> s@[start + k] == suffix@[k],
        decreases xlen - i,
    {
        if s.get_char(start + i) != suffix.get_char(i) {
            proof {
                assert(s@.subrange(start as int, slen as int)[i as int] != suffix@[i as int]);
            }
            return false;
        }
        i += 1;
    }
    proof {
        assert(s@.subrange(start as int, slen as int) =~= suffix@);
    }
    true
}

/// The end of the line that starts at `p`: the next newline or the end.
pub open spec fn spec_nl_end(s: Seq<char>, p: int) -> int
    decreases s.len() - p,
{
    if p < 0 || p >= s.len() {
        s.len() as int
    } else if s[p] == '\n' {
        p
    } else {
        spec_nl_end(s, p + 1)
    }
}

/// The text split at newlines, from position `p` on; a trailing newline
/// yields a final empty line, as line-by-line tool output reads.
pub open spec fn spec_lines_of(s: Seq<char>, p: int) -> Seq<Seq<char>>
    decreases s.len() - p,
{
    if p < 0 || p > s.len() {
        Seq::empty()
    } else {
        let e = spec_nl_end(s, p);
        if !(p <= e <= s.len()) {
            Seq::empty()
        } else if e >= s.len() {
            seq![s.subrange(p, s.len() as int)]
        } else {
            seq![s.subrange(p, e)] + spec_lines_of(s, e + 1)
        }
    }
}

#[verifier::loop_isolation(false)]
fn split_lines(content: &str) -> (r: Vec<String>)
    ensures
        r.deep_view() == spec_lines_of(content@, 0),
{
    let len = content.unicode_len();
    let mut out: Vec<String> = Vec::new();
    let mut start: usize = 0;
    let mut i: usize = 0;
    proof {
        if spec_lines_of(content@, 0).len() >= 0 {
            assert(Seq::<Seq<char>>::empty() + spec_lines_of(content@, 0) =~= spec_lines_of(
                content@,
                0,
            ));
        }
    }
    while i < len
        invariant
            start <= i <= len,
            forall|k: int| start <= k < i ==> content@[k] != '\n',
            out.deep_view() + spec_lines_of(content@, start as int) == spec_lines_of(content@, 0),
        decreases len - i,
    {
        if content.get_char(i) == '\n' {
            proof {
                assert(spec_nl_end(content@, start as int) == i as int) by {
                    lemma_nl_end_at(content@, start as int, i as int);
                }
            }
            let ghost out0 = out.deep_view();
            let line = crate::cli::substring_chars(content, start, i);
            let ghost linev = line@;
            out.push(line);
            proof {
                assert(out.deep_view() =~= out0.push(linev));
                if spec_lines_of(content@, i + 1).len() >= 0 {
                    assert(out0 + (seq![linev] + spec_lines_of(content@, i + 1)) =~= out0.push(
                        linev,
                    ) + spec_lines_of(content@, i + 1));
                }
            }
            start = i + 1;
        }
        i += 1;
    }
    proof {
        assert(spec_nl_end(content@, start as int) == len as int) by {
            lemma_nl_end_at(content@, start as int, len as int);
        }
    }
    let ghost out0 = out.deep_view();
    let last = crate::cli::substring_chars(content, start, len);
    let ghost lastv = last@;
    out.push(last);
    proof {
        assert(out.deep_view() =~= out0.push(lastv));
        assert(spec_lines_of(content@, start as int) =~= seq![lastv]);
        assert(out0 + seq![lastv] =~= out0.push(lastv));
    }
    out
}

proof fn lemma_nl_end_at(s: Seq<char>, p: int, e: int)
    requires
        0 <= p <= e <= s.len(),
        forall|k: int| p <= k < e ==> s[k] != '\n',
        e == s.len() || s[e] == '\n',
    ensures
        spec_nl_end(s, p) == e,
    decreases e - p,
{
    if p < e {
        lemma_nl_end_at(s, p + 1, e);
    }
}

/// The first `key: value` reading among the lines from `i` on whose key
/// trims to the field name and whose value trims to something
/// non-empty: that trimmed value.
pub open spec fn spec_cpu_field_in_lines(
    lines: Seq<Seq<char>>,
    i: int,
    field: Seq<char>,
) -> Option<Seq<char>>
    decreases lines.len() - i,
{
    if i < 0 || i >= lines.len() {
        None
    } else {
        let line = lines[i];
        match crate::cli::spec_first_char(line, ':') {
            Some(p) => {
                let key = crate::cli::spec_trim(line.subrange(0, p));
                let value = crate::cli::spec_trim(line.subrange(p + 1, line.len() as int));
                if key == field && value.len() > 0 {
                    Some(value)
                } else {
                    spec_cpu_field_in_lines(lines, i + 1, field)
                }
            },
            None => spec_cpu_field_in_lines(lines, i + 1, field),
        }
    }
}

/// The value the CPU-info extraction returns for a field name.
pub open spec fn spec_cpu_info_field(content: Seq<char>, field: Seq<char>) -> Option<Seq<char>> {
    spec_cpu_field_in_lines(spec_lines_of(content, 0), 0, field)
}

/// The first value of a `key: value` line whose key trims to the given
/// field name and whose value trims to something non-empty, exactly as
/// `spec_cpu_info_field` states.
#[verifier::loop_isolation(false)]
pub fn cpu_info_field_in(content: &str, field_name: &str) -> (r: Option<String>)
    ensures
        match r {
            Some(v) => spec_cpu_info_field(content@, field_name@) == Some(v@) && v@.len() > 0,
            None => spec_cpu_info_field(content@, field_name@) is None,
        },
{
    let lines = split_lines(content);
    let ghost lv = lines.deep_view();
    let count = lines.len();
    let mut i: usize = 0;
    while i < count
        invariant
            count == lines@.len(),
            i <= count,
            lv.len() == count,
            spec_cpu_field_in_lines(lv, i as int, field_name@) == spec_cpu_field_in_lines(
                lv,
                0,
                field_name@,
            ),
        decreases count - i,
    {
        let line = &lines[i];
        proof {
            assert(lv[i as int] == line@);
        }
        match find_colon(line.as_str()) {
            Some(p) => {
                let llen = line.as_str().unicode_len();
                let raw_key = crate::cli::substring_chars(line.as_str(), 0, p);
                let key = trim_ascii(raw_key.as_str());
                if str_eq(key.as_str(), field_name) {
                    let raw_value = crate::cli::substring_chars(line.as_str(), p + 1, llen);
                    let value = trim_ascii(raw_value.as_str());
                    if value.as_str().unicode_len() > 0 {
                        proof {
                            assert(spec_cpu_field_in_lines(lv, i as int, field_name@) == Some(
                                value@,
                            ));
                        }
                        return Some(value);
                    }
                    proof {
                        assert(spec_cpu_field_in_lines(lv, i as int, field_name@)
                            == spec_cpu_field_in_lines(lv, i + 1, field_name@));
                    }
                } else {
                    proof {
                        assert(spec_cpu_field_in_lines(lv, i as int, field_name@)
                            == spec_cpu_field_in_lines(lv, i + 1, field_name@));
                    }
                }
            },
            None => {
                proof {
                    assert(spec_cpu_field_in_lines(lv, i as int, field_name@)
                        == spec_cpu_field_in_lines(lv, i + 1, field_name@));
                }
            },
        }
        i += 1;
    }
    None
}

/// The node-count value and the per-node CPU-list details among the
/// lines from `i` on: the last `NUMA node(s)` value wins, and every
/// `NUMA node...CPU(s)` line contributes `key=value`, in input order.
pub open spec fn spec_numa_scan(lines: Seq<Seq<char>>, i: int) -> (Option<Seq<char>>, Seq<
    Seq<char>,
>)
    decreases lines.len() - i,
{
    if i < 0 || i >= lines.len() {
        (None, Seq::empty())
    } else {
        let rest = spec_numa_scan(lines, i + 1);
        let line = lines[i];
        match crate::cli::spec_first_char(line, ':') {
            Some(p) => {
                let key = crate::cli::spec_trim(line.subrange(0, p));
                let value = crate::cli::spec_trim(line.subrange(p + 1, line.len() as int));
                if key == "NUMA node(s)"@ {
                    (
                        if rest.0 is Some {
                            rest.0
                        } else {
                            Some(value)
                        },
                        rest.1,
                    )
                } else if spec_starts_with(key, "NUMA node"@) && spec_ends_with(key, "CPU(s)"@) {
                    (rest.0, seq![key + "="@ + value] + rest.1)
                } else {
                    rest
                }
            },
            None => rest,
        }
    }
}

/// The details joined after the node count, each prefixed by a
/// separator.
pub open spec fn spec_join_details(details: Seq<Seq<char>>, j: int) -> Seq<char>
    decreases details.len() - j,
{
    if j < 0 || j >= details.len() {
        Seq::empty()
    } else {
        "; "@ + details[j] + spec_join_details(details, j + 1)
    }
}

/// The NUMA summary of the tool output: nothing without a `NUMA
/// node(s)` line, else `nodes=` with its last value and every per-node
/// CPU list appended in input order.
pub open spec fn spec_numa_summary(content: Seq<char>) -> Option<Seq<char>> {
    let scan = spec_numa_scan(spec_lines_of(content, 0), 0);
    match scan.0 {
        None => None,
        Some(n) => Some("nodes="@ + n + spec_join_details(scan.1, 0)),
    }
}

/// Summarizes NUMA topology from `key: value` tool output, exactly as
/// `spec_numa_summary` states: the node count, then each per-node CPU
/// list, in input order.
#[verifier::loop_isolation(false)]
pub fn parse_lscpu_numa(content: &str) -> (r: Option<String>)
    ensures
        match r {
            Some(s) => spec_numa_summary(content@) == Some(s@) && s@.len() > 0,
            None => spec_numa_summary(content@) is None,
        },
{
    proof {
        reveal_strlit("nodes=");
        assert("nodes="@.len() == 6);
    }
    let lines = split_lines(content);
    let ghost lv = lines.deep_view();
    let count = lines.len();
    let mut nodes: Option<String> = None;
    let mut details: Vec<String> = Vec::new();
    let mut i: usize = 0;
    while i < count
        invariant
            count == lines@.len(),
            i <= count,
            lv.len() == count,
            spec_numa_scan(lv, 0).0 == (if spec_numa_scan(lv, i as int).0 is Some {
                spec_numa_scan(lv, i as int).0
            } else {
                match nodes {
                    Some(n) => Some(n@),
                    None => None,
                }
            }),
            spec_numa_scan(lv, 0).1 == details.deep_view() + spec_numa_scan(lv, i as int).1,
        decreases count - i,
    {
        let ghost scan_i = spec_numa_scan(lv, i as int);
        let ghost scan_n = spec_numa_scan(lv, i + 1);
        let line = &lines[i];
        proof {
            assert(lv[i as int] == line@);
        }
        match find_colon(line.as_str()) {
            Some(p) => {
                let llen = line.as_str().unicode_len();
                let raw_key = crate::cli::substring_chars(line.as_str(), 0, p);
                let key = trim_ascii(raw_key.as_str());
                let raw_value = crate::cli::substring_chars(line.as_str(), p + 1, llen);
                let value = trim_ascii(raw_value.as_str());
                if str_eq(key.as_str(), "NUMA node(s)") {
                    nodes = Some(value);
                    proof {
                        assert(scan_i.0 == (if scan_n.0 is Some {
                            scan_n.0
                        } else {
                            Some(value@)
                        }));
                        assert(scan_i.1 == scan_n.1);
                    }
                } else if starts_with(key.as_str(), "NUMA node") && ends_with(
                    key.as_str(),
                    "CPU(s)",
                ) {
                    let mut detail = String::new();
                    detail.append(key.as_str());
                    detail.append("=");
                    detail.append(value.as_str());
                    proof {
                        assert(detail@ == key@ + "="@ + value@);
                        assert(scan_i.0 == scan_n.0);
                        assert(scan_i.1 == seq![key@ + "="@ + value@] + scan_n.1);
                    }
                    let ghost d0 = details.deep_view();
                    let ghost dv = detail@;
                    details.push(detail);
                    proof {
                        assert(details.deep_view() =~= d0.push(dv));
                        assert(d0 + (seq![dv] + scan_n.1) =~= d0.push(dv) + scan_n.1);
                    }
                } else {
                    proof {
                        assert(scan_i == scan_n);
                    }
                }
            },
            None => {
                proof {
                    assert(scan_i == scan_n);
                }
            },
        }
        i += 1;
    }
    proof {
        assert(spec_numa_scan(lv, count as int).0 is None);
        assert(spec_numa_scan(lv, count as int).1 =~= Seq::<Seq<char>>::empty());
        assert(details.deep_view() + Seq::<Seq<char>>::empty() =~= details.deep_view());
    }
    let node_text = match nodes {
        Some(n) => n,
        None => {
            return None;
        },
    };
    let mut out = String::new();
    out.append("nodes=");
    out.append(node_text.as_str());
    let ghost dvfull = details.deep_view();
    let dcount = details.len();
    let mut j: usize = 0;
    proof {
        assert(out@ =~= "nodes="@ + node_text@);
    }
    while j < dcount
        invariant
            dcount == details@.len(),
            j <= dcount,
            dvfull.len() == dcount,
            dvfull == details.deep_view(),
            out@.len() >= 6,
            out@ + spec_join_details(dvfull, j as int) == "nodes="@ + node_text@
                + spec_join_details(dvfull, 0),
        decreases dcount - j,
    {
        let ghost out0 = out@;
        out.append("; ");
        out.append(details[j].as_str());
        proof {
            assert(dvfull[j as int] == details@[j as int]@);
            assert(out@ =~= out0 + "; "@ + dvfull[j as int]);
            assert(out0 + ("; "@ + dvfull[j as int] + spec_join_details(dvfull, j + 1)) =~= out@
                + spec_join_details(dvfull, j + 1));
        }
        j += 1;
    }
    proof {
        assert(spec_join_details(dvfull, dcount as int) =~= Seq::<char>::empty());
        assert(out@ + Seq::<char>::empty() =~= out@);
        assert(out@ =~= "nodes="@ + node_text@ + spec_join_details(dvfull, 0));
    }
    Some(out)
}

/// The node-count fallback summary when the tool output is unusable: a
/// positive count of node entries.
pub fn numa_nodes_summary(count: u64) -> (r: Option<String>)
    ensures
        count > 0 ==> (r matches Some(s) && s@ == "nodes="@ + spec_dec_digits(count as nat)),
        count == 0 ==> r is None,
{
    if count == 0 {
        return None;
    }
    let mut out = String::new();
    out.append("nodes=");
    let n = u64_to_string(count);
    out.append(n.as_str());
    Some(out)
}

/// What a doctor check reports about the engine checkout under test.
#[derive(Clone, Debug, PartialEq)]
pub struct DeltaRsCheckoutInfo {
    pub checkout_dir: String,
    pub checkout_present: bool,
    pub core_present: bool,
}

} // verus!
