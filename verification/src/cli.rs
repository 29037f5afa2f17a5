//! The run configuration model: which runner class executes, which
//! storage backend is addressed, and the validated label and storage
//! options handed in from the command line.

use vstd::prelude::*;

use crate::error::{BenchError, BenchResult};

verus! {

/// Which runner class a plan executes: the in-process runner, the
/// out-of-process interpreter runner, or both.
#[derive(Clone, Copy, Debug, PartialEq, Eq, Structural)]
pub enum RunnerMode {
    Rust,
    Python,
    All,
}

impl RunnerMode {
    pub open spec fn spec_str(self) -> Seq<char> {
        match self {
            RunnerMode::Rust => "rust"@,
            RunnerMode::Python => "python"@,
            RunnerMode::All => "all"@,
        }
    }

    pub fn as_str(self) -> (r: &'static str)
        ensures
            r@ == self.spec_str(),
    {
        match self {
            RunnerMode::Rust => "rust",
            RunnerMode::Python => "python",
            RunnerMode::All => "all",
        }
    }
}

/// The storage backends this build addresses.
#[derive(Clone, Copy, Debug, PartialEq, Eq, Structural)]
pub enum StorageBackend {
    Local,
    S3,
}

/// The parsed command line, as plain values.
#[derive(Clone, Debug, PartialEq)]
pub struct Args {
    pub fixtures_dir: String,
    pub results_dir: String,
    pub label: String,
    pub git_sha: Option<String>,
    pub storage_backend: StorageBackend,
    pub storage_options: Vec<String>,
    pub backend_profile: Option<String>,
    pub command: Command,
}

/// The subcommands, as plain values.
#[derive(Clone, Debug, PartialEq)]
pub enum Command {
    List { target: String },
    Data { scale: String, dataset_id: Option<String>, seed: u64, force: bool },
    Run {
        scale: String,
        dataset_id: Option<String>,
        target: String,
        case_filter: Option<String>,
        runner: RunnerMode,
        warmup: u32,
        iterations: u32,
    },
    Doctor,
}

/// A character a result label may hold: ASCII alphanumerics, dot,
/// hyphen and underscore.
pub open spec fn spec_label_char_ok(c: char) -> bool {
    let u = c as u32;
    (97 <= u <= 122) || (65 <= u <= 90) || (48 <= u <= 57) || u == 46 || u == 45 || u == 95
}

fn label_char_ok(c: char) -> (r: bool)
    ensures
        r == spec_label_char_ok(c),
{
    let u = c as u32;
    (97 <= u && u <= 122) || (65 <= u && u <= 90) || (48 <= u && u <= 57) || u == 46 || u == 45
        || u == 95
}

/// A label is valid when it is non-empty, not a relative-path name, and
/// made only of the allowed characters.
pub open spec fn spec_label_valid(label: Seq<char>) -> bool {
    &&& label.len() > 0
    &&& label != "."@
    &&& label != ".."@
    &&& forall|i: int| 0 <= i < label.len() ==> spec_label_char_ok(#[trigger] label[i])
}

/// Accepts exactly the valid labels; each rejection carries the error the
/// offending shape earns.
pub fn validate_label(label: &str) -> (r: BenchResult<()>)
    ensures
        r is Ok <==> spec_label_valid(label@),
        r matches Err(e) ==> e matches BenchError::InvalidArgument(m) && (m@
            == "label must not be empty"@ || m@ == "label '"@ + label@ + "' is not allowed"@ || m@
            == "label contains invalid characters; allowed: [A-Za-z0-9._-]"@),
{
    proof {
        reveal_strlit(".");
        reveal_strlit("..");
        assert("."@.len() == 1);
        assert(".."@.len() == 2);
        assert("."@[0] == '.');
        assert(".."@[0] == '.');
        assert(".."@[1] == '.');
    }
    let len = label.unicode_len();
    if len == 0 {
        return Err(BenchError::InvalidArgument("label must not be empty".to_owned()));
    }
    if crate::strutil::str_eq(label, ".") || crate::strutil::str_eq(label, "..") {
        let mut m = String::new();
        m.append("label '");
        m.append(label);
        m.append("' is not allowed");
        return Err(BenchError::InvalidArgument(m));
    }
    let mut i: usize = 0;
    while i < len
        invariant
            len == label@.len(),
            i <= len,
            forall|k: int| 0 <= k < i ==> spec_label_char_ok(#[trigger] label@[k]),
        decreases len - i,
    {
        if !label_char_ok(label.get_char(i)) {
            return Err(
                BenchError::InvalidArgument(
                    "label contains invalid characters; allowed: [A-Za-z0-9._-]".to_owned(),
                ),
            );
        }
        i += 1;
    }
    Ok(())
}


/// The position of the first occurrence of a character, if any.
pub open spec fn spec_first_char(s: Seq<char>, c: char) -> Option<int>
    decreases s.len(),
{
    if s.len() == 0 {
        None
    } else if s[0] == c {
        Some(0)
    } else {
        match spec_first_char(s.drop_first(), c) {
            Some(i) => Some(i + 1),
            None => None,
        }
    }
}

pub proof fn lemma_first_char_at(s: Seq<char>, c: char, i: int)
    requires
        0 <= i < s.len(),
        s[i] == c,
        forall|k: int| 0 <= k < i ==> s[k] != c,
    ensures
        spec_first_char(s, c) == Some(i),
    decreases i,
{
    if i == 0 {
    } else {
        assert(s[0] != c);
        assert(s.drop_first()[i - 1] == s[i]);
        assert forall|k: int| 0 <= k < i - 1 implies s.drop_first()[k] != c by {
            assert(s.drop_first()[k] == s[k + 1]);
        }
        lemma_first_char_at(s.drop_first(), c, i - 1);
    }
}

pub proof fn lemma_first_char_none(s: Seq<char>, c: char)
    requires
        forall|k: int| 0 <= k < s.len() ==> s[k] != c,
    ensures
        spec_first_char(s, c) is None,
    decreases s.len(),
{
    if s.len() > 0 {
        assert forall|k: int| 0 <= k < s.drop_first().len() implies s.drop_first()[k] != c by {
            assert(s.drop_first()[k] == s[k + 1]);
        }
        lemma_first_char_none(s.drop_first(), c);
    }
}

/// The position of the first `=` in a string, if any.
pub open spec fn spec_first_eq(s: Seq<char>) -> Option<int>
    decreases s.len(),
{
    if s.len() == 0 {
        None
    } else if s[0] == '=' {
        Some(0)
    } else {
        match spec_first_eq(s.drop_first()) {
            Some(i) => Some(i + 1),
            None => None,
        }
    }
}

proof fn lemma_first_eq_at(s: Seq<char>, i: int)
    requires
        0 <= i < s.len(),
        s[i] == '=',
        forall|k: int| 0 <= k < i ==> s[k] != '=',
    ensures
        spec_first_eq(s) == Some(i),
    decreases i,
{
    if i == 0 {
    } else {
        assert(s[0] != '=');
        assert(s.drop_first()[i - 1] == s[i]);
        assert forall|k: int| 0 <= k < i - 1 implies s.drop_first()[k] != '=' by {
            assert(s.drop_first()[k] == s[k + 1]);
        }
        lemma_first_eq_at(s.drop_first(), i - 1);
    }
}

proof fn lemma_first_eq_none(s: Seq<char>)
    requires
        forall|k: int| 0 <= k < s.len() ==> s[k] != '=',
    ensures
        spec_first_eq(s) is None,
    decreases s.len(),
{
    if s.len() > 0 {
        assert forall|k: int| 0 <= k < s.drop_first().len() implies s.drop_first()[k] != '=' by {
            assert(s.drop_first()[k] == s[k + 1]);
        }
        lemma_first_eq_none(s.drop_first());
    }
}

/// A storage option entry splits at its first `=` into a key and a value.
pub open spec fn spec_entry_split(s: Seq<char>) -> Option<(Seq<char>, Seq<char>)> {
    match spec_first_eq(s) {
        Some(i) => Some((s.subrange(0, i), s.subrange(i + 1, s.len() as int))),
        None => None,
    }
}

fn find_first_eq(s: &str) -> (r: Option<usize>)
    ensures
        match r {
            Some(i) => i < s@.len() && spec_first_eq(s@) == Some(i as int),
            None => spec_first_eq(s@) is None,
        },
{
    let len = s.unicode_len();
    let mut i: usize = 0;
    while i < len
        invariant
            len == s@.len(),
            i <= len,
            forall|k: int| 0 <= k < i ==> s@[k] != '=',
        decreases len - i,
    {
        if s.get_char(i) == '=' {
            proof {
                lemma_first_eq_at(s@, i as int);
            }
            return Some(i);
        }
        i += 1;
    }
    proof {
        lemma_first_eq_none(s@);
    }
    None
}

pub open spec fn spec_is_space(c: char) -> bool {
    c == ' ' || c == '\t' || c == '\n' || c == '\r'
}

/// The string with leading and trailing ASCII whitespace removed.
pub open spec fn spec_trim(s: Seq<char>) -> Seq<char>
    decreases s.len(),
{
    if s.len() == 0 {
        s
    } else if spec_is_space(s[0]) {
        spec_trim(s.drop_first())
    } else if spec_is_space(s.last()) {
        spec_trim(s.drop_last())
    } else {
        s
    }
}

fn is_space(c: char) -> (r: bool)
    ensures
        r == spec_is_space(c),
{
    c == ' ' || c == '\t' || c == '\n' || c == '\r'
}

/// Removes leading and trailing ASCII whitespace, exactly as `spec_trim`
/// states.
pub fn trim_ascii(s: &str) -> (r: String)
    ensures
        r@ == spec_trim(s@),
{
    let len = s.unicode_len();
    let mut start: usize = 0;
    proof {
        assert(s@.skip(0) =~= s@);
    }
    while start < len && is_space(s.get_char(start))
        invariant
            len == s@.len(),
            start <= len,
            spec_trim(s@) == spec_trim(s@.skip(start as int)),
            forall|k: int| 0 <= k < start ==> spec_is_space(#[trigger] s@[k]),
        decreases len - start,
    {
        proof {
            assert(s@.skip(start as int)[0] == s@[start as int]);
            assert(s@.skip(start as int).drop_first() =~= s@.skip(start + 1));
        }
        start += 1;
    }
    let mut end: usize = len;
    proof {
        assert(s@.subrange(start as int, len as int) =~= s@.skip(start as int));
    }
    while end > start && is_space(s.get_char(end - 1))
        invariant
            len == s@.len(),
            start <= end <= len,
            spec_trim(s@) == spec_trim(s@.subrange(start as int, end as int)),
            start < len ==> !spec_is_space(s@[start as int]),
        decreases end,
    {
        proof {
            let seg = s@.subrange(start as int, end as int);
            assert(seg.last() == s@[end - 1]);
            assert(seg.len() > 0);
            assert(seg[0] == s@[start as int]);
            assert(!spec_is_space(seg[0]));
            assert(seg.drop_last() =~= s@.subrange(start as int, end - 1));
        }
        end -= 1;
    }
    let mut r = String::new();
    let mut i: usize = start;
    while i < end
        invariant
            len == s@.len(),
            start <= i <= end <= len,
            r@ =~= s@.subrange(start as int, i as int),
        decreases end - i,
    {
        let c = s.get_char(i);
        r.push(c);
        proof {
            assert(r@ =~= s@.subrange(start as int, i + 1));
        }
        i += 1;
    }
    proof {
        let seg = s@.subrange(start as int, end as int);
        if seg.len() > 0 {
            assert(!spec_is_space(seg[0]));
            assert(seg.last() == s@[end - 1]);
        }
        assert(spec_trim(seg) == seg);
    }
    r
}

pub open spec fn spec_option_entry_error(entry: Seq<char>, reason: Seq<char>) -> Seq<char> {
    "invalid storage option '"@ + entry + "'; "@ + reason
}

/// How one storage option entry parses: a key/value pair, or the exact
/// rejection it earns.
pub open spec fn spec_parse_entry(entry: Seq<char>) -> Result<(Seq<char>, Seq<char>), Seq<char>> {
    match spec_entry_split(entry) {
        None => Err(spec_option_entry_error(entry, "expected KEY=VALUE"@)),
        Some((key, value)) => if spec_trim(key).len() == 0 {
            Err(spec_option_entry_error(entry, "key must not be empty"@))
        } else {
            Ok((spec_trim(key), value))
        },
    }
}

pub fn substring_chars(s: &str, from: usize, to: usize) -> (r: String)
    requires
        from <= to <= s@.len(),
    ensures
        r@ == s@.subrange(from as int, to as int),
{
    let mut r = String::new();
    let mut i: usize = from;
    while i < to
        invariant
            from <= i <= to <= s@.len(),
            r@ =~= s@.subrange(from as int, i as int),
        decreases to - i,
    {
        let c = s.get_char(i);
        r.push(c);
        proof {
            assert(r@ =~= s@.subrange(from as int, i + 1));
        }
        i += 1;
    }
    r
}

/// Parses `KEY=VALUE` entries in order: each key is trimmed and must be
/// non-empty; the first malformed entry decides the error. Pairs are
/// returned in entry order, duplicates kept.
pub fn parse_storage_options(entries: &[String]) -> (r: BenchResult<Vec<(String, String)>>)
    ensures
        match r {
            Ok(pairs) => {
                &&& pairs@.len() == entries@.len()
                &&& forall|i: int|
                    0 <= i < entries@.len() ==> (spec_parse_entry(#[trigger] entries@[i]@) matches Ok(
                        kv,
                    ) && pairs@[i].0@ == kv.0 && pairs@[i].1@ == kv.1)
            },
            Err(e) => exists|i: int|
                {
                    &&& 0 <= i < entries@.len()
                    &&& #[trigger] spec_parse_entry(entries@[i]@) matches Err(m)
                    &&& e matches BenchError::InvalidArgument(em) && em@ == m
                    &&& forall|k: int| 0 <= k < i ==> spec_parse_entry(#[trigger] entries@[k]@) is Ok
                },
        },
{
    let len = entries.len();
    let mut out: Vec<(String, String)> = Vec::new();
    let mut i: usize = 0;
    while i < len
        invariant
            len == entries@.len(),
            i <= len,
            out@.len() == i as nat,
            forall|k: int|
                0 <= k < i ==> (spec_parse_entry(#[trigger] entries@[k]@) matches Ok(kv)
                    && out@[k].0@ == kv.0 && out@[k].1@ == kv.1),
        decreases len - i,
    {
        let entry = &entries[i];
        let eq_pos = match find_first_eq(entry.as_str()) {
            Some(p) => p,
            None => {
                let mut m = String::new();
                m.append("invalid storage option '");
                m.append(entry.as_str());
                m.append("'; ");
                m.append("expected KEY=VALUE");
                proof {
                    let ev = entries@[i as int]@;
                    assert(spec_first_eq(ev) is None);
                    assert(spec_parse_entry(ev) matches Err(mm) && mm =~= m@);
                }
                return Err(BenchError::InvalidArgument(m));
            },
        };
        let entry_len = entry.as_str().unicode_len();
        proof {
            assert(eq_pos < entry@.len());
        }
        let raw_key = substring_chars(entry.as_str(), 0, eq_pos);
        let value = substring_chars(entry.as_str(), eq_pos + 1, entry_len);
        let key = trim_ascii(raw_key.as_str());
        if key.as_str().unicode_len() == 0 {
            let mut m = String::new();
            m.append("invalid storage option '");
            m.append(entry.as_str());
            m.append("'; ");
            m.append("key must not be empty");
            proof {
                let ev = entries@[i as int]@;
                assert(spec_parse_entry(ev) matches Err(mm) && mm =~= m@);
            }
            return Err(BenchError::InvalidArgument(m));
        }
        out.push((key, value));
        i += 1;
    }
    Ok(out)
}

} // verus!
