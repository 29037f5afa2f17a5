//! Storage/backend configuration: the validated table-root URL text,
//! fixture and isolated table locations built under it, and backend
//! profile parsing. The engine-facing open calls live outside the
//! library; this module owns the rules they are configured with.

use vstd::prelude::*;

use crate::cli::{trim_ascii, StorageBackend};
use crate::error::{BenchError, BenchResult};
use crate::strutil::{spec_lower, lower_ascii, str_eq};

verus! {

pub const TABLE_ROOT_KEY: &'static str = "table_root";

/// Whether `url::Url::parse` accepts this text; the outcome depends on
/// the characters alone.
pub uninterp spec fn spec_url_parse_ok(s: Seq<char>) -> bool;

/// Relies on url::Url::parse: accepts exactly the absolute URLs the
/// crate accepts, and hands back the parser's own message on rejection.
#[verifier::external_body]
fn check_url_syntax(s: &str) -> (r: Result<(), String>)
    ensures
        r is Ok <==> spec_url_parse_ok(s@),
{
    match url::Url::parse(s) {
        Ok(_) => Ok(()),
        Err(e) => Err(e.to_string()),
    }
}

/// The scheme part of a URL text: the characters before the first
/// colon, lowercased; none when no colon occurs.
pub open spec fn spec_scheme_of(s: Seq<char>) -> Option<Seq<char>> {
    match crate::cli::spec_first_char(s, ':') {
        Some(i) => Some(spec_lower(s.subrange(0, i))),
        None => None,
    }
}

/// Extracts the scheme, exactly as `spec_scheme_of` states.
pub fn scheme_of(s: &str) -> (r: Option<String>)
    ensures
        match r {
            Some(sch) => spec_scheme_of(s@) == Some(sch@),
            None => spec_scheme_of(s@) is None,
        },
{
    let len = s.unicode_len();
    let mut i: usize = 0;
    while i < len
        invariant
            len == s@.len(),
            i <= len,
            forall|k: int| 0 <= k < i ==> s@[k] != ':',
        decreases len - i,
    {
        if s.get_char(i) == ':' {
            proof {
                crate::cli::lemma_first_char_at(s@, ':', i as int);
            }
            let prefix = crate::cli::substring_chars(s, 0, i);
            let lowered = lower_ascii(prefix.as_str());
            return Some(lowered);
        }
        i += 1;
    }
    proof {
        crate::cli::lemma_first_char_none(s@, ':');
    }
    None
}

/// The last value set for a key, as a map built by later-wins insertion
/// would hold it.
pub open spec fn spec_last_value(opts: Seq<(Seq<char>, Seq<char>)>, key: Seq<char>) -> Option<
    Seq<char>,
>
    decreases opts.len(),
{
    if opts.len() == 0 {
        None
    } else if opts.last().0 == key {
        Some(opts.last().1)
    } else {
        spec_last_value(opts.drop_last(), key)
    }
}

pub open spec fn spec_opts_view(opts: Seq<(String, String)>) -> Seq<(Seq<char>, Seq<char>)> {
    Seq::new(opts.len(), |i: int| (opts[i].0@, opts[i].1@))
}

/// Finds the last value set for a key, exactly as `spec_last_value`
/// states.
fn last_value<'a>(opts: &'a Vec<(String, String)>, key: &str) -> (r: Option<&'a String>)
    ensures
        match r {
            Some(v) => spec_last_value(spec_opts_view(opts@), key@) == Some(v@),
            None => spec_last_value(spec_opts_view(opts@), key@) is None,
        },
{
    let len = opts.len();
    let mut i: usize = len;
    proof {
        assert(spec_opts_view(opts@).take(len as int) =~= spec_opts_view(opts@));
    }
    while i > 0
        invariant
            len == opts@.len(),
            i <= len,
            spec_last_value(spec_opts_view(opts@), key@) == spec_last_value(
                spec_opts_view(opts@).take(i as int),
                key@,
            ),
        decreases i,
    {
        i -= 1;
        proof {
            assert(spec_opts_view(opts@).take(i + 1).last() == spec_opts_view(opts@)[i as int]);
            assert(spec_opts_view(opts@).take(i + 1).drop_last() =~= spec_opts_view(opts@).take(
                i as int,
            ));
        }
        if str_eq(opts[i].0.as_str(), key) {
            return Some(&opts[i].1);
        }
    }
    proof {
        assert(spec_opts_view(opts@).take(0).len() == 0);
    }
    None
}

/// The options without any binding of a key.
pub open spec fn spec_opts_without(
    opts: Seq<(Seq<char>, Seq<char>)>,
    key: Seq<char>,
) -> Seq<(Seq<char>, Seq<char>)>
    decreases opts.len(),
{
    if opts.len() == 0 {
        Seq::empty()
    } else {
        let rest = spec_opts_without(opts.drop_first(), key);
        if opts[0].0 == key {
            rest
        } else {
            seq![opts[0]] + rest
        }
    }
}

proof fn lemma_opts_without_push(
    opts: Seq<(Seq<char>, Seq<char>)>,
    x: (Seq<char>, Seq<char>),
    key: Seq<char>,
)
    ensures
        spec_opts_without(opts.push(x), key) =~= spec_opts_without(opts, key) + if x.0 == key {
            Seq::empty()
        } else {
            seq![x]
        },
    decreases opts.len(),
{
    reveal_with_fuel(spec_opts_without, 3);
    if opts.len() == 0 {
        assert(opts.push(x) =~= seq![x]);
        assert(seq![x][0] == x);
        assert(seq![x].drop_first() =~= Seq::<(Seq<char>, Seq<char>)>::empty());
    } else {
        assert(opts.push(x)[0] == opts[0]);
        assert(opts.push(x).drop_first() =~= opts.drop_first().push(x));
        lemma_opts_without_push(opts.drop_first(), x, key);
    }
}

/// A character kept as-is in a generated table-name component.
pub open spec fn spec_component_char_ok(c: char) -> bool {
    let u = c as u32;
    (97 <= u <= 122) || (65 <= u <= 90) || (48 <= u <= 57) || c == '-' || c == '_' || c == '.'
}

pub open spec fn spec_sanitize_mapped(s: Seq<char>) -> Seq<char> {
    s.map(
        |_i: int, c: char|
            if spec_component_char_ok(c) {
                c
            } else {
                '_'
            },
    )
}

/// The mapped text with leading and trailing underscores removed.
pub open spec fn spec_trim_underscores(s: Seq<char>) -> Seq<char>
    decreases s.len(),
{
    if s.len() == 0 {
        s
    } else if s[0] == '_' {
        spec_trim_underscores(s.drop_first())
    } else if s.last() == '_' {
        spec_trim_underscores(s.drop_last())
    } else {
        s
    }
}

/// An isolation key as it may appear in a generated table name: every
/// disallowed character becomes an underscore, outer underscores are
/// trimmed, and an empty result falls back to a fixed name.
pub open spec fn spec_sanitized_component(s: Seq<char>) -> Seq<char> {
    if spec_trim_underscores(spec_sanitize_mapped(s)).len() == 0 {
        "table"@
    } else {
        spec_trim_underscores(spec_sanitize_mapped(s))
    }
}

/// Sanitizes a path component, exactly as `spec_sanitized_component`
/// states.
pub fn sanitize_path_component(value: &str) -> (r: String)
    ensures
        r@ == spec_sanitized_component(value@),
{
    let len = value.unicode_len();
    let mut mapped = String::new();
    let mut i: usize = 0;
    while i < len
        invariant
            len == value@.len(),
            i <= len,
            mapped@ =~= spec_sanitize_mapped(value@).take(i as int),
        decreases len - i,
    {
        let c = value.get_char(i);
        let u = c as u32;
        let ok = (97 <= u && u <= 122) || (65 <= u && u <= 90) || (48 <= u && u <= 57) || c == '-'
            || c == '_' || c == '.';
        if ok {
            mapped.push(c);
        } else {
            mapped.push('_');
        }
        proof {
            assert(mapped@ =~= spec_sanitize_mapped(value@).take(i + 1));
        }
        i += 1;
    }
    proof {
        assert(spec_sanitize_mapped(value@).take(len as int) =~= spec_sanitize_mapped(value@));
    }
    let mlen = mapped.as_str().unicode_len();
    let mut start: usize = 0;
    proof {
        assert(mapped@.skip(0) =~= mapped@);
    }
    while start < mlen && mapped.as_str().get_char(start) == '_'
        invariant
            mlen == mapped@.len(),
            start <= mlen,
            spec_trim_underscores(mapped@) == spec_trim_underscores(mapped@.skip(start as int)),
        decreases mlen - start,
    {
        proof {
            assert(mapped@.skip(start as int)[0] == mapped@[start as int]);
            assert(mapped@.skip(start as int).drop_first() =~= mapped@.skip(start + 1));
        }
        start += 1;
    }
    let mut end: usize = mlen;
    proof {
        assert(mapped@.subrange(start as int, mlen as int) =~= mapped@.skip(start as int));
    }
    while end > start && mapped.as_str().get_char(end - 1) == '_'
        invariant
            mlen == mapped@.len(),
            start <= end <= mlen,
            spec_trim_underscores(mapped@) == spec_trim_underscores(
                mapped@.subrange(start as int, end as int),
            ),
            start < mlen ==> mapped@[start as int] != '_',
        decreases end,
    {
        proof {
            let seg = mapped@.subrange(start as int, end as int);
            assert(seg.last() == mapped@[end - 1]);
            assert(seg[0] == mapped@[start as int]);
            assert(seg.drop_last() =~= mapped@.subrange(start as int, end - 1));
        }
        end -= 1;
    }
    proof {
        let seg = mapped@.subrange(start as int, end as int);
        if seg.len() > 0 {
            assert(seg[0] == mapped@[start as int]);
            assert(seg.last() == mapped@[end - 1]);
        }
        assert(spec_trim_underscores(seg) == seg);
    }
    if start == end {
        proof {
            reveal_strlit("table");
        }
        return "table".to_owned();
    }
    let trimmed = crate::cli::substring_chars(mapped.as_str(), start, end);
    trimmed
}

/// The root text with trailing slashes removed.
pub open spec fn spec_trim_trailing_slashes(s: Seq<char>) -> Seq<char>
    decreases s.len(),
{
    if s.len() > 0 && s.last() == '/' {
        spec_trim_trailing_slashes(s.drop_last())
    } else {
        s
    }
}

/// Where a fixture table lives under a table root: the root (with any
/// trailing slash removed), then the scale, then the table name.
pub open spec fn spec_fixture_table_url(
    root: Seq<char>,
    scale: Seq<char>,
    table: Seq<char>,
) -> Seq<char> {
    spec_trim_trailing_slashes(root) + "/"@ + scale + "/"@ + table
}

/// The generated name of an isolated table copy: the base table name,
/// the sanitized isolation key and a uniqueness suffix.
pub open spec fn spec_isolated_table_name(
    base: Seq<char>,
    isolation_key: Seq<char>,
    suffix: Seq<char>,
) -> Seq<char> {
    base + "__isolated__"@ + spec_sanitized_component(isolation_key) + "__"@ + suffix
}

/// The storage configuration: which backend, the backend options, and
/// for a non-local backend the validated table-root URL text.
#[derive(Clone, Debug, PartialEq)]
pub struct StorageConfig {
    backend: StorageBackend,
    options: Vec<(String, String)>,
    table_root: Option<String>,
}

impl StorageConfig {
    pub closed spec fn spec_backend(&self) -> StorageBackend {
        self.backend
    }

    pub closed spec fn spec_options(&self) -> Seq<(Seq<char>, Seq<char>)> {
        spec_opts_view(self.options@)
    }

    pub closed spec fn spec_table_root(&self) -> Option<Seq<char>> {
        match self.table_root {
            Some(r) => Some(r@),
            None => None,
        }
    }

    /// The local-filesystem configuration: no options, no table root.
    pub fn local() -> (r: StorageConfig)
        ensures
            r.spec_backend() == StorageBackend::Local,
            r.spec_options() =~= Seq::<(Seq<char>, Seq<char>)>::empty(),
            r.spec_table_root() is None,
            spec_storage_config_wf(r),
    {
        StorageConfig { backend: StorageBackend::Local, options: Vec::new(), table_root: None }
    }

    /// Builds a configuration. A non-local backend must carry a
    /// `table_root` option whose text is a well-formed URL with the
    /// backend's scheme; each violation earns its own error, and success
    /// comes exactly when none occurs.
    pub fn new(backend: StorageBackend, options: Vec<(String, String)>) -> (r: BenchResult<
        StorageConfig,
    >)
        ensures
            backend == StorageBackend::Local ==> (r matches Ok(c) && c.spec_backend() == backend
                && c.spec_table_root() is None),
            r matches Ok(c) ==> c.spec_backend() == backend,
            backend != StorageBackend::Local && spec_last_value(
                spec_opts_view(options@),
                "table_root"@,
            ) is None ==> (r matches Err(BenchError::InvalidArgument(m)) && m@
                == "storage option 'table_root=<uri>' is required when backend is not local"@),
            r matches Ok(c) ==> (backend != StorageBackend::Local ==> c.spec_table_root()
                == spec_last_value(spec_opts_view(options@), "table_root"@)),
            r matches Ok(c) ==> spec_storage_config_wf(c),
            r is Ok <==> (backend == StorageBackend::Local || (spec_last_value(
                spec_opts_view(options@),
                "table_root"@,
            ) matches Some(root) && spec_url_parse_ok(root) && spec_backend_scheme_ok(
                backend,
                root,
            ))),
            spec_last_value(spec_opts_view(options@), "table_root"@) matches Some(root) ==> (
            backend != StorageBackend::Local && !spec_url_parse_ok(root) ==> (r matches Err(
                BenchError::InvalidArgument(m),
            ) && (exists|d: Seq<char>| m@ == "invalid table_root URI '"@ + root + "': "@ + d))),
            spec_last_value(spec_opts_view(options@), "table_root"@) matches Some(root) ==> (
            backend == StorageBackend::S3 && spec_url_parse_ok(root) && spec_scheme_of(root)
                != Some("s3"@) ==> (r matches Err(BenchError::InvalidArgument(m)) && m@
                == "table_root '"@ + root + "' is incompatible with backend S3; expected scheme one of: s3://"@)),
    {
        if let StorageBackend::Local = backend {
            return Ok(StorageConfig { backend, options, table_root: None });
        }
        let root = match last_value(&options, "table_root") {
            Some(r) => r.clone(),
            None => {
                return Err(
                    BenchError::InvalidArgument(
                        "storage option 'table_root=<uri>' is required when backend is not local".to_owned(),
                    ),
                );
            },
        };
        match check_url_syntax(root.as_str()) {
            Ok(_) => {},
            Err(detail) => {
                let mut m = String::new();
                m.append("invalid table_root URI '");
                m.append(root.as_str());
                m.append("': ");
                m.append(detail.as_str());
                proof {
                    assert(m@ == "invalid table_root URI '"@ + root@ + "': "@ + detail@);
                }
                return Err(BenchError::InvalidArgument(m));
            },
        }
        validate_table_root_scheme(backend, root.as_str())?;
        Ok(StorageConfig { backend, options, table_root: Some(root) })
    }

    pub fn backend(&self) -> (r: StorageBackend)
        ensures
            r == self.spec_backend(),
    {
        self.backend
    }

    pub fn is_local(&self) -> (r: bool)
        ensures
            r == (self.spec_backend() == StorageBackend::Local),
    {
        match self.backend {
            StorageBackend::Local => true,
            _ => false,
        }
    }

    /// The options handed to the object store: everything except the
    /// library's own `table_root` selector.
    pub fn object_store_options(&self) -> (r: Vec<(String, String)>)
        ensures
            spec_opts_view(r@) =~= spec_opts_without(self.spec_options(), "table_root"@),
    {
        proof {
            reveal_strlit("table_root");
        }
        let mut out: Vec<(String, String)> = Vec::new();
        let len = self.options.len();
        let mut i: usize = 0;
        proof {
            assert(self.spec_options().take(0) =~= Seq::<(Seq<char>, Seq<char>)>::empty());
            assert(spec_opts_view(out@) =~= spec_opts_without(
                self.spec_options().take(0),
                "table_root"@,
            ));
        }
        while i < len
            invariant
                len == self.options@.len(),
                i <= len,
                spec_opts_view(out@) =~= spec_opts_without(
                    self.spec_options().take(i as int),
                    "table_root"@,
                ),
            decreases len - i,
        {
            let keep = !str_eq(self.options[i].0.as_str(), "table_root");
            if keep {
                let ghost prev = spec_opts_view(out@);
                let pair = (self.options[i].0.clone(), self.options[i].1.clone());
                let ghost pv = (pair.0@, pair.1@);
                out.push(pair);
                proof {
                    assert(spec_opts_view(out@) =~= prev.push(pv));
                }
            }
            proof {
                let sv = self.spec_options();
                assert(sv.take(i + 1) =~= sv.take(i as int).push(sv[i as int]));
                lemma_opts_without_push(sv.take(i as int), sv[i as int], "table_root"@);
                assert(spec_opts_view(out@) =~= spec_opts_without(sv.take(i + 1), "table_root"@));
            }
            i += 1;
        }
        proof {
            assert(self.spec_options().take(len as int) =~= self.spec_options());
        }
        out
    }

    /// The URL of a fixture table under the table root; requires a
    /// non-local backend, exactly as `spec_fixture_table_url` states.
    pub fn fixture_table_url(&self, scale: &str, table_name: &str) -> (r: BenchResult<String>)
        ensures
            self.spec_table_root() matches Some(root) ==> (r matches Ok(u) && u@
                == spec_fixture_table_url(root, scale@, table_name@)),
            self.spec_table_root() is None ==> (r matches Err(BenchError::InvalidArgument(m))
                && m@ == "fixture_table_url requires a non-local storage backend"@),
    {
        let root = match &self.table_root {
            Some(r) => r,
            None => {
                return Err(
                    BenchError::InvalidArgument(
                        "fixture_table_url requires a non-local storage backend".to_owned(),
                    ),
                );
            },
        };
        let rlen = root.as_str().unicode_len();
        let mut end: usize = rlen;
        proof {
            assert(root@.subrange(0, rlen as int) =~= root@);
        }
        while end > 0 && root.as_str().get_char(end - 1) == '/'
            invariant
                rlen == root@.len(),
                end <= rlen,
                spec_trim_trailing_slashes(root@) == spec_trim_trailing_slashes(
                    root@.subrange(0, end as int),
                ),
            decreases end,
        {
            proof {
                let seg = root@.subrange(0, end as int);
                assert(seg.last() == root@[end - 1]);
                assert(seg.drop_last() =~= root@.subrange(0, end - 1));
            }
            end -= 1;
        }
        proof {
            let seg = root@.subrange(0, end as int);
            if seg.len() > 0 {
                assert(seg.last() == root@[end - 1]);
            }
            assert(spec_trim_trailing_slashes(seg) == seg);
        }
        let mut out = crate::cli::substring_chars(root.as_str(), 0, end);
        out.append("/");
        out.append(scale);
        out.append("/");
        out.append(table_name);
        Ok(out)
    }

    /// The URL of an isolated copy of a base table, unique per suffix;
    /// requires a non-local backend.
    pub fn isolated_table_url(
        &self,
        scale: &str,
        base_table_name: &str,
        isolation_key: &str,
        suffix: &str,
    ) -> (r: BenchResult<String>)
        ensures
            self.spec_table_root() matches Some(root) ==> (r matches Ok(u) && u@
                == spec_fixture_table_url(
                root,
                scale@,
                spec_isolated_table_name(base_table_name@, isolation_key@, suffix@),
            )),
            self.spec_table_root() is None ==> (r matches Err(BenchError::InvalidArgument(m))
                && m@ == "isolated_table_url requires a non-local storage backend"@),
    {
        match &self.table_root {
            Some(_) => {},
            None => {
                return Err(
                    BenchError::InvalidArgument(
                        "isolated_table_url requires a non-local storage backend".to_owned(),
                    ),
                );
            },
        }
        let sanitized = sanitize_path_component(isolation_key);
        let mut table_name = base_table_name.to_owned();
        table_name.append("__isolated__");
        table_name.append(sanitized.as_str());
        table_name.append("__");
        table_name.append(suffix);
        self.fixture_table_url(scale, table_name.as_str())
    }
}

/// A non-local configuration always carries a table root: its absence
/// is exactly the local backend.
pub open spec fn spec_storage_config_wf(c: StorageConfig) -> bool {
    c.spec_table_root() is None <==> c.spec_backend() == StorageBackend::Local
}

/// The backend accepts this root's scheme; the local backend accepts
/// anything.
pub open spec fn spec_backend_scheme_ok(backend: StorageBackend, root: Seq<char>) -> bool {
    match backend {
        StorageBackend::Local => true,
        StorageBackend::S3 => spec_scheme_of(root) == Some("s3"@),
    }
}

/// Rejects a table root whose scheme does not belong to the backend;
/// the local backend accepts anything.
pub fn validate_table_root_scheme(backend: StorageBackend, table_root: &str) -> (r: BenchResult<
    (),
>)
    ensures
        backend == StorageBackend::Local ==> r is Ok,
        backend == StorageBackend::S3 ==> (r is Ok <==> spec_scheme_of(table_root@) == Some(
            "s3"@,
        )),
        r matches Err(e) ==> e matches BenchError::InvalidArgument(m) && m@ == "table_root '"@
            + table_root@ + "' is incompatible with backend S3; expected scheme one of: s3://"@,
{
    proof {
        reveal_strlit("s3");
        assert("s3"@.len() == 2);
    }
    match backend {
        StorageBackend::Local => Ok(()),
        StorageBackend::S3 => {
            let matches_scheme = match scheme_of(table_root) {
                Some(sch) => str_eq(sch.as_str(), "s3"),
                None => false,
            };
            if matches_scheme {
                Ok(())
            } else {
                let mut m = String::new();
                m.append("table_root '");
                m.append(table_root);
                m.append("' is incompatible with backend S3; expected scheme one of: s3://");
                Err(BenchError::InvalidArgument(m))
            }
        },
    }
}

/// A backend profile name may hold only ASCII alphanumerics, dot,
/// hyphen and underscore.
pub fn validate_backend_profile_name(profile: &str) -> (r: BenchResult<()>)
    ensures
        r is Ok <==> (forall|i: int|
            0 <= i < profile@.len() ==> crate::cli::spec_label_char_ok(#[trigger] profile@[i])),
        r matches Err(e) ==> e matches BenchError::InvalidArgument(m) && m@
            == "invalid backend profile '"@ + profile@
            + "'; allowed characters: [A-Za-z0-9._-]"@,
{
    let len = profile.unicode_len();
    let mut i: usize = 0;
    while i < len
        invariant
            len == profile@.len(),
            i <= len,
            forall|k: int| 0 <= k < i ==> crate::cli::spec_label_char_ok(#[trigger] profile@[k]),
        decreases len - i,
    {
        let c = profile.get_char(i);
        let u = c as u32;
        let ok = (97 <= u && u <= 122) || (65 <= u && u <= 90) || (48 <= u && u <= 57) || u == 46
            || u == 45 || u == 95;
        if !ok {
            let mut m = String::new();
            m.append("invalid backend profile '");
            m.append(profile);
            m.append("'; allowed characters: [A-Za-z0-9._-]");
            return Err(BenchError::InvalidArgument(m));
        }
        i += 1;
    }
    Ok(())
}

/// The end of the line that starts at `p`: the next newline or the end.
pub open spec fn spec_profile_line_end(s: Seq<char>, p: int) -> int
    decreases s.len() - p,
{
    if p < 0 || p >= s.len() {
        s.len() as int
    } else if s[p] == '\n' {
        p
    } else {
        spec_profile_line_end(s, p + 1)
    }
}

/// What one raw line contributes after trimming: nothing, one binding
/// split at the first `=` with both sides trimmed, or a rejection.
pub enum ProfileLineReading {
    Skip,
    Entry(Seq<char>, Seq<char>),
    NoEquals,
    EmptyKey,
}

pub open spec fn spec_profile_line_reading(line: Seq<char>) -> ProfileLineReading {
    let t = crate::cli::spec_trim(line);
    if t.len() == 0 || t[0] == '#' {
        ProfileLineReading::Skip
    } else {
        match crate::cli::spec_first_char(t, '=') {
            None => ProfileLineReading::NoEquals,
            Some(p) => {
                let key = crate::cli::spec_trim(t.subrange(0, p));
                let value = crate::cli::spec_trim(t.subrange(p + 1, t.len() as int));
                if key.len() == 0 {
                    ProfileLineReading::EmptyKey
                } else {
                    ProfileLineReading::Entry(key, value)
                }
            },
        }
    }
}

/// The profile reading from position `pos` on, numbering lines from
/// `no` (saturating as a counter does): the bindings in order, or the
/// first rejected line's number, `true` standing for a line without `=`.
pub open spec fn spec_profile_parse_from(s: Seq<char>, pos: int, no: int) -> Result<
    Seq<(Seq<char>, Seq<char>)>,
    (int, bool),
>
    decreases s.len() + 1 - pos,
{
    if pos < 0 || pos > s.len() {
        Ok(Seq::empty())
    } else {
        let e = spec_profile_line_end(s, pos);
        if !(pos <= e <= s.len()) {
            Ok(Seq::empty())
        } else {
            let no2: int = if no < u64::MAX as int {
                no + 1
            } else {
                no
            };
            match spec_profile_line_reading(s.subrange(pos, e)) {
                ProfileLineReading::NoEquals => Err((no2, true)),
                ProfileLineReading::EmptyKey => Err((no2, false)),
                ProfileLineReading::Skip => if e >= s.len() {
                    Ok(Seq::empty())
                } else {
                    spec_profile_parse_from(s, e + 1, no2)
                },
                ProfileLineReading::Entry(k, v) => if e >= s.len() {
                    Ok(seq![(k, v)])
                } else {
                    match spec_profile_parse_from(s, e + 1, no2) {
                        Ok(tail) => Ok(seq![(k, v)] + tail),
                        Err(x) => Err(x),
                    }
                },
            }
        }
    }
}

/// The bindings a profile text holds, or its first rejected line.
pub open spec fn spec_profile_parse(s: Seq<char>) -> Result<
    Seq<(Seq<char>, Seq<char>)>,
    (int, bool),
> {
    spec_profile_parse_from(s, 0, 0)
}

/// The exact rejection a bad profile line earns.
pub open spec fn spec_profile_error_message(no: int, path: Seq<char>, expected_kv: bool) -> Seq<
    char,
> {
    "invalid backend profile line "@ + crate::strutil::spec_dec_digits(no as nat) + " in '"@ + path
        + (if expected_kv {
        "': expected KEY=VALUE"@
    } else {
        "': key must not be empty"@
    })
}

pub open spec fn spec_profile_app(
    acc: Seq<(Seq<char>, Seq<char>)>,
    r: Result<Seq<(Seq<char>, Seq<char>)>, (int, bool)>,
) -> Result<Seq<(Seq<char>, Seq<char>)>, (int, bool)> {
    match r {
        Ok(tail) => Ok(acc + tail),
        Err(x) => Err(x),
    }
}

/// Parses a backend profile's text, exactly as `spec_profile_parse`
/// states: one `KEY=VALUE` binding per line, split at the first `=` and
/// trimmed on both sides, with blank lines and `#` comments skipped; a
/// line without `=` or with an empty key is rejected with an error
/// naming the line number and the given source name.
#[verifier::loop_isolation(false)]
#[verifier::rlimit(60)]
pub fn parse_profile_content(content: &str, display_path: &str) -> (r: BenchResult<
    Vec<(String, String)>,
>)
    ensures
        r matches Ok(opts) ==> spec_profile_parse(content@) == Ok::<
            Seq<(Seq<char>, Seq<char>)>,
            (int, bool),
        >(spec_opts_view(opts@)),
        r matches Err(e) ==> (spec_profile_parse(content@) matches Err(x)
            && e matches BenchError::InvalidArgument(m) && m@ == spec_profile_error_message(
            x.0,
            display_path@,
            x.1,
        )),
        r matches Ok(opts) ==> forall|i: int|
            0 <= i < opts@.len() ==> (#[trigger] opts@[i].0)@.len() > 0,
{
    let len = content.unicode_len();
    let mut out: Vec<(String, String)> = Vec::new();
    let mut line_start: usize = 0;
    let mut line_no: u64 = 0;
    let mut done = false;
    proof {
        if spec_profile_parse_from(content@, 0, 0) is Ok {
            assert(Seq::<(Seq<char>, Seq<char>)>::empty() + spec_profile_parse_from(
                content@,
                0,
                0,
            )->Ok_0 =~= spec_profile_parse_from(content@, 0, 0)->Ok_0);
        }
        assert(spec_opts_view(out@) =~= Seq::<(Seq<char>, Seq<char>)>::empty());
    }
    while !done
        invariant
            len == content@.len(),
            line_start <= len,
            forall|i: int| 0 <= i < out@.len() ==> (#[trigger] out@[i].0)@.len() > 0,
            !done ==> spec_profile_app(
                spec_opts_view(out@),
                spec_profile_parse_from(content@, line_start as int, line_no as int),
            ) == spec_profile_parse(content@),
            done ==> spec_profile_parse(content@) == Ok::<
                Seq<(Seq<char>, Seq<char>)>,
                (int, bool),
            >(spec_opts_view(out@)),
        decreases len + 1 - line_start, (if done { 0int } else { 1int }),
    {
        let ghost start0 = line_start as int;
        let ghost no0 = line_no as int;
        let ghost acc0 = spec_opts_view(out@);
        let mut line_end: usize = line_start;
        while line_end < len && content.get_char(line_end) != '\n'
            invariant
                line_start <= line_end <= len,
                spec_profile_line_end(content@, start0) == spec_profile_line_end(
                    content@,
                    line_end as int,
                ),
            decreases len - line_end,
        {
            line_end += 1;
        }
        proof {
            assert(spec_profile_line_end(content@, start0) == line_end as int);
        }
        line_no = if line_no < u64::MAX {
            line_no + 1
        } else {
            line_no
        };
        let raw_line = crate::cli::substring_chars(content, line_start, line_end);
        let line = trim_ascii(raw_line.as_str());
        let ghost reading = spec_profile_line_reading(
            content@.subrange(start0, line_end as int),
        );
        let llen = line.as_str().unicode_len();
        if llen > 0 && !(line.as_str().get_char(0) == '#') {
            let mut eq: Option<usize> = None;
            let mut j: usize = 0;
            while j < llen
                invariant
                    llen == line@.len(),
                    j <= llen,
                    eq matches Some(p) ==> p < llen && line@[p as int] == '=' && (forall|k: int|
                        0 <= k < p ==> line@[k] != '='),
                    eq is None ==> forall|k: int| 0 <= k < j ==> line@[k] != '=',
                decreases llen - j,
            {
                if line.as_str().get_char(j) == '=' && eq.is_none() {
                    eq = Some(j);
                }
                j += 1;
            }
            match eq {
                None => {
                    proof {
                        crate::cli::lemma_first_char_none(line@, '=');
                        assert(reading == ProfileLineReading::NoEquals);
                        assert(spec_profile_parse(content@) matches Err(x) && x.0 == line_no as int
                            && x.1);
                    }
                    let mut m = String::new();
                    m.append("invalid backend profile line ");
                    let n = crate::strutil::u64_to_string(line_no);
                    m.append(n.as_str());
                    m.append(" in '");
                    m.append(display_path);
                    m.append("': expected KEY=VALUE");
                    proof {
                        assert(m@ == spec_profile_error_message(
                            line_no as int,
                            display_path@,
                            true,
                        ));
                    }
                    return Err(BenchError::InvalidArgument(m));
                },
                Some(p) => {
                    proof {
                        crate::cli::lemma_first_char_at(line@, '=', p as int);
                    }
                    let raw_key = crate::cli::substring_chars(line.as_str(), 0, p);
                    let raw_value = crate::cli::substring_chars(line.as_str(), p + 1, llen);
                    let key = trim_ascii(raw_key.as_str());
                    let value = trim_ascii(raw_value.as_str());
                    if key.as_str().unicode_len() == 0 {
                        proof {
                            assert(reading == ProfileLineReading::EmptyKey);
                            assert(spec_profile_parse(content@) matches Err(x) && x.0
                                == line_no as int && !x.1);
                        }
                        let mut m = String::new();
                        m.append("invalid backend profile line ");
                        let n = crate::strutil::u64_to_string(line_no);
                        m.append(n.as_str());
                        m.append(" in '");
                        m.append(display_path);
                        m.append("': key must not be empty");
                        proof {
                            assert(m@ == spec_profile_error_message(
                                line_no as int,
                                display_path@,
                                false,
                            ));
                        }
                        return Err(BenchError::InvalidArgument(m));
                    }
                    let ghost kv = (key@, value@);
                    out.push((key, value));
                    proof {
                        assert(reading == ProfileLineReading::Entry(kv.0, kv.1));
                        assert(spec_opts_view(out@) =~= acc0.push(kv));
                        if line_end < len {
                            if spec_profile_parse_from(content@, line_end + 1, line_no as int)
                                is Ok {
                                let tail = spec_profile_parse_from(
                                    content@,
                                    line_end + 1,
                                    line_no as int,
                                )->Ok_0;
                                assert(acc0 + (seq![kv] + tail) =~= acc0.push(kv) + tail);
                            }
                        } else {
                            assert(acc0 + seq![kv] =~= acc0.push(kv));
                        }
                    }
                },
            }
        } else {
            proof {
                assert(reading == ProfileLineReading::Skip);
            }
        }
        if line_end >= len {
            proof {
                assert(spec_profile_parse(content@) == Ok::<
                    Seq<(Seq<char>, Seq<char>)>,
                    (int, bool),
                >(spec_opts_view(out@)));
            }
            done = true;
        } else {
            line_start = line_end + 1;
        }
    }
    Ok(out)
}

} // verus!
