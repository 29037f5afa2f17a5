//! The versioned result-document codec. Reading is strict: the schema
//! version at the document root and inside the run context must equal
//! the single supported version, the classification must be one of the
//! closed values, and every per-sample metric field is independently
//! optional. Writing omits unset optional fields but always emits the
//! version fields.

use vstd::prelude::*;

use crate::jsonval::{
    obj_lookup, parse_json, parse_u64_numeral, render_json, spec_fields_view, spec_json_view,
    spec_obj_lookup, spec_u64_numeral, JsonValue, JsonValueView,
};
use crate::results::{
    parse_case_classification, view_opt_string, BenchContext, BenchRunResult, CaseFailure,
    CaseResult, Classification, IterationSample, SampleMetrics, SampleMetricsView,
    SUPPORTED_SCHEMA_VERSION,
};
use crate::strutil::{digit_char, spec_dec_digits, str_eq, u64_to_string};

verus! {

/// An optional counter field decodes to this value: absent or null is
/// an absent counter, and a numeral is its exact decimal reading.
pub open spec fn spec_u64_field_matches(
    fields: Seq<(Seq<char>, JsonValueView)>,
    key: Seq<char>,
    out: Option<u64>,
) -> bool {
    match spec_obj_lookup(fields, key) {
        None => out is None,
        Some(JsonValueView::Null) => out is None,
        Some(JsonValueView::Num(t)) => out matches Some(n) && t == spec_u64_numeral(n),
        Some(_) => false,
    }
}


/// An optional text field decodes to this value.
pub open spec fn spec_string_field_matches(
    fields: Seq<(Seq<char>, JsonValueView)>,
    key: Seq<char>,
    out: Option<Seq<char>>,
) -> bool {
    match spec_obj_lookup(fields, key) {
        None => out is None,
        Some(JsonValueView::Null) => out is None,
        Some(JsonValueView::Str(s)) => out == Some(s),
        Some(_) => false,
    }
}

pub open spec fn spec_string_field_ok(
    fields: Seq<(Seq<char>, JsonValueView)>,
    key: Seq<char>,
) -> bool {
    match spec_obj_lookup(fields, key) {
        None => true,
        Some(JsonValueView::Null) => true,
        Some(JsonValueView::Str(_)) => true,
        Some(_) => false,
    }
}

/// An optional counter field is readable: absent, null, or a canonical
/// decimal numeral.
pub open spec fn spec_u64_field_ok(
    fields: Seq<(Seq<char>, JsonValueView)>,
    key: Seq<char>,
) -> bool {
    match spec_obj_lookup(fields, key) {
        None => true,
        Some(JsonValueView::Null) => true,
        Some(JsonValueView::Num(t)) => exists|n: u64| t == spec_u64_numeral(n),
        Some(_) => false,
    }
}

/// A required text field is readable.
pub open spec fn spec_req_str_ok(fields: Seq<(Seq<char>, JsonValueView)>, key: Seq<char>) -> bool {
    spec_obj_lookup(fields, key) matches Some(JsonValueView::Str(_))
}

/// A required boolean field is readable.
pub open spec fn spec_req_bool_ok(fields: Seq<(Seq<char>, JsonValueView)>, key: Seq<char>) -> bool {
    spec_obj_lookup(fields, key) matches Some(JsonValueView::Bool(_))
}

/// A required counter field is readable.
pub open spec fn spec_req_u64_ok(fields: Seq<(Seq<char>, JsonValueView)>, key: Seq<char>) -> bool {
    spec_obj_lookup(fields, key) matches Some(JsonValueView::Num(t)) && (exists|n: u64|
        t == spec_u64_numeral(n))
}

/// A required counter field is readable and fits a `u32`.
pub open spec fn spec_u32_field_ok(fields: Seq<(Seq<char>, JsonValueView)>, key: Seq<char>) -> bool {
    spec_obj_lookup(fields, key) matches Some(JsonValueView::Num(t)) && (exists|n: u64|
        t == spec_u64_numeral(n) && n <= u32::MAX as u64)
}

fn field_error(key: &str, what: &str) -> (r: String)
{
    let mut m = String::new();
    m.append("field '");
    m.append(key);
    m.append("' ");
    m.append(what);
    m
}

/// Reads an optional counter field, exactly as `spec_u64_field_matches`
/// states; a present field of any other shape is an error naming it.
fn get_opt_u64(fields: &Vec<(String, JsonValue)>, key: &str) -> (r: Result<Option<u64>, String>)
    ensures
        r matches Ok(out) ==> spec_u64_field_matches(spec_fields_view(fields@), key@, out),
        r is Ok <==> spec_u64_field_ok(spec_fields_view(fields@), key@),
{
    match obj_lookup(fields, key) {
        None => Ok(None),
        Some(v) => match v {
            JsonValue::Null => Ok(None),
            JsonValue::Num(t) => match parse_u64_numeral(t.as_str()) {
                Some(n) => Ok(Some(n)),
                None => {
                    proof {
                        assert(!(exists|n: u64| t@ == spec_u64_numeral(n)));
                    }
                    Err(field_error(key, "is not a plain decimal counter"))
                },
            },
            _ => Err(field_error(key, "has the wrong type")),
        },
    }
}

/// Reads an optional text field, exactly as `spec_string_field_matches`
/// states.
fn get_opt_string(fields: &Vec<(String, JsonValue)>, key: &str) -> (r: Result<
    Option<String>,
    String,
>)
    ensures
        r matches Ok(out) ==> spec_string_field_matches(
            spec_fields_view(fields@),
            key@,
            match out {
                Some(s) => Some(s@),
                None => None,
            },
        ),
        r is Ok <==> spec_string_field_ok(spec_fields_view(fields@), key@),
{
    match obj_lookup(fields, key) {
        None => Ok(None),
        Some(v) => match v {
            JsonValue::Null => Ok(None),
            JsonValue::Str(s) => Ok(Some(s.clone())),
            _ => Err(field_error(key, "has the wrong type")),
        },
    }
}

/// Reads a required text field.
fn get_req_string(fields: &Vec<(String, JsonValue)>, key: &str) -> (r: Result<String, String>)
    ensures
        r matches Ok(s) ==> spec_obj_lookup(spec_fields_view(fields@), key@) == Some(
            JsonValueView::Str(s@),
        ),
        r is Ok <==> spec_req_str_ok(spec_fields_view(fields@), key@),
{
    match obj_lookup(fields, key) {
        Some(v) => match v {
            JsonValue::Str(s) => Ok(s.clone()),
            _ => Err(field_error(key, "has the wrong type")),
        },
        None => Err(field_error(key, "is missing")),
    }
}

/// Reads a required counter field.
fn get_req_u64(fields: &Vec<(String, JsonValue)>, key: &str) -> (r: Result<u64, String>)
    ensures
        r matches Ok(n) ==> spec_obj_lookup(spec_fields_view(fields@), key@) == Some(
            JsonValueView::Num(spec_u64_numeral(n)),
        ),
        r is Ok <==> spec_req_u64_ok(spec_fields_view(fields@), key@),
{
    match obj_lookup(fields, key) {
        Some(v) => match v {
            JsonValue::Num(t) => match parse_u64_numeral(t.as_str()) {
                Some(n) => Ok(n),
                None => {
                    proof {
                        assert(!(exists|n: u64| t@ == spec_u64_numeral(n)));
                    }
                    Err(field_error(key, "is not a plain decimal counter"))
                },
            },
            _ => Err(field_error(key, "has the wrong type")),
        },
        None => Err(field_error(key, "is missing")),
    }
}

/// Reads a required boolean field.
fn get_req_bool(fields: &Vec<(String, JsonValue)>, key: &str) -> (r: Result<bool, String>)
    ensures
        r matches Ok(b) ==> spec_obj_lookup(spec_fields_view(fields@), key@) == Some(
            JsonValueView::Bool(b),
        ),
        r is Ok <==> spec_req_bool_ok(spec_fields_view(fields@), key@),
{
    match obj_lookup(fields, key) {
        Some(v) => match v {
            JsonValue::Bool(b) => Ok(*b),
            _ => Err(field_error(key, "has the wrong type")),
        },
        None => Err(field_error(key, "is missing")),
    }
}

/// Every per-sample metric field decodes independently; absence of one
/// field never implies absence of another, and each present counter is
/// read exactly.
/// Every per-sample metric field of this record agrees with the field
/// list, field by field.
pub open spec fn spec_metrics_matches(
    fv: Seq<(Seq<char>, JsonValueView)>,
    m: SampleMetrics,
) -> bool {
    &&& spec_u64_field_matches(fv, "rows_processed"@, m.rows_processed)
    &&& spec_u64_field_matches(fv, "bytes_processed"@, m.bytes_processed)
    &&& spec_u64_field_matches(fv, "operations"@, m.operations)
    &&& spec_u64_field_matches(fv, "table_version"@, m.table_version)
    &&& spec_u64_field_matches(fv, "files_scanned"@, m.files_scanned)
    &&& spec_u64_field_matches(fv, "files_pruned"@, m.files_pruned)
    &&& spec_u64_field_matches(fv, "bytes_scanned"@, m.bytes_scanned)
    &&& spec_u64_field_matches(fv, "scan_time_ms"@, m.scan_time_ms)
    &&& spec_u64_field_matches(fv, "rewrite_time_ms"@, m.rewrite_time_ms)
    &&& spec_u64_field_matches(fv, "peak_rss_mb"@, m.peak_rss_mb)
    &&& spec_u64_field_matches(fv, "cpu_time_ms"@, m.cpu_time_ms)
    &&& spec_u64_field_matches(fv, "bytes_read"@, m.bytes_read)
    &&& spec_u64_field_matches(fv, "bytes_written"@, m.bytes_written)
    &&& spec_u64_field_matches(fv, "files_touched"@, m.files_touched)
    &&& spec_u64_field_matches(fv, "files_skipped"@, m.files_skipped)
    &&& spec_u64_field_matches(fv, "spill_bytes"@, m.spill_bytes)
    &&& spec_string_field_matches(fv, "result_hash"@, view_opt_string(m.result_hash))
}

/// Every per-sample metric field is readable.
pub open spec fn spec_metrics_ok(fv: Seq<(Seq<char>, JsonValueView)>) -> bool {
    &&& spec_u64_field_ok(fv, "rows_processed"@)
    &&& spec_u64_field_ok(fv, "bytes_processed"@)
    &&& spec_u64_field_ok(fv, "operations"@)
    &&& spec_u64_field_ok(fv, "table_version"@)
    &&& spec_u64_field_ok(fv, "files_scanned"@)
    &&& spec_u64_field_ok(fv, "files_pruned"@)
    &&& spec_u64_field_ok(fv, "bytes_scanned"@)
    &&& spec_u64_field_ok(fv, "scan_time_ms"@)
    &&& spec_u64_field_ok(fv, "rewrite_time_ms"@)
    &&& spec_u64_field_ok(fv, "peak_rss_mb"@)
    &&& spec_u64_field_ok(fv, "cpu_time_ms"@)
    &&& spec_u64_field_ok(fv, "bytes_read"@)
    &&& spec_u64_field_ok(fv, "bytes_written"@)
    &&& spec_u64_field_ok(fv, "files_touched"@)
    &&& spec_u64_field_ok(fv, "files_skipped"@)
    &&& spec_u64_field_ok(fv, "spill_bytes"@)
    &&& spec_string_field_ok(fv, "result_hash"@)
}

pub fn decode_sample_metrics(fields: &Vec<(String, JsonValue)>) -> (r: Result<
    SampleMetrics,
    String,
>)
    ensures
        r matches Ok(m) ==> spec_metrics_matches(spec_fields_view(fields@), m),
        r is Ok <==> spec_metrics_ok(spec_fields_view(fields@)),
{
    Ok(
        SampleMetrics {
            rows_processed: get_opt_u64(fields, "rows_processed")?,
            bytes_processed: get_opt_u64(fields, "bytes_processed")?,
            operations: get_opt_u64(fields, "operations")?,
            table_version: get_opt_u64(fields, "table_version")?,
            files_scanned: get_opt_u64(fields, "files_scanned")?,
            files_pruned: get_opt_u64(fields, "files_pruned")?,
            bytes_scanned: get_opt_u64(fields, "bytes_scanned")?,
            scan_time_ms: get_opt_u64(fields, "scan_time_ms")?,
            rewrite_time_ms: get_opt_u64(fields, "rewrite_time_ms")?,
            peak_rss_mb: get_opt_u64(fields, "peak_rss_mb")?,
            cpu_time_ms: get_opt_u64(fields, "cpu_time_ms")?,
            bytes_read: get_opt_u64(fields, "bytes_read")?,
            bytes_written: get_opt_u64(fields, "bytes_written")?,
            files_touched: get_opt_u64(fields, "files_touched")?,
            files_skipped: get_opt_u64(fields, "files_skipped")?,
            spill_bytes: get_opt_u64(fields, "spill_bytes")?,
            result_hash: get_opt_string(fields, "result_hash")?,
        },
    )
}

/// The fractional digits of a sub-millisecond remainder, shortest form.
pub open spec fn spec_ms_frac_digits(f: u64) -> Seq<char>
    recommends
        f < 1000,
{
    if f % 100 == 0 {
        seq![digit_char((f / 100) as nat)]
    } else if f % 10 == 0 {
        seq![digit_char((f / 100) as nat), digit_char(((f / 10) % 10) as nat)]
    } else {
        seq![
            digit_char((f / 100) as nat),
            digit_char(((f / 10) % 10) as nat),
            digit_char((f % 10) as nat),
        ]
    }
}

/// The canonical millisecond text of a microsecond count: whole
/// milliseconds, a point, then the shortest fractional digits.
pub open spec fn spec_ms_text(us: u64) -> Seq<char> {
    spec_dec_digits((us / 1000) as nat) + "."@ + spec_ms_frac_digits((us % 1000) as u64)
}

/// Renders a measured time, exactly as `spec_ms_text` states.
pub fn elapsed_us_to_ms_text(us: u64) -> (r: String)
    ensures
        r@ == spec_ms_text(us),
{
    proof {
        reveal_strlit(".");
    }
    let mut out = u64_to_string(us / 1000);
    out.append(".");
    let f = us % 1000;
    let d1 = crate::strutil::u64_to_string(f / 100);
    out.append(d1.as_str());
    if f % 100 != 0 {
        let d2 = crate::strutil::u64_to_string((f / 10) % 10);
        out.append(d2.as_str());
        if f % 10 != 0 {
            let d3 = crate::strutil::u64_to_string(f % 10);
            out.append(d3.as_str());
        }
    }
    proof {
        assert(spec_dec_digits((f / 100) as nat) =~= seq![digit_char((f / 100) as nat)]);
        assert(spec_dec_digits(((f / 10) % 10) as nat) =~= seq![digit_char(((f / 10) % 10) as nat)]);
        assert(spec_dec_digits((f % 10) as nat) =~= seq![digit_char((f % 10) as nat)]);
        if f % 100 == 0 {
            assert(out@ =~= spec_ms_text(us));
        } else if f % 10 == 0 {
            assert(spec_ms_frac_digits(f) =~= seq![digit_char((f / 100) as nat)] + seq![
                digit_char(((f / 10) % 10) as nat),
            ]);
            assert(out@ =~= spec_ms_text(us));
        } else {
            assert(spec_ms_frac_digits(f) =~= seq![digit_char((f / 100) as nat)] + seq![
                digit_char(((f / 10) % 10) as nat),
            ] + seq![digit_char((f % 10) as nat)]);
            assert(out@ =~= spec_ms_text(us));
        }
    }
    out
}

/// The position of the single decimal point, if the text has at most
/// one; `dot` carries the point already seen.
pub open spec fn spec_find_dot(t: Seq<char>, i: int, dot: Option<int>) -> Option<Option<int>>
    decreases t.len() - i,
{
    if i < 0 || i >= t.len() {
        Some(dot)
    } else if t[i] == '.' {
        if dot is Some {
            None
        } else {
            spec_find_dot(t, i + 1, Some(i))
        }
    } else {
        spec_find_dot(t, i + 1, dot)
    }
}

/// The whole-millisecond reading of the integer part, bounded so the
/// microsecond total fits.
pub open spec fn spec_ms_int(t: Seq<char>, j: int, int_end: int, whole: int) -> Option<int>
    decreases int_end - j,
{
    if j < 0 || j >= int_end || j >= t.len() {
        Some(whole)
    } else if !(48 <= t[j] as u32 <= 57) {
        None
    } else if whole > 18000000000000 {
        None
    } else {
        spec_ms_int(t, j + 1, int_end, whole * 10 + (t[j] as u32 - 48))
    }
}

/// The fractional reading: up to three significant digits, any further
/// digits zero.
pub open spec fn spec_ms_frac(t: Seq<char>, k: int, frac: int, scale: int) -> Option<int>
    decreases t.len() - k,
{
    if k < 0 || k >= t.len() {
        Some(frac)
    } else if !(48 <= t[k] as u32 <= 57) {
        None
    } else if scale == 0 {
        if t[k] != '0' {
            None
        } else {
            spec_ms_frac(t, k + 1, frac, 0)
        }
    } else {
        spec_ms_frac(t, k + 1, frac + (t[k] as u32 - 48) * scale, scale / 10)
    }
}

/// The whole-microsecond reading of a millisecond numeral: an integer
/// part, then at most three significant fractional digits; anything else
/// is rejected.
pub open spec fn spec_ms_parse(t: Seq<char>) -> Option<u64> {
    match spec_find_dot(t, 0, None) {
        None => None,
        Some(dot) => {
            let int_end: int = match dot {
                Some(d) => d,
                None => t.len() as int,
            };
            let frac_start: int = match dot {
                Some(d) => d + 1,
                None => t.len() as int,
            };
            if int_end == 0 {
                None
            } else {
                match spec_ms_int(t, 0, int_end, 0) {
                    None => None,
                    Some(whole) => if dot is Some && frac_start >= t.len() {
                        None
                    } else {
                        match spec_ms_frac(t, frac_start, 0, 100) {
                            None => None,
                            Some(frac) => if whole > (u64::MAX - frac) / 1000 {
                                None
                            } else {
                                Some((whole * 1000 + frac) as u64)
                            },
                        }
                    },
                }
            }
        },
    }
}

/// Reads a millisecond numeral back into whole microseconds, exactly as
/// `spec_ms_parse` states.
#[verifier::loop_isolation(false)]
pub fn ms_text_to_elapsed_us(t: &str) -> (r: Option<u64>)
    ensures
        r == spec_ms_parse(t@),
{
    let len = t.unicode_len();
    let mut dot: Option<usize> = None;
    let mut i: usize = 0;
    while i < len
        invariant
            i <= len,
            dot matches Some(d) ==> d < len,
            spec_find_dot(
                t@,
                i as int,
                match dot {
                    Some(d) => Some(d as int),
                    None => None,
                },
            ) == spec_find_dot(t@, 0, None),
        decreases len - i,
    {
        if t.get_char(i) == '.' {
            if dot.is_some() {
                proof {
                    assert(spec_find_dot(t@, 0, None) is None);
                }
                return None;
            }
            dot = Some(i);
        }
        i += 1;
    }
    let ghost dotg: Option<int> = match dot {
        Some(d) => Some(d as int),
        None => None,
    };
    proof {
        assert(spec_find_dot(t@, 0, None) == Some(dotg));
    }
    let (int_end, frac_start): (usize, usize) = match dot {
        Some(d) => (d, d + 1),
        None => (len, len),
    };
    let mut whole: u64 = 0;
    let mut j: usize = 0;
    if int_end == 0 {
        return None;
    }
    while j < int_end
        invariant
            int_end <= len,
            j <= int_end,
            whole <= 180000000000009,
            spec_ms_int(t@, j as int, int_end as int, whole as int) == spec_ms_int(
                t@,
                0,
                int_end as int,
                0,
            ),
        decreases int_end - j,
    {
        let u = t.get_char(j) as u32;
        if !(48 <= u && u <= 57) {
            proof {
                assert(spec_ms_int(t@, 0, int_end as int, 0) is None);
            }
            return None;
        }
        let d = (u - 48) as u64;
        if whole > 18000000000000 {
            proof {
                assert(spec_ms_int(t@, 0, int_end as int, 0) is None);
            }
            return None;
        }
        whole = whole * 10 + d;
        j += 1;
    }
    proof {
        assert(spec_ms_int(t@, 0, int_end as int, 0) == Some(whole as int));
    }
    let mut frac: u64 = 0;
    let mut scale: u64 = 100;
    let mut k: usize = frac_start;
    if dot.is_some() && frac_start >= len {
        return None;
    }
    while k < len
        invariant
            frac_start <= k + 1,
            k <= len,
            (scale == 100 && frac == 0) || (scale == 10 && frac <= 900) || (scale == 1 && frac
                <= 990) || (scale == 0 && frac <= 999),
            spec_ms_frac(t@, k as int, frac as int, scale as int) == spec_ms_frac(
                t@,
                frac_start as int,
                0,
                100,
            ),
        decreases len - k,
    {
        let u = t.get_char(k) as u32;
        if !(48 <= u && u <= 57) {
            proof {
                assert(spec_ms_frac(t@, frac_start as int, 0, 100) is None);
            }
            return None;
        }
        if scale == 0 {
            if u != 48 {
                proof {
                    assert(t@[k as int] != '0');
                    assert(spec_ms_frac(t@, frac_start as int, 0, 100) is None);
                }
                return None;
            }
            proof {
                assert(t@[k as int] == '0');
            }
        } else {
            frac = frac + (u - 48) as u64 * scale;
            scale = scale / 10;
        }
        k += 1;
    }
    proof {
        assert(spec_ms_frac(t@, frac_start as int, 0, 100) == Some(frac as int));
    }
    if whole > (u64::MAX - frac) / 1000 {
        return None;
    }
    Some(whole * 1000 + frac)
}

/// One sample object is readable: a millisecond reading, readable
/// optional counters, and a readable optional metrics record.
pub open spec fn spec_sample_ok(fv: Seq<(Seq<char>, JsonValueView)>) -> bool {
    &&& (spec_obj_lookup(fv, "elapsed_ms"@) matches Some(JsonValueView::Num(t))
        && spec_ms_parse(t) is Some)
    &&& spec_u64_field_ok(fv, "rows"@)
    &&& spec_u64_field_ok(fv, "bytes"@)
    &&& (match spec_obj_lookup(fv, "metrics"@) {
        None => true,
        Some(JsonValueView::Null) => true,
        Some(JsonValueView::Obj(mf)) => spec_metrics_ok(mf),
        Some(_) => false,
    })
}

pub open spec fn spec_sample_val_ok(v: JsonValueView) -> bool {
    v matches JsonValueView::Obj(fv) && spec_sample_ok(fv)
}

/// A decoded sample agrees with its object, field by field.
pub open spec fn spec_sample_matches(
    fv: Seq<(Seq<char>, JsonValueView)>,
    s: IterationSample,
) -> bool {
    &&& (spec_obj_lookup(fv, "elapsed_ms"@) matches Some(JsonValueView::Num(t)) && spec_ms_parse(
        t,
    ) == Some(s.elapsed_us))
    &&& spec_u64_field_matches(fv, "rows"@, s.rows)
    &&& spec_u64_field_matches(fv, "bytes"@, s.bytes)
    &&& (match spec_obj_lookup(fv, "metrics"@) {
        None => s.metrics is None,
        Some(JsonValueView::Null) => s.metrics is None,
        Some(JsonValueView::Obj(mf)) => (s.metrics matches Some(m) && spec_metrics_matches(mf, m)),
        Some(_) => false,
    })
}

pub open spec fn spec_sample_val_matches(v: JsonValueView, s: IterationSample) -> bool {
    v matches JsonValueView::Obj(fv) && spec_sample_matches(fv, s)
}

fn decode_iteration_sample(v: &JsonValue) -> (r: Result<IterationSample, String>)
    ensures
        r is Ok <==> spec_sample_val_ok(v@),
        r matches Ok(s) ==> spec_sample_val_matches(v@, s),
{
    let fields = match v {
        JsonValue::Obj(f) => f,
        _ => {
            return Err("sample is not an object".to_owned());
        },
    };
    proof {
        assert(v@ is Obj);
        assert(v@->Obj_0 =~= spec_fields_view(fields@));
    }
    let elapsed_us = match obj_lookup(fields, "elapsed_ms") {
        Some(ev) => match ev {
            JsonValue::Num(t) => match ms_text_to_elapsed_us(t.as_str()) {
                Some(us) => us,
                None => {
                    proof {
                        assert(!spec_sample_ok(v@->Obj_0));
                    }
                    return Err("field 'elapsed_ms' is not a millisecond reading".to_owned());
                },
            },
            _ => {
                proof {
                    assert(!spec_sample_ok(v@->Obj_0));
                }
                return Err("field 'elapsed_ms' has the wrong type".to_owned());
            },
        },
        None => {
            proof {
                assert(!spec_sample_ok(v@->Obj_0));
            }
            return Err("field 'elapsed_ms' is missing".to_owned());
        },
    };
    let rows = match get_opt_u64(fields, "rows") {
        Ok(x) => x,
        Err(e) => {
            proof {
                assert(!spec_sample_ok(v@->Obj_0));
            }
            return Err(e);
        },
    };
    let bytes = match get_opt_u64(fields, "bytes") {
        Ok(x) => x,
        Err(e) => {
            proof {
                assert(!spec_sample_ok(v@->Obj_0));
            }
            return Err(e);
        },
    };
    let metrics = match obj_lookup(fields, "metrics") {
        None => None,
        Some(mv) => match mv {
            JsonValue::Null => None,
            JsonValue::Obj(mf) => {
                proof {
                    assert(mv@ is Obj);
                    assert(mv@->Obj_0 =~= spec_fields_view(mf@));
                }
                match decode_sample_metrics(mf) {
                    Ok(m) => Some(m),
                    Err(e) => {
                        proof {
                            assert(!spec_sample_ok(v@->Obj_0));
                        }
                        return Err(e);
                    },
                }
            },
            _ => {
                proof {
                    assert(!spec_sample_ok(v@->Obj_0));
                }
                return Err("field 'metrics' has the wrong type".to_owned());
            },
        },
    };
    let result = IterationSample { elapsed_us, rows, bytes, metrics };
    proof {
        assert(spec_sample_ok(v@->Obj_0));
        assert(spec_sample_matches(v@->Obj_0, result));
    }
    Ok(result)
}

/// One case object is readable: its required fields present, the
/// classification one of the closed values, every sample readable, and
/// a readable failure payload.
pub open spec fn spec_case_ok(fv: Seq<(Seq<char>, JsonValueView)>) -> bool {
    &&& spec_req_str_ok(fv, "case"@)
    &&& spec_req_bool_ok(fv, "success"@)
    &&& (spec_obj_lookup(fv, "classification"@) matches Some(JsonValueView::Str(s)) && (s
        == "supported"@ || s == "expected_failure"@))
    &&& (spec_obj_lookup(fv, "samples"@) matches Some(JsonValueView::Arr(items)) && (forall|i: int|
        0 <= i < items.len() ==> spec_sample_val_ok(#[trigger] items[i])))
    &&& (match spec_obj_lookup(fv, "failure"@) {
        None => true,
        Some(JsonValueView::Null) => true,
        Some(JsonValueView::Obj(ff)) => spec_req_str_ok(ff, "message"@),
        Some(_) => false,
    })
}

pub open spec fn spec_case_val_ok(v: JsonValueView) -> bool {
    v matches JsonValueView::Obj(fv) && spec_case_ok(fv)
}

/// A decoded case agrees with its object, field by field, sample by
/// sample.
pub open spec fn spec_case_matches(fv: Seq<(Seq<char>, JsonValueView)>, c: CaseResult) -> bool {
    &&& spec_obj_lookup(fv, "case"@) == Some(JsonValueView::Str(c.case@))
    &&& spec_obj_lookup(fv, "success"@) == Some(JsonValueView::Bool(c.success))
    &&& spec_obj_lookup(fv, "classification"@) == Some(
        JsonValueView::Str(c.classification.spec_str()),
    )
    &&& (spec_obj_lookup(fv, "samples"@) matches Some(JsonValueView::Arr(items))
        && c.samples@.len() == items.len() && (forall|i: int|
        0 <= i < items.len() ==> spec_sample_val_matches(#[trigger] items[i], c.samples@[i])))
    &&& (match spec_obj_lookup(fv, "failure"@) {
        None => c.failure is None,
        Some(JsonValueView::Null) => c.failure is None,
        Some(JsonValueView::Obj(ff)) => (c.failure matches Some(f) && spec_obj_lookup(
            ff,
            "message"@,
        ) == Some(JsonValueView::Str(f.message@))),
        Some(_) => false,
    })
}

pub open spec fn spec_case_val_matches(v: JsonValueView, c: CaseResult) -> bool {
    v matches JsonValueView::Obj(fv) && spec_case_matches(fv, c)
}

/// Reads one case, exactly as `spec_case_ok` and `spec_case_matches`
/// state: the classification must be one of the closed values, and any
/// other string is the classification parser's exact rejection.
#[verifier::loop_isolation(false)]
pub fn decode_case_result(v: &JsonValue) -> (r: Result<CaseResult, String>)
    ensures
        r matches Ok(c) ==> (c.classification == Classification::Supported || c.classification
            == Classification::ExpectedFailure),
        r is Ok <==> spec_case_val_ok(v@),
        r matches Ok(c) ==> spec_case_val_matches(v@, c),
{
    let fields = match v {
        JsonValue::Obj(f) => f,
        _ => {
            return Err("case is not an object".to_owned());
        },
    };
    proof {
        assert(v@ is Obj);
        assert(v@->Obj_0 =~= spec_fields_view(fields@));
    }
    let case = match get_req_string(fields, "case") {
        Ok(x) => x,
        Err(e) => {
            return Err(e);
        },
    };
    let success = match get_req_bool(fields, "success") {
        Ok(x) => x,
        Err(e) => {
            return Err(e);
        },
    };
    let classification_text = match get_req_string(fields, "classification") {
        Ok(x) => x,
        Err(e) => {
            return Err(e);
        },
    };
    let classification = match parse_case_classification(classification_text.as_str()) {
        Ok(x) => x,
        Err(e) => {
            return Err(e);
        },
    };
    let mut samples: Vec<IterationSample> = Vec::new();
    match obj_lookup(fields, "samples") {
        Some(sv) => match sv {
            JsonValue::Arr(items) => {
                proof {
                    assert(sv@ is Arr);
                    assert(sv@->Arr_0 =~= Seq::new(items@.len(), |i: int| items@[i]@));
                }
                let len = items.len();
                let mut i: usize = 0;
                while i < len
                    invariant
                        len == items@.len(),
                        i <= len,
                        samples@.len() == i as nat,
                        sv@->Arr_0 == Seq::new(items@.len(), |k: int| items@[k]@),
                        forall|k: int|
                            0 <= k < i ==> spec_sample_val_ok(#[trigger] items@[k]@)
                                && spec_sample_val_matches(items@[k]@, samples@[k]),
                    decreases len - i,
                {
                    let sample = match decode_iteration_sample(&items[i]) {
                        Ok(x) => x,
                        Err(e) => {
                            proof {
                                assert(!spec_sample_val_ok(sv@->Arr_0[i as int]));
                                assert(!spec_case_ok(v@->Obj_0));
                            }
                            return Err(e);
                        },
                    };
                    samples.push(sample);
                    i += 1;
                }
            },
            _ => {
                return Err("field 'samples' has the wrong type".to_owned());
            },
        },
        None => {
            return Err("field 'samples' is missing".to_owned());
        },
    }
    let failure = match obj_lookup(fields, "failure") {
        None => None,
        Some(fval) => match fval {
            JsonValue::Null => None,
            JsonValue::Obj(ff) => {
                proof {
                    assert(fval@ is Obj);
                    assert(fval@->Obj_0 =~= spec_fields_view(ff@));
                }
                let message = match get_req_string(ff, "message") {
                    Ok(x) => x,
                    Err(e) => {
                        return Err(e);
                    },
                };
                Some(CaseFailure { message })
            },
            _ => {
                return Err("field 'failure' has the wrong type".to_owned());
            },
        },
    };
    let result = CaseResult { case, success, classification, samples, failure };
    proof {
        assert(spec_case_ok(v@->Obj_0));
        assert(spec_case_matches(v@->Obj_0, result));
    }
    Ok(result)
}

/// The exact rejection a wrong schema version earns.
pub open spec fn spec_version_error(found: Seq<char>) -> Seq<char> {
    "schema_version must be 2 (found "@ + found + ")"@
}

/// Reads and checks a schema-version field: it must be present and must
/// equal the single supported version; any other numeral is rejected
/// with an error naming it.
pub fn decode_schema_version(fields: &Vec<(String, JsonValue)>) -> (r: Result<u32, String>)
    ensures
        r matches Ok(n) ==> n == SUPPORTED_SCHEMA_VERSION && spec_obj_lookup(
            spec_fields_view(fields@),
            "schema_version"@,
        ) == Some(JsonValueView::Num(spec_u64_numeral(SUPPORTED_SCHEMA_VERSION as u64))),
        r is Ok <==> spec_obj_lookup(spec_fields_view(fields@), "schema_version"@) == Some(
            JsonValueView::Num(spec_u64_numeral(SUPPORTED_SCHEMA_VERSION as u64)),
        ),
        spec_obj_lookup(spec_fields_view(fields@), "schema_version"@) matches Some(
            JsonValueView::Num(t),
        ) ==> (t != spec_u64_numeral(SUPPORTED_SCHEMA_VERSION as u64) ==> (r matches Err(m) && m@
            == spec_version_error(t))),
{
    match obj_lookup(fields, "schema_version") {
        Some(v) => match v {
            JsonValue::Num(t) => {
                let parsed = parse_u64_numeral(t.as_str());
                let ok = match parsed {
                    Some(n) => n == SUPPORTED_SCHEMA_VERSION as u64,
                    None => false,
                };
                if ok {
                    proof {
                        assert(spec_u64_numeral(SUPPORTED_SCHEMA_VERSION as u64) == t@);
                    }
                    Ok(SUPPORTED_SCHEMA_VERSION)
                } else {
                    proof {
                        if t@ == spec_u64_numeral(SUPPORTED_SCHEMA_VERSION as u64) {
                            assert(parsed == Some(SUPPORTED_SCHEMA_VERSION as u64));
                        }
                    }
                    let mut m = String::new();
                    m.append("schema_version must be 2 (found ");
                    m.append(t.as_str());
                    m.append(")");
                    Err(m)
                }
            },
            _ => Err(field_error("schema_version", "has the wrong type")),
        },
        None => Err(field_error("schema_version", "is missing")),
    }
}

fn u32_field(fields: &Vec<(String, JsonValue)>, key: &str) -> (r: Result<u32, String>)
    ensures
        r matches Ok(n) ==> spec_obj_lookup(spec_fields_view(fields@), key@) == Some(
            JsonValueView::Num(spec_u64_numeral(n as u64)),
        ),
        r is Ok <==> spec_u32_field_ok(spec_fields_view(fields@), key@),
{
    let n = match get_req_u64(fields, key) {
        Ok(n) => n,
        Err(e) => {
            proof {
                assert(!spec_u32_field_ok(spec_fields_view(fields@), key@));
            }
            return Err(e);
        },
    };
    if n > u32::MAX as u64 {
        proof {
            let fv = spec_fields_view(fields@);
            if spec_u32_field_ok(fv, key@) {
                let t = spec_obj_lookup(fv, key@)->0->Num_0;
                let m = choose|m: u64| t == spec_u64_numeral(m) && m <= u32::MAX as u64;
                crate::jsonval::lemma_numeral_injective(n, m);
            }
        }
        return Err(field_error(key, "is out of range"));
    }
    Ok(n as u32)
}

/// A context object is readable: the right version, required fields
/// present, every optional field absent, null or of the right type.
pub open spec fn spec_context_ok(fv: Seq<(Seq<char>, JsonValueView)>) -> bool {
    &&& spec_obj_lookup(fv, "schema_version"@) == Some(
        JsonValueView::Num(spec_u64_numeral(SUPPORTED_SCHEMA_VERSION as u64)),
    )
    &&& (match spec_obj_lookup(fv, "cpu_steal_pct"@) {
        None => true,
        Some(JsonValueView::Null) => true,
        Some(JsonValueView::Num(_)) => true,
        Some(_) => false,
    })
    &&& spec_req_str_ok(fv, "label"@)
    &&& spec_string_field_ok(fv, "git_sha"@)
    &&& spec_req_str_ok(fv, "created_at"@)
    &&& spec_req_str_ok(fv, "host"@)
    &&& spec_req_str_ok(fv, "suite"@)
    &&& spec_req_str_ok(fv, "scale"@)
    &&& spec_u32_field_ok(fv, "iterations"@)
    &&& spec_u32_field_ok(fv, "warmup"@)
    &&& spec_string_field_ok(fv, "dataset_id"@)
    &&& spec_string_field_ok(fv, "dataset_fingerprint"@)
    &&& spec_string_field_ok(fv, "runner"@)
    &&& spec_string_field_ok(fv, "backend_profile"@)
    &&& spec_string_field_ok(fv, "image_version"@)
    &&& spec_string_field_ok(fv, "hardening_profile_id"@)
    &&& spec_string_field_ok(fv, "hardening_profile_sha256"@)
    &&& spec_string_field_ok(fv, "cpu_model"@)
    &&& spec_string_field_ok(fv, "cpu_microcode"@)
    &&& spec_string_field_ok(fv, "kernel"@)
    &&& spec_string_field_ok(fv, "boot_params"@)
    &&& spec_string_field_ok(fv, "numa_topology"@)
    &&& spec_string_field_ok(fv, "egress_policy_sha256"@)
    &&& spec_string_field_ok(fv, "run_mode"@)
    &&& spec_string_field_ok(fv, "maintenance_window_id"@)
}

/// A decoded context agrees with its object, field by field.
pub open spec fn spec_context_matches(fv: Seq<(Seq<char>, JsonValueView)>, c: BenchContext) -> bool {
    &&& c.schema_version == SUPPORTED_SCHEMA_VERSION
    &&& spec_obj_lookup(fv, "label"@) == Some(JsonValueView::Str(c.label@))
    &&& spec_string_field_matches(fv, "git_sha"@, view_opt_string(c.git_sha))
    &&& spec_obj_lookup(fv, "created_at"@) == Some(JsonValueView::Str(c.created_at@))
    &&& spec_obj_lookup(fv, "host"@) == Some(JsonValueView::Str(c.host@))
    &&& spec_obj_lookup(fv, "suite"@) == Some(JsonValueView::Str(c.suite@))
    &&& spec_obj_lookup(fv, "scale"@) == Some(JsonValueView::Str(c.scale@))
    &&& spec_obj_lookup(fv, "iterations"@) == Some(
        JsonValueView::Num(spec_u64_numeral(c.iterations as u64)),
    )
    &&& spec_obj_lookup(fv, "warmup"@) == Some(
        JsonValueView::Num(spec_u64_numeral(c.warmup as u64)),
    )
    &&& spec_string_field_matches(fv, "dataset_id"@, view_opt_string(c.dataset_id))
    &&& spec_string_field_matches(fv, "dataset_fingerprint"@, view_opt_string(c.dataset_fingerprint))
    &&& spec_string_field_matches(fv, "runner"@, view_opt_string(c.runner))
    &&& spec_string_field_matches(fv, "backend_profile"@, view_opt_string(c.backend_profile))
    &&& spec_string_field_matches(fv, "image_version"@, view_opt_string(c.image_version))
    &&& spec_string_field_matches(fv, "hardening_profile_id"@, view_opt_string(c.hardening_profile_id))
    &&& spec_string_field_matches(
        fv,
        "hardening_profile_sha256"@,
        view_opt_string(c.hardening_profile_sha256),
    )
    &&& spec_string_field_matches(fv, "cpu_model"@, view_opt_string(c.cpu_model))
    &&& spec_string_field_matches(fv, "cpu_microcode"@, view_opt_string(c.cpu_microcode))
    &&& spec_string_field_matches(fv, "kernel"@, view_opt_string(c.kernel))
    &&& spec_string_field_matches(fv, "boot_params"@, view_opt_string(c.boot_params))
    &&& (match spec_obj_lookup(fv, "cpu_steal_pct"@) {
        None => c.cpu_steal_pct is None,
        Some(JsonValueView::Null) => c.cpu_steal_pct is None,
        Some(JsonValueView::Num(t)) => (c.cpu_steal_pct matches Some(p) && p@ == t),
        Some(_) => false,
    })
    &&& spec_string_field_matches(fv, "numa_topology"@, view_opt_string(c.numa_topology))
    &&& spec_string_field_matches(fv, "egress_policy_sha256"@, view_opt_string(c.egress_policy_sha256))
    &&& spec_string_field_matches(fv, "run_mode"@, view_opt_string(c.run_mode))
    &&& spec_string_field_matches(
        fv,
        "maintenance_window_id"@,
        view_opt_string(c.maintenance_window_id),
    )
}

fn decode_context(fields: &Vec<(String, JsonValue)>) -> (r: Result<BenchContext, String>)
    ensures
        r matches Ok(c) ==> c.schema_version == SUPPORTED_SCHEMA_VERSION,
        r is Ok <==> spec_context_ok(spec_fields_view(fields@)),
        r matches Ok(c) ==> spec_context_matches(spec_fields_view(fields@), c),
{
    let schema_version = decode_schema_version(fields)?;
    let cpu_steal_pct = match obj_lookup(fields, "cpu_steal_pct") {
        None => None,
        Some(v) => match v {
            JsonValue::Null => None,
            JsonValue::Num(t) => Some(t.clone()),
            _ => {
                return Err(field_error("cpu_steal_pct", "has the wrong type"));
            },
        },
    };
    Ok(
        BenchContext {
            schema_version,
            label: get_req_string(fields, "label")?,
            git_sha: get_opt_string(fields, "git_sha")?,
            created_at: get_req_string(fields, "created_at")?,
            host: get_req_string(fields, "host")?,
            suite: get_req_string(fields, "suite")?,
            scale: get_req_string(fields, "scale")?,
            iterations: u32_field(fields, "iterations")?,
            warmup: u32_field(fields, "warmup")?,
            dataset_id: get_opt_string(fields, "dataset_id")?,
            dataset_fingerprint: get_opt_string(fields, "dataset_fingerprint")?,
            runner: get_opt_string(fields, "runner")?,
            backend_profile: get_opt_string(fields, "backend_profile")?,
            image_version: get_opt_string(fields, "image_version")?,
            hardening_profile_id: get_opt_string(fields, "hardening_profile_id")?,
            hardening_profile_sha256: get_opt_string(fields, "hardening_profile_sha256")?,
            cpu_model: get_opt_string(fields, "cpu_model")?,
            cpu_microcode: get_opt_string(fields, "cpu_microcode")?,
            kernel: get_opt_string(fields, "kernel")?,
            boot_params: get_opt_string(fields, "boot_params")?,
            cpu_steal_pct,
            numa_topology: get_opt_string(fields, "numa_topology")?,
            egress_policy_sha256: get_opt_string(fields, "egress_policy_sha256")?,
            run_mode: get_opt_string(fields, "run_mode")?,
            maintenance_window_id: get_opt_string(fields, "maintenance_window_id")?,
        },
    )
}

/// Reads a whole result document from a JSON value. There is no partial
/// parse: a version mismatch anywhere, an out-of-enum classification or
/// a malformed field rejects the document.
/// A whole result document is readable: an object with the right
/// version, a readable context and readable cases.
pub open spec fn spec_doc_ok(v: JsonValueView) -> bool {
    v matches JsonValueView::Obj(fv) && {
        &&& spec_obj_lookup(fv, "schema_version"@) == Some(
            JsonValueView::Num(spec_u64_numeral(SUPPORTED_SCHEMA_VERSION as u64)),
        )
        &&& (spec_obj_lookup(fv, "context"@) matches Some(JsonValueView::Obj(cf))
            && spec_context_ok(cf))
        &&& (spec_obj_lookup(fv, "cases"@) matches Some(JsonValueView::Arr(items)) && (forall|
            i: int,
        |
            0 <= i < items.len() ==> spec_case_val_ok(#[trigger] items[i])))
    }
}

/// A decoded document agrees with its JSON value: the context field by
/// field and every case in order.
pub open spec fn spec_doc_matches(v: JsonValueView, doc: BenchRunResult) -> bool {
    v matches JsonValueView::Obj(fv) && {
        &&& doc.schema_version == SUPPORTED_SCHEMA_VERSION
        &&& (spec_obj_lookup(fv, "context"@) matches Some(JsonValueView::Obj(cf))
            && spec_context_matches(cf, doc.context))
        &&& (spec_obj_lookup(fv, "cases"@) matches Some(JsonValueView::Arr(items))
            && doc.cases@.len() == items.len() && (forall|i: int|
            0 <= i < items.len() ==> spec_case_val_matches(#[trigger] items[i], doc.cases@[i])))
    }
}

#[verifier::loop_isolation(false)]
pub fn decode_bench_run_result(v: &JsonValue) -> (r: Result<BenchRunResult, String>)
    ensures
        r matches Ok(doc) ==> doc.schema_version == SUPPORTED_SCHEMA_VERSION
            && doc.context.schema_version == SUPPORTED_SCHEMA_VERSION,
        v@ matches JsonValueView::Obj(fv) ==> (spec_obj_lookup(fv, "schema_version"@) matches Some(
            JsonValueView::Num(t),
        ) ==> (t != spec_u64_numeral(SUPPORTED_SCHEMA_VERSION as u64) ==> (r matches Err(m) && m@
            == spec_version_error(t)))),
        r is Ok <==> spec_doc_ok(v@),
        r matches Ok(doc) ==> spec_doc_matches(v@, doc),
{
    let fields = match v {
        JsonValue::Obj(f) => f,
        _ => {
            return Err("result document is not an object".to_owned());
        },
    };
    proof {
        assert(v@ is Obj);
        assert(v@->Obj_0 =~= spec_fields_view(fields@));
    }
    let schema_version = decode_schema_version(fields)?;
    let context = match obj_lookup(fields, "context") {
        Some(cv) => match cv {
            JsonValue::Obj(cf) => {
                proof {
                    assert(cv@ is Obj);
                    assert(cv@->Obj_0 =~= spec_fields_view(cf@));
                }
                match decode_context(cf) {
                    Ok(c) => c,
                    Err(e) => {
                        return Err(e);
                    },
                }
            },
            _ => {
                return Err(field_error("context", "has the wrong type"));
            },
        },
        None => {
            return Err(field_error("context", "is missing"));
        },
    };
    let mut cases: Vec<CaseResult> = Vec::new();
    match obj_lookup(fields, "cases") {
        Some(csv) => match csv {
            JsonValue::Arr(items) => {
                proof {
                    assert(csv@ is Arr);
                    assert(csv@->Arr_0 =~= Seq::new(items@.len(), |i: int| items@[i]@));
                }
                let len = items.len();
                let mut i: usize = 0;
                while i < len
                    invariant
                        len == items@.len(),
                        i <= len,
                        cases@.len() == i as nat,
                        csv@->Arr_0 == Seq::new(items@.len(), |k: int| items@[k]@),
                        forall|k: int|
                            0 <= k < i ==> spec_case_val_ok(#[trigger] items@[k]@)
                                && spec_case_val_matches(items@[k]@, cases@[k]),
                    decreases len - i,
                {
                    let case = match decode_case_result(&items[i]) {
                        Ok(c) => c,
                        Err(e) => {
                            proof {
                                assert(!spec_case_val_ok(csv@->Arr_0[i as int]));
                                assert(!spec_doc_ok(v@));
                            }
                            return Err(e);
                        },
                    };
                    cases.push(case);
                    i += 1;
                }
            },
            _ => {
                return Err(field_error("cases", "has the wrong type"));
            },
        },
        None => {
            return Err(field_error("cases", "is missing"));
        },
    }
    Ok(BenchRunResult { schema_version, context, cases })
}


/// The field-list segment one base counter writes: always present, null
/// when the counter is absent.
pub open spec fn spec_base_u64_seg(key: Seq<char>, v: Option<u64>) -> Seq<
    (Seq<char>, JsonValueView),
> {
    match v {
        Some(n) => seq![(key, JsonValueView::Num(spec_u64_numeral(n)))],
        None => seq![(key, JsonValueView::Null)],
    }
}

/// The field-list segment one optional counter writes: omitted entirely
/// when the counter is absent.
pub open spec fn spec_opt_u64_seg(key: Seq<char>, v: Option<u64>) -> Seq<
    (Seq<char>, JsonValueView),
> {
    match v {
        Some(n) => seq![(key, JsonValueView::Num(spec_u64_numeral(n)))],
        None => Seq::empty(),
    }
}

pub open spec fn spec_opt_str_seg(key: Seq<char>, v: Option<Seq<char>>) -> Seq<
    (Seq<char>, JsonValueView),
> {
    match v {
        Some(text) => seq![(key, JsonValueView::Str(text))],
        None => Seq::empty(),
    }
}

/// The field-list segment one required text field writes.
pub open spec fn spec_req_str_seg(key: Seq<char>, v: Seq<char>) -> Seq<(Seq<char>, JsonValueView)> {
    seq![(key, JsonValueView::Str(v))]
}

/// The field-list segment one always-present counter writes.
pub open spec fn spec_num_seg(key: Seq<char>, n: u64) -> Seq<(Seq<char>, JsonValueView)> {
    seq![(key, JsonValueView::Num(spec_u64_numeral(n)))]
}

/// The exact field list a run context serializes to, in emission order:
/// the version and the required fields always present, each optional
/// field omitted when unset.
pub open spec fn spec_context_fields(c: BenchContext) -> Seq<(Seq<char>, JsonValueView)> {
    spec_num_seg("schema_version"@, c.schema_version as u64) + spec_req_str_seg("label"@, c.label@)
        + spec_opt_str_seg("git_sha"@, view_opt_string(c.git_sha)) + spec_req_str_seg(
        "created_at"@,
        c.created_at@,
    ) + spec_req_str_seg("host"@, c.host@) + spec_req_str_seg("suite"@, c.suite@)
        + spec_req_str_seg("scale"@, c.scale@) + spec_num_seg("iterations"@, c.iterations as u64)
        + spec_num_seg("warmup"@, c.warmup as u64) + spec_opt_str_seg(
        "dataset_id"@,
        view_opt_string(c.dataset_id),
    ) + spec_opt_str_seg("dataset_fingerprint"@, view_opt_string(c.dataset_fingerprint))
        + spec_opt_str_seg("runner"@, view_opt_string(c.runner)) + spec_opt_str_seg(
        "backend_profile"@,
        view_opt_string(c.backend_profile),
    ) + spec_opt_str_seg("image_version"@, view_opt_string(c.image_version)) + spec_opt_str_seg(
        "hardening_profile_id"@,
        view_opt_string(c.hardening_profile_id),
    ) + spec_opt_str_seg("hardening_profile_sha256"@, view_opt_string(c.hardening_profile_sha256))
        + spec_opt_str_seg("cpu_model"@, view_opt_string(c.cpu_model)) + spec_opt_str_seg(
        "cpu_microcode"@,
        view_opt_string(c.cpu_microcode),
    ) + spec_opt_str_seg("kernel"@, view_opt_string(c.kernel)) + spec_opt_str_seg(
        "boot_params"@,
        view_opt_string(c.boot_params),
    ) + (match c.cpu_steal_pct {
        Some(t) => seq![("cpu_steal_pct"@, JsonValueView::Num(t@))],
        None => Seq::empty(),
    }) + spec_opt_str_seg("numa_topology"@, view_opt_string(c.numa_topology)) + spec_opt_str_seg(
        "egress_policy_sha256"@,
        view_opt_string(c.egress_policy_sha256),
    ) + spec_opt_str_seg("run_mode"@, view_opt_string(c.run_mode)) + spec_opt_str_seg(
        "maintenance_window_id"@,
        view_opt_string(c.maintenance_window_id),
    )
}

/// The exact field list one sample serializes to: the time, the base
/// counters, and the metrics record only when present.
pub open spec fn spec_sample_fields(s: IterationSample) -> Seq<(Seq<char>, JsonValueView)> {
    seq![("elapsed_ms"@, JsonValueView::Num(spec_ms_text(s.elapsed_us)))] + spec_base_u64_seg(
        "rows"@,
        s.rows,
    ) + spec_base_u64_seg("bytes"@, s.bytes) + (match s.metrics {
        Some(m) => seq![("metrics"@, JsonValueView::Obj(spec_metrics_fields(m@)))],
        None => Seq::empty(),
    })
}

pub open spec fn spec_sample_json(s: IterationSample) -> JsonValueView {
    JsonValueView::Obj(spec_sample_fields(s))
}

/// The exact field list one case serializes to, its samples in order
/// and its failure written as null when absent.
pub open spec fn spec_case_fields(c: CaseResult) -> Seq<(Seq<char>, JsonValueView)> {
    spec_req_str_seg("case"@, c.case@) + seq![("success"@, JsonValueView::Bool(c.success))]
        + spec_req_str_seg("classification"@, c.classification.spec_str()) + seq![
        (
            "samples"@,
            JsonValueView::Arr(Seq::new(c.samples@.len(), |i: int| spec_sample_json(c.samples@[i]))),
        ),
    ] + (match c.failure {
        Some(f) => seq![
            ("failure"@, JsonValueView::Obj(seq![("message"@, JsonValueView::Str(f.message@))])),
        ],
        None => seq![("failure"@, JsonValueView::Null)],
    })
}

pub open spec fn spec_case_json(c: CaseResult) -> JsonValueView {
    JsonValueView::Obj(spec_case_fields(c))
}

/// The exact field list a whole result document serializes to: the
/// version, the context, and the cases in order.
pub open spec fn spec_doc_fields(doc: BenchRunResult) -> Seq<(Seq<char>, JsonValueView)> {
    spec_num_seg("schema_version"@, doc.schema_version as u64) + seq![
        ("context"@, JsonValueView::Obj(spec_context_fields(doc.context))),
    ] + seq![
        (
            "cases"@,
            JsonValueView::Arr(Seq::new(doc.cases@.len(), |i: int| spec_case_json(doc.cases@[i]))),
        ),
    ]
}

/// The exact field list a sample-metrics record serializes to, in
/// emission order.
pub open spec fn spec_metrics_fields(m: SampleMetricsView) -> Seq<(Seq<char>, JsonValueView)> {
    spec_base_u64_seg("rows_processed"@, m.rows_processed)
        + spec_base_u64_seg("bytes_processed"@, m.bytes_processed)
        + spec_base_u64_seg("operations"@, m.operations)
        + spec_base_u64_seg("table_version"@, m.table_version)
        + spec_opt_u64_seg("files_scanned"@, m.files_scanned)
        + spec_opt_u64_seg("files_pruned"@, m.files_pruned)
        + spec_opt_u64_seg("bytes_scanned"@, m.bytes_scanned)
        + spec_opt_u64_seg("scan_time_ms"@, m.scan_time_ms)
        + spec_opt_u64_seg("rewrite_time_ms"@, m.rewrite_time_ms)
        + spec_opt_u64_seg("peak_rss_mb"@, m.peak_rss_mb)
        + spec_opt_u64_seg("cpu_time_ms"@, m.cpu_time_ms)
        + spec_opt_u64_seg("bytes_read"@, m.bytes_read)
        + spec_opt_u64_seg("bytes_written"@, m.bytes_written)
        + spec_opt_u64_seg("files_touched"@, m.files_touched)
        + spec_opt_u64_seg("files_skipped"@, m.files_skipped)
        + spec_opt_u64_seg("spill_bytes"@, m.spill_bytes)
        + spec_opt_str_seg("result_hash"@, m.result_hash)
}

fn push_u64_field(fields: &mut Vec<(String, JsonValue)>, key: &str, value: Option<u64>)
    ensures
        final(fields)@.len() >= old(fields)@.len(),
        old(fields)@.len() > 0 ==> final(fields)@[0] == old(fields)@[0],
        forall|i: int|
            0 <= i < old(fields)@.len() ==> final(fields)@[i] == #[trigger] old(fields)@[i],
        spec_fields_view(final(fields)@) == spec_fields_view(old(fields)@) + spec_opt_u64_seg(
            key@,
            value,
        ),
{
    match value {
        Some(n) => {
            fields.push((key.to_owned(), JsonValue::Num(u64_to_string(n))));
            proof {
                assert(spec_fields_view(fields@) =~= spec_fields_view(old(fields)@)
                    + spec_opt_u64_seg(key@, value));
            }
        },
        None => {
            proof {
                assert(spec_fields_view(fields@) =~= spec_fields_view(old(fields)@)
                    + spec_opt_u64_seg(key@, value));
            }
        },
    }
}

fn push_base_u64_field(fields: &mut Vec<(String, JsonValue)>, key: &str, value: Option<u64>)
    ensures
        final(fields)@.len() >= old(fields)@.len(),
        old(fields)@.len() > 0 ==> final(fields)@[0] == old(fields)@[0],
        forall|i: int|
            0 <= i < old(fields)@.len() ==> final(fields)@[i] == #[trigger] old(fields)@[i],
        spec_fields_view(final(fields)@) == spec_fields_view(old(fields)@) + spec_base_u64_seg(
            key@,
            value,
        ),
{
    match value {
        Some(n) => {
            fields.push((key.to_owned(), JsonValue::Num(u64_to_string(n))));
            proof {
                assert(spec_fields_view(fields@) =~= spec_fields_view(old(fields)@)
                    + spec_base_u64_seg(key@, value));
            }
        },
        None => {
            fields.push((key.to_owned(), JsonValue::Null));
            proof {
                assert(spec_fields_view(fields@) =~= spec_fields_view(old(fields)@)
                    + spec_base_u64_seg(key@, value));
            }
        },
    }
}

fn push_string_field(fields: &mut Vec<(String, JsonValue)>, key: &str, value: &Option<String>)
    ensures
        final(fields)@.len() >= old(fields)@.len(),
        old(fields)@.len() > 0 ==> final(fields)@[0] == old(fields)@[0],
        forall|i: int|
            0 <= i < old(fields)@.len() ==> final(fields)@[i] == #[trigger] old(fields)@[i],
        spec_fields_view(final(fields)@) == spec_fields_view(old(fields)@) + spec_opt_str_seg(
            key@,
            crate::results::view_opt_string(*value),
        ),
{
    match value {
        Some(s) => {
            fields.push((key.to_owned(), JsonValue::Str(s.clone())));
            proof {
                assert(spec_fields_view(fields@) =~= spec_fields_view(old(fields)@)
                    + spec_opt_str_seg(key@, crate::results::view_opt_string(*value)));
            }
        },
        None => {
            proof {
                assert(spec_fields_view(fields@) =~= spec_fields_view(old(fields)@)
                    + spec_opt_str_seg(key@, crate::results::view_opt_string(*value)));
            }
        },
    }
}

fn push_req_string_field(fields: &mut Vec<(String, JsonValue)>, key: &str, value: &String)
    ensures
        final(fields)@.len() == old(fields)@.len() + 1,
        old(fields)@.len() > 0 ==> final(fields)@[0] == old(fields)@[0],
        forall|i: int|
            0 <= i < old(fields)@.len() ==> final(fields)@[i] == #[trigger] old(fields)@[i],
        spec_fields_view(final(fields)@) == spec_fields_view(old(fields)@) + spec_req_str_seg(
            key@,
            value@,
        ),
{
    fields.push((key.to_owned(), JsonValue::Str(value.clone())));
    proof {
        assert(spec_fields_view(fields@) =~= spec_fields_view(old(fields)@) + spec_req_str_seg(
            key@,
            value@,
        ));
    }
}

/// Writes one sample-metrics record: the base counters are always
/// present (null when absent), the optional counter groups are omitted
/// when unset; the field list is exactly `spec_metrics_fields`.
pub fn encode_sample_metrics(m: &SampleMetrics) -> (r: JsonValue)
    ensures
        r@ matches JsonValueView::Obj(fv) && fv == spec_metrics_fields(m@),
{
    let mut fields: Vec<(String, JsonValue)> = Vec::new();
    push_base_u64_field(&mut fields, "rows_processed", m.rows_processed);
    push_base_u64_field(&mut fields, "bytes_processed", m.bytes_processed);
    push_base_u64_field(&mut fields, "operations", m.operations);
    push_base_u64_field(&mut fields, "table_version", m.table_version);
    push_u64_field(&mut fields, "files_scanned", m.files_scanned);
    push_u64_field(&mut fields, "files_pruned", m.files_pruned);
    push_u64_field(&mut fields, "bytes_scanned", m.bytes_scanned);
    push_u64_field(&mut fields, "scan_time_ms", m.scan_time_ms);
    push_u64_field(&mut fields, "rewrite_time_ms", m.rewrite_time_ms);
    push_u64_field(&mut fields, "peak_rss_mb", m.peak_rss_mb);
    push_u64_field(&mut fields, "cpu_time_ms", m.cpu_time_ms);
    push_u64_field(&mut fields, "bytes_read", m.bytes_read);
    push_u64_field(&mut fields, "bytes_written", m.bytes_written);
    push_u64_field(&mut fields, "files_touched", m.files_touched);
    push_u64_field(&mut fields, "files_skipped", m.files_skipped);
    push_u64_field(&mut fields, "spill_bytes", m.spill_bytes);
    push_string_field(&mut fields, "result_hash", &m.result_hash);
    proof {
        assert(Seq::<(Seq<char>, JsonValueView)>::empty() + spec_base_u64_seg(
            "rows_processed"@,
            m.rows_processed,
        ) =~= spec_base_u64_seg("rows_processed"@, m.rows_processed));
        assert(spec_fields_view(fields@) =~= spec_metrics_fields(m@));
    }
    let ghost fvals = fields@;
    let result = JsonValue::Obj(fields);
    proof {
        assert(result@ is Obj);
        assert(result@->Obj_0 =~= spec_fields_view(fvals));
    }
    result
}

/// Writes one sample, exactly as `spec_sample_fields` states.
fn encode_iteration_sample(s: &IterationSample) -> (r: JsonValue)
    ensures
        r@ == spec_sample_json(*s),
{
    let mut fields: Vec<(String, JsonValue)> = Vec::new();
    fields.push(("elapsed_ms".to_owned(), JsonValue::Num(elapsed_us_to_ms_text(s.elapsed_us))));
    proof {
        assert(spec_fields_view(fields@) =~= seq![
            ("elapsed_ms"@, JsonValueView::Num(spec_ms_text(s.elapsed_us))),
        ]);
    }
    push_base_u64_field(&mut fields, "rows", s.rows);
    push_base_u64_field(&mut fields, "bytes", s.bytes);
    match &s.metrics {
        Some(m) => {
            fields.push(("metrics".to_owned(), encode_sample_metrics(m)));
        },
        None => {},
    }
    proof {
        assert(spec_fields_view(fields@) =~= spec_sample_fields(*s));
    }
    let ghost fvals = fields@;
    let result = JsonValue::Obj(fields);
    proof {
        assert(result@ is Obj);
        assert(result@->Obj_0 =~= spec_fields_view(fvals));
    }
    result
}

/// Writes one case, exactly as `spec_case_fields` states.
#[verifier::loop_isolation(false)]
fn encode_case_result(c: &CaseResult) -> (r: JsonValue)
    ensures
        r@ == spec_case_json(*c),
{
    let mut fields: Vec<(String, JsonValue)> = Vec::new();
    push_req_string_field(&mut fields, "case", &c.case);
    fields.push(("success".to_owned(), JsonValue::Bool(c.success)));
    fields.push(
        ("classification".to_owned(), JsonValue::Str(c.classification.as_str().to_owned())),
    );
    let mut samples: Vec<JsonValue> = Vec::new();
    let len = c.samples.len();
    let mut i: usize = 0;
    while i < len
        invariant
            len == c.samples@.len(),
            i <= len,
            samples@.len() == i as nat,
            forall|k: int| 0 <= k < i ==> (#[trigger] samples@[k])@ == spec_sample_json(
                c.samples@[k],
            ),
        decreases len - i,
    {
        let sample = encode_iteration_sample(&c.samples[i]);
        samples.push(sample);
        i += 1;
    }
    let ghost samplesv = samples@;
    let samples_value = JsonValue::Arr(samples);
    proof {
        assert(samples_value@ is Arr);
        assert(samples_value@->Arr_0 =~= Seq::new(
            c.samples@.len(),
            |k: int| spec_sample_json(c.samples@[k]),
        ));
    }
    fields.push(("samples".to_owned(), samples_value));
    match &c.failure {
        Some(f) => {
            let mut ff: Vec<(String, JsonValue)> = Vec::new();
            push_req_string_field(&mut ff, "message", &f.message);
            proof {
                assert(spec_fields_view(ff@) =~= seq![
                    ("message"@, JsonValueView::Str(f.message@)),
                ]);
            }
            let ghost ffv = ff@;
            let failure_value = JsonValue::Obj(ff);
            proof {
                assert(failure_value@ is Obj);
                assert(failure_value@->Obj_0 =~= spec_fields_view(ffv));
            }
            fields.push(("failure".to_owned(), failure_value));
        },
        None => {
            fields.push(("failure".to_owned(), JsonValue::Null));
        },
    }
    proof {
        assert(spec_fields_view(fields@) =~= spec_case_fields(*c));
    }
    let ghost fvals = fields@;
    let result = JsonValue::Obj(fields);
    proof {
        assert(result@ is Obj);
        assert(result@->Obj_0 =~= spec_fields_view(fvals));
    }
    result
}

/// Writes the run context, exactly as `spec_context_fields` states.
#[verifier::rlimit(100)]
fn encode_context(c: &BenchContext) -> (r: JsonValue)
    ensures
        r@ matches JsonValueView::Obj(fv) && spec_obj_lookup(fv, "schema_version"@) == Some(
            JsonValueView::Num(spec_u64_numeral(c.schema_version as u64)),
        ),
        r@ == JsonValueView::Obj(spec_context_fields(*c)),
{
    let mut fields: Vec<(String, JsonValue)> = Vec::new();
    let version_key = "schema_version".to_owned();
    let version_value = JsonValue::Num(u64_to_string(c.schema_version as u64));
    proof {
        assert(spec_json_view(version_value) == JsonValueView::Num(
            spec_u64_numeral(c.schema_version as u64),
        ));
    }
    fields.push((version_key, version_value));
    proof {
        assert(fields@[0].0@ == "schema_version"@);
        assert(spec_json_view(fields@[0].1) == JsonValueView::Num(
            spec_u64_numeral(c.schema_version as u64),
        ));
        assert(spec_fields_view(fields@) =~= spec_num_seg(
            "schema_version"@,
            c.schema_version as u64,
        ));
    }
    push_req_string_field(&mut fields, "label", &c.label);
    push_string_field(&mut fields, "git_sha", &c.git_sha);
    push_req_string_field(&mut fields, "created_at", &c.created_at);
    push_req_string_field(&mut fields, "host", &c.host);
    push_req_string_field(&mut fields, "suite", &c.suite);
    push_req_string_field(&mut fields, "scale", &c.scale);
    let ghost fv_a = spec_fields_view(fields@);
    fields.push(("iterations".to_owned(), JsonValue::Num(u64_to_string(c.iterations as u64))));
    proof {
        assert(spec_fields_view(fields@) =~= fv_a + spec_num_seg(
            "iterations"@,
            c.iterations as u64,
        ));
    }
    let ghost fv_b = spec_fields_view(fields@);
    fields.push(("warmup".to_owned(), JsonValue::Num(u64_to_string(c.warmup as u64))));
    proof {
        assert(spec_fields_view(fields@) =~= fv_b + spec_num_seg("warmup"@, c.warmup as u64));
    }
    push_string_field(&mut fields, "dataset_id", &c.dataset_id);
    push_string_field(&mut fields, "dataset_fingerprint", &c.dataset_fingerprint);
    push_string_field(&mut fields, "runner", &c.runner);
    push_string_field(&mut fields, "backend_profile", &c.backend_profile);
    push_string_field(&mut fields, "image_version", &c.image_version);
    push_string_field(&mut fields, "hardening_profile_id", &c.hardening_profile_id);
    push_string_field(&mut fields, "hardening_profile_sha256", &c.hardening_profile_sha256);
    push_string_field(&mut fields, "cpu_model", &c.cpu_model);
    push_string_field(&mut fields, "cpu_microcode", &c.cpu_microcode);
    push_string_field(&mut fields, "kernel", &c.kernel);
    push_string_field(&mut fields, "boot_params", &c.boot_params);
    let ghost fv_c = spec_fields_view(fields@);
    match &c.cpu_steal_pct {
        Some(t) => {
            fields.push(("cpu_steal_pct".to_owned(), JsonValue::Num(t.clone())));
            proof {
                assert(spec_fields_view(fields@) =~= fv_c + seq![
                    ("cpu_steal_pct"@, JsonValueView::Num(t@)),
                ]);
            }
        },
        None => {},
    }
    push_string_field(&mut fields, "numa_topology", &c.numa_topology);
    push_string_field(&mut fields, "egress_policy_sha256", &c.egress_policy_sha256);
    push_string_field(&mut fields, "run_mode", &c.run_mode);
    push_string_field(&mut fields, "maintenance_window_id", &c.maintenance_window_id);
    proof {
        assert(fields@.len() >= 1);
        assert(fields@[0].0@ == "schema_version"@);
        assert(spec_json_view(fields@[0].1) == JsonValueView::Num(
            spec_u64_numeral(c.schema_version as u64),
        ));
        assert(spec_fields_view(fields@) =~= spec_context_fields(*c));
    }
    let ghost fvals = fields@;
    let result = JsonValue::Obj(fields);
    proof {
        assert(result@ is Obj);
        assert(result@->Obj_0[0] == (fvals[0].0@, spec_json_view(fvals[0].1)));
        assert(spec_obj_lookup(result@->Obj_0, "schema_version"@) == Some(
            JsonValueView::Num(spec_u64_numeral(c.schema_version as u64)),
        ));
        assert(result@->Obj_0 =~= spec_fields_view(fvals));
    }
    result
}

/// Writes a whole result document, exactly as `spec_doc_fields` states.
/// Optional fields are omitted when unset so older consumers stay
/// tolerant, but the version fields are always emitted, at the root and
/// inside the context.
#[verifier::loop_isolation(false)]
pub fn encode_bench_run_result(doc: &BenchRunResult) -> (r: JsonValue)
    ensures
        r@ matches JsonValueView::Obj(fv) && spec_obj_lookup(fv, "schema_version"@) == Some(
            JsonValueView::Num(spec_u64_numeral(doc.schema_version as u64)),
        ),
        r@ == JsonValueView::Obj(spec_doc_fields(*doc)),
{
    let mut fields: Vec<(String, JsonValue)> = Vec::new();
    let version_key = "schema_version".to_owned();
    let version_value = JsonValue::Num(u64_to_string(doc.schema_version as u64));
    proof {
        assert(spec_json_view(version_value) == JsonValueView::Num(
            spec_u64_numeral(doc.schema_version as u64),
        ));
    }
    fields.push((version_key, version_value));
    proof {
        assert(fields@[0].0@ == "schema_version"@);
        assert(spec_json_view(fields@[0].1) == JsonValueView::Num(
            spec_u64_numeral(doc.schema_version as u64),
        ));
    }
    proof {
        assert(spec_fields_view(fields@) =~= spec_num_seg(
            "schema_version"@,
            doc.schema_version as u64,
        ));
    }
    let ghost fv_a = spec_fields_view(fields@);
    fields.push(("context".to_owned(), encode_context(&doc.context)));
    proof {
        assert(spec_fields_view(fields@) =~= fv_a + seq![
            ("context"@, JsonValueView::Obj(spec_context_fields(doc.context))),
        ]);
    }
    let mut cases: Vec<JsonValue> = Vec::new();
    let len = doc.cases.len();
    let mut i: usize = 0;
    while i < len
        invariant
            len == doc.cases@.len(),
            i <= len,
            cases@.len() == i as nat,
            forall|k: int| 0 <= k < i ==> (#[trigger] cases@[k])@ == spec_case_json(doc.cases@[k]),
        decreases len - i,
    {
        let case = encode_case_result(&doc.cases[i]);
        cases.push(case);
        i += 1;
    }
    let ghost fv_b = spec_fields_view(fields@);
    let cases_value = JsonValue::Arr(cases);
    proof {
        assert(cases_value@ is Arr);
        assert(cases_value@->Arr_0 =~= Seq::new(
            doc.cases@.len(),
            |k: int| spec_case_json(doc.cases@[k]),
        ));
    }
    fields.push(("cases".to_owned(), cases_value));
    proof {
        assert(spec_fields_view(fields@) =~= fv_b + seq![
            (
                "cases"@,
                JsonValueView::Arr(
                    Seq::new(doc.cases@.len(), |k: int| spec_case_json(doc.cases@[k])),
                ),
            ),
        ]);
        assert(fields@.len() >= 1);
        assert(fields@[0].0@ == "schema_version"@);
        assert(spec_json_view(fields@[0].1) == JsonValueView::Num(
            spec_u64_numeral(doc.schema_version as u64),
        ));
        assert(spec_fields_view(fields@) =~= spec_doc_fields(*doc));
    }
    let ghost fvals = fields@;
    let result = JsonValue::Obj(fields);
    proof {
        assert(result@ is Obj);
        assert(result@->Obj_0[0] == (fvals[0].0@, spec_json_view(fvals[0].1)));
        assert(spec_obj_lookup(result@->Obj_0, "schema_version"@) == Some(
            JsonValueView::Num(spec_u64_numeral(doc.schema_version as u64)),
        ));
        assert(result@->Obj_0 =~= spec_fields_view(fvals));
    }
    result
}

/// Serializes a result document as JSON text: the exact field list of
/// `spec_doc_fields`, rendered as `spec_render_json` states.
pub fn bench_run_result_to_json_text(doc: &BenchRunResult) -> (r: String)
    ensures
        r@ == crate::jsonval::spec_render_json(JsonValueView::Obj(spec_doc_fields(*doc))),
{
    let value = encode_bench_run_result(doc);
    render_json(&value)
}

/// Parses JSON text into a result document, strictly: whatever value
/// the text reads as must be a readable document, and the result agrees
/// with it field by field.
pub fn parse_bench_run_result(text: &str) -> (r: Result<BenchRunResult, String>)
    ensures
        r matches Ok(doc) ==> doc.schema_version == SUPPORTED_SCHEMA_VERSION
            && doc.context.schema_version == SUPPORTED_SCHEMA_VERSION,
        r matches Ok(doc) ==> exists|v: JsonValueView|
            #[trigger] spec_doc_ok(v) && spec_doc_matches(v, doc),
{
    let value = parse_json(text)?;
    decode_bench_run_result(&value)
}


proof fn lemma_lookup_append(
    a: Seq<(Seq<char>, JsonValueView)>,
    b: Seq<(Seq<char>, JsonValueView)>,
    key: Seq<char>,
)
    ensures
        spec_obj_lookup(a + b, key) == (match spec_obj_lookup(a, key) {
            Some(v) => Some(v),
            None => spec_obj_lookup(b, key),
        }),
    decreases a.len(),
{
    if a.len() == 0 {
        assert(a + b =~= b);
    } else {
        assert((a + b)[0] == a[0]);
        assert((a + b).drop_first() =~= a.drop_first() + b);
        lemma_lookup_append(a.drop_first(), b, key);
    }
}

/// What a lookup in an encoded metrics record resolves to, key by key,
/// in emission order.
pub open spec fn spec_metrics_lookup_model(m: SampleMetricsView, key: Seq<char>) -> Option<
    JsonValueView,
> {
    if key == "rows_processed"@ {
        Some(spec_base_value(m.rows_processed))
    } else if key == "bytes_processed"@ {
        Some(spec_base_value(m.bytes_processed))
    } else if key == "operations"@ {
        Some(spec_base_value(m.operations))
    } else if key == "table_version"@ {
        Some(spec_base_value(m.table_version))
    } else if key == "files_scanned"@ {
        spec_opt_value(m.files_scanned)
    } else if key == "files_pruned"@ {
        spec_opt_value(m.files_pruned)
    } else if key == "bytes_scanned"@ {
        spec_opt_value(m.bytes_scanned)
    } else if key == "scan_time_ms"@ {
        spec_opt_value(m.scan_time_ms)
    } else if key == "rewrite_time_ms"@ {
        spec_opt_value(m.rewrite_time_ms)
    } else if key == "peak_rss_mb"@ {
        spec_opt_value(m.peak_rss_mb)
    } else if key == "cpu_time_ms"@ {
        spec_opt_value(m.cpu_time_ms)
    } else if key == "bytes_read"@ {
        spec_opt_value(m.bytes_read)
    } else if key == "bytes_written"@ {
        spec_opt_value(m.bytes_written)
    } else if key == "files_touched"@ {
        spec_opt_value(m.files_touched)
    } else if key == "files_skipped"@ {
        spec_opt_value(m.files_skipped)
    } else if key == "spill_bytes"@ {
        spec_opt_value(m.spill_bytes)
    } else if key == "result_hash"@ {
        match m.result_hash {
            Some(text) => Some(JsonValueView::Str(text)),
            None => None,
        }
    } else {
        None
    }
}

pub open spec fn spec_base_value(v: Option<u64>) -> JsonValueView {
    match v {
        Some(n) => JsonValueView::Num(spec_u64_numeral(n)),
        None => JsonValueView::Null,
    }
}

pub open spec fn spec_opt_value(v: Option<u64>) -> Option<JsonValueView> {
    match v {
        Some(n) => Some(JsonValueView::Num(spec_u64_numeral(n))),
        None => None,
    }
}

proof fn lemma_seg_lookup_base(key: Seq<char>, v: Option<u64>, probe: Seq<char>)
    ensures
        spec_obj_lookup(spec_base_u64_seg(key, v), probe) == (if probe == key {
            Some(spec_base_value(v))
        } else {
            None
        }),
{
    reveal_with_fuel(spec_obj_lookup, 3);
    assert(spec_base_u64_seg(key, v).len() == 1);
    assert(spec_base_u64_seg(key, v)[0].0 == key);
    assert(spec_base_u64_seg(key, v).drop_first() =~= Seq::<(Seq<char>, JsonValueView)>::empty());
}

proof fn lemma_seg_lookup_opt(key: Seq<char>, v: Option<u64>, probe: Seq<char>)
    ensures
        spec_obj_lookup(spec_opt_u64_seg(key, v), probe) == (if probe == key {
            spec_opt_value(v)
        } else {
            None
        }),
{
    reveal_with_fuel(spec_obj_lookup, 3);
    match v {
        Some(_) => {
            assert(spec_opt_u64_seg(key, v).len() == 1);
            assert(spec_opt_u64_seg(key, v)[0].0 == key);
            assert(spec_opt_u64_seg(key, v).drop_first() =~= Seq::<
                (Seq<char>, JsonValueView),
            >::empty());
        },
        None => {
            assert(spec_opt_u64_seg(key, v).len() == 0);
        },
    }
}

proof fn lemma_seg_lookup_str(key: Seq<char>, v: Option<Seq<char>>, probe: Seq<char>)
    ensures
        spec_obj_lookup(spec_opt_str_seg(key, v), probe) == (if probe == key {
            match v {
                Some(text) => Some(JsonValueView::Str(text)),
                None => None,
            }
        } else {
            None
        }),
{
    reveal_with_fuel(spec_obj_lookup, 3);
    match v {
        Some(_) => {
            assert(spec_opt_str_seg(key, v).len() == 1);
            assert(spec_opt_str_seg(key, v)[0].0 == key);
            assert(spec_opt_str_seg(key, v).drop_first() =~= Seq::<
                (Seq<char>, JsonValueView),
            >::empty());
        },
        None => {
            assert(spec_opt_str_seg(key, v).len() == 0);
        },
    }
}

/// Every lookup in an encoded metrics record resolves as the key-by-key
/// model states: first match in emission order, absent otherwise.

spec fn spec_metrics_lookup_model_front(m: SampleMetricsView, key: Seq<char>) -> Option<
    JsonValueView,
> {
    if key == "rows_processed"@ {
        Some(spec_base_value(m.rows_processed))
    } else if key == "bytes_processed"@ {
        Some(spec_base_value(m.bytes_processed))
    } else if key == "operations"@ {
        Some(spec_base_value(m.operations))
    } else if key == "table_version"@ {
        Some(spec_base_value(m.table_version))
    } else if key == "files_scanned"@ {
        spec_opt_value(m.files_scanned)
    } else if key == "files_pruned"@ {
        spec_opt_value(m.files_pruned)
    } else if key == "bytes_scanned"@ {
        spec_opt_value(m.bytes_scanned)
    } else if key == "scan_time_ms"@ {
        spec_opt_value(m.scan_time_ms)
    } else if key == "rewrite_time_ms"@ {
        spec_opt_value(m.rewrite_time_ms)
    } else {
        None
    }
}


proof fn proof_keys_revealed()
    ensures
        "rows_processed"@.len() == 14,
        "bytes_processed"@.len() == 15,
        "operations"@.len() == 10,
        "table_version"@.len() == 13,
        "files_scanned"@.len() == 13,
        "files_pruned"@.len() == 12,
        "bytes_scanned"@.len() == 13,
        "scan_time_ms"@.len() == 12,
        "rewrite_time_ms"@.len() == 15,
        "peak_rss_mb"@.len() == 11,
        "cpu_time_ms"@.len() == 11,
        "bytes_read"@.len() == 10,
        "bytes_written"@.len() == 13,
        "files_touched"@.len() == 13,
        "files_skipped"@.len() == 13,
        "spill_bytes"@.len() == 11,
        "result_hash"@.len() == 11,
        "files_scanned"@ != "bytes_scanned"@,
        "files_scanned"@ != "bytes_written"@,
        "files_scanned"@ != "files_touched"@,
        "files_scanned"@ != "files_skipped"@,
        "files_scanned"@ != "table_version"@,
        "bytes_scanned"@ != "bytes_written"@,
        "bytes_scanned"@ != "files_touched"@,
        "bytes_scanned"@ != "files_skipped"@,
        "bytes_scanned"@ != "table_version"@,
        "bytes_written"@ != "files_touched"@,
        "bytes_written"@ != "files_skipped"@,
        "bytes_written"@ != "table_version"@,
        "files_touched"@ != "files_skipped"@,
        "files_touched"@ != "table_version"@,
        "files_skipped"@ != "table_version"@,
        "files_pruned"@ != "scan_time_ms"@,
        "rewrite_time_ms"@ != "bytes_processed"@,
        "peak_rss_mb"@ != "cpu_time_ms"@,
        "peak_rss_mb"@ != "spill_bytes"@,
        "peak_rss_mb"@ != "result_hash"@,
        "cpu_time_ms"@ != "spill_bytes"@,
        "cpu_time_ms"@ != "result_hash"@,
        "spill_bytes"@ != "result_hash"@,
        "operations"@ != "bytes_read"@,
{
    reveal_strlit("rows_processed");
    reveal_strlit("bytes_processed");
    reveal_strlit("operations");
    reveal_strlit("table_version");
    reveal_strlit("files_scanned");
    reveal_strlit("files_pruned");
    reveal_strlit("bytes_scanned");
    reveal_strlit("scan_time_ms");
    reveal_strlit("rewrite_time_ms");
    reveal_strlit("peak_rss_mb");
    reveal_strlit("cpu_time_ms");
    reveal_strlit("bytes_read");
    reveal_strlit("bytes_written");
    reveal_strlit("files_touched");
    reveal_strlit("files_skipped");
    reveal_strlit("spill_bytes");
    reveal_strlit("result_hash");
    assert("files_scanned"@[0] == 'f');
    assert("bytes_scanned"@[0] == 'b');
    assert("files_scanned"@ != "bytes_scanned"@);
    assert("bytes_written"@[0] == 'b');
    assert("files_scanned"@ != "bytes_written"@);
    assert("files_scanned"@[6] == 's');
    assert("files_touched"@[6] == 't');
    assert("files_scanned"@ != "files_touched"@);
    assert("files_scanned"@[7] == 'c');
    assert("files_skipped"@[7] == 'k');
    assert("files_scanned"@ != "files_skipped"@);
    assert("table_version"@[0] == 't');
    assert("files_scanned"@ != "table_version"@);
    assert("bytes_scanned"@[6] == 's');
    assert("bytes_written"@[6] == 'w');
    assert("bytes_scanned"@ != "bytes_written"@);
    assert("files_touched"@[0] == 'f');
    assert("bytes_scanned"@ != "files_touched"@);
    assert("files_skipped"@[0] == 'f');
    assert("bytes_scanned"@ != "files_skipped"@);
    assert("bytes_scanned"@ != "table_version"@);
    assert("bytes_written"@ != "files_touched"@);
    assert("bytes_written"@ != "files_skipped"@);
    assert("bytes_written"@ != "table_version"@);
    assert("files_skipped"@[6] == 's');
    assert("files_touched"@ != "files_skipped"@);
    assert("files_touched"@ != "table_version"@);
    assert("files_skipped"@ != "table_version"@);
    assert("files_pruned"@[0] == 'f');
    assert("scan_time_ms"@[0] == 's');
    assert("files_pruned"@ != "scan_time_ms"@);
    assert("rewrite_time_ms"@[0] == 'r');
    assert("bytes_processed"@[0] == 'b');
    assert("rewrite_time_ms"@ != "bytes_processed"@);
    assert("peak_rss_mb"@[0] == 'p');
    assert("cpu_time_ms"@[0] == 'c');
    assert("peak_rss_mb"@ != "cpu_time_ms"@);
    assert("spill_bytes"@[0] == 's');
    assert("peak_rss_mb"@ != "spill_bytes"@);
    assert("result_hash"@[0] == 'r');
    assert("peak_rss_mb"@ != "result_hash"@);
    assert("cpu_time_ms"@ != "spill_bytes"@);
    assert("cpu_time_ms"@ != "result_hash"@);
    assert("spill_bytes"@ != "result_hash"@);
    assert("operations"@[0] == 'o');
    assert("bytes_read"@[0] == 'b');
    assert("operations"@ != "bytes_read"@);
}

proof fn lemma_metrics_lookup_front(m: SampleMetricsView, key: Seq<char>)
    ensures
        spec_obj_lookup(spec_base_u64_seg("rows_processed"@, m.rows_processed) + spec_base_u64_seg("bytes_processed"@, m.bytes_processed) + spec_base_u64_seg("operations"@, m.operations) + spec_base_u64_seg("table_version"@, m.table_version) + spec_opt_u64_seg("files_scanned"@, m.files_scanned) + spec_opt_u64_seg("files_pruned"@, m.files_pruned) + spec_opt_u64_seg("bytes_scanned"@, m.bytes_scanned) + spec_opt_u64_seg("scan_time_ms"@, m.scan_time_ms) + spec_opt_u64_seg("rewrite_time_ms"@, m.rewrite_time_ms), key) == spec_metrics_lookup_model_front(m, key),
{
    proof_keys_revealed();
    lemma_seg_lookup_base("rows_processed"@, m.rows_processed, key);
    lemma_seg_lookup_base("bytes_processed"@, m.bytes_processed, key);
    lemma_seg_lookup_base("operations"@, m.operations, key);
    lemma_seg_lookup_base("table_version"@, m.table_version, key);
    lemma_seg_lookup_opt("files_scanned"@, m.files_scanned, key);
    lemma_seg_lookup_opt("files_pruned"@, m.files_pruned, key);
    lemma_seg_lookup_opt("bytes_scanned"@, m.bytes_scanned, key);
    lemma_seg_lookup_opt("scan_time_ms"@, m.scan_time_ms, key);
    lemma_seg_lookup_opt("rewrite_time_ms"@, m.rewrite_time_ms, key);
    lemma_lookup_append(
        spec_base_u64_seg("rows_processed"@, m.rows_processed),
        spec_base_u64_seg("bytes_processed"@, m.bytes_processed),
        key,
    );
    lemma_lookup_append(
        spec_base_u64_seg("rows_processed"@, m.rows_processed) + spec_base_u64_seg("bytes_processed"@, m.bytes_processed),
        spec_base_u64_seg("operations"@, m.operations),
        key,
    );
    lemma_lookup_append(
        spec_base_u64_seg("rows_processed"@, m.rows_processed) + spec_base_u64_seg("bytes_processed"@, m.bytes_processed) + spec_base_u64_seg("operations"@, m.operations),
        spec_base_u64_seg("table_version"@, m.table_version),
        key,
    );
    lemma_lookup_append(
        spec_base_u64_seg("rows_processed"@, m.rows_processed) + spec_base_u64_seg("bytes_processed"@, m.bytes_processed) + spec_base_u64_seg("operations"@, m.operations) + spec_base_u64_seg("table_version"@, m.table_version),
        spec_opt_u64_seg("files_scanned"@, m.files_scanned),
        key,
    );
    lemma_lookup_append(
        spec_base_u64_seg("rows_processed"@, m.rows_processed) + spec_base_u64_seg("bytes_processed"@, m.bytes_processed) + spec_base_u64_seg("operations"@, m.operations) + spec_base_u64_seg("table_version"@, m.table_version) + spec_opt_u64_seg("files_scanned"@, m.files_scanned),
        spec_opt_u64_seg("files_pruned"@, m.files_pruned),
        key,
    );
    lemma_lookup_append(
        spec_base_u64_seg("rows_processed"@, m.rows_processed) + spec_base_u64_seg("bytes_processed"@, m.bytes_processed) + spec_base_u64_seg("operations"@, m.operations) + spec_base_u64_seg("table_version"@, m.table_version) + spec_opt_u64_seg("files_scanned"@, m.files_scanned) + spec_opt_u64_seg("files_pruned"@, m.files_pruned),
        spec_opt_u64_seg("bytes_scanned"@, m.bytes_scanned),
        key,
    );
    lemma_lookup_append(
        spec_base_u64_seg("rows_processed"@, m.rows_processed) + spec_base_u64_seg("bytes_processed"@, m.bytes_processed) + spec_base_u64_seg("operations"@, m.operations) + spec_base_u64_seg("table_version"@, m.table_version) + spec_opt_u64_seg("files_scanned"@, m.files_scanned) + spec_opt_u64_seg("files_pruned"@, m.files_pruned) + spec_opt_u64_seg("bytes_scanned"@, m.bytes_scanned),
        spec_opt_u64_seg("scan_time_ms"@, m.scan_time_ms),
        key,
    );
    lemma_lookup_append(
        spec_base_u64_seg("rows_processed"@, m.rows_processed) + spec_base_u64_seg("bytes_processed"@, m.bytes_processed) + spec_base_u64_seg("operations"@, m.operations) + spec_base_u64_seg("table_version"@, m.table_version) + spec_opt_u64_seg("files_scanned"@, m.files_scanned) + spec_opt_u64_seg("files_pruned"@, m.files_pruned) + spec_opt_u64_seg("bytes_scanned"@, m.bytes_scanned) + spec_opt_u64_seg("scan_time_ms"@, m.scan_time_ms),
        spec_opt_u64_seg("rewrite_time_ms"@, m.rewrite_time_ms),
        key,
    );
}
#[verifier::rlimit(100)]
pub proof fn lemma_metrics_lookup(m: SampleMetricsView, key: Seq<char>)
    ensures
        spec_obj_lookup(spec_metrics_fields(m), key) == spec_metrics_lookup_model(m, key),
{
    proof_keys_revealed();
    lemma_metrics_lookup_front(m, key);
    lemma_seg_lookup_opt("peak_rss_mb"@, m.peak_rss_mb, key);
    lemma_seg_lookup_opt("cpu_time_ms"@, m.cpu_time_ms, key);
    lemma_seg_lookup_opt("bytes_read"@, m.bytes_read, key);
    lemma_seg_lookup_opt("bytes_written"@, m.bytes_written, key);
    lemma_seg_lookup_opt("files_touched"@, m.files_touched, key);
    lemma_seg_lookup_opt("files_skipped"@, m.files_skipped, key);
    lemma_seg_lookup_opt("spill_bytes"@, m.spill_bytes, key);
    lemma_seg_lookup_str("result_hash"@, m.result_hash, key);
    lemma_lookup_append(
        spec_base_u64_seg("rows_processed"@, m.rows_processed) + spec_base_u64_seg("bytes_processed"@, m.bytes_processed) + spec_base_u64_seg("operations"@, m.operations) + spec_base_u64_seg("table_version"@, m.table_version) + spec_opt_u64_seg("files_scanned"@, m.files_scanned) + spec_opt_u64_seg("files_pruned"@, m.files_pruned) + spec_opt_u64_seg("bytes_scanned"@, m.bytes_scanned) + spec_opt_u64_seg("scan_time_ms"@, m.scan_time_ms) + spec_opt_u64_seg("rewrite_time_ms"@, m.rewrite_time_ms),
        spec_opt_u64_seg("peak_rss_mb"@, m.peak_rss_mb),
        key,
    );
    lemma_lookup_append(
        spec_base_u64_seg("rows_processed"@, m.rows_processed) + spec_base_u64_seg("bytes_processed"@, m.bytes_processed) + spec_base_u64_seg("operations"@, m.operations) + spec_base_u64_seg("table_version"@, m.table_version) + spec_opt_u64_seg("files_scanned"@, m.files_scanned) + spec_opt_u64_seg("files_pruned"@, m.files_pruned) + spec_opt_u64_seg("bytes_scanned"@, m.bytes_scanned) + spec_opt_u64_seg("scan_time_ms"@, m.scan_time_ms) + spec_opt_u64_seg("rewrite_time_ms"@, m.rewrite_time_ms) + spec_opt_u64_seg("peak_rss_mb"@, m.peak_rss_mb),
        spec_opt_u64_seg("cpu_time_ms"@, m.cpu_time_ms),
        key,
    );
    lemma_lookup_append(
        spec_base_u64_seg("rows_processed"@, m.rows_processed) + spec_base_u64_seg("bytes_processed"@, m.bytes_processed) + spec_base_u64_seg("operations"@, m.operations) + spec_base_u64_seg("table_version"@, m.table_version) + spec_opt_u64_seg("files_scanned"@, m.files_scanned) + spec_opt_u64_seg("files_pruned"@, m.files_pruned) + spec_opt_u64_seg("bytes_scanned"@, m.bytes_scanned) + spec_opt_u64_seg("scan_time_ms"@, m.scan_time_ms) + spec_opt_u64_seg("rewrite_time_ms"@, m.rewrite_time_ms) + spec_opt_u64_seg("peak_rss_mb"@, m.peak_rss_mb) + spec_opt_u64_seg("cpu_time_ms"@, m.cpu_time_ms),
        spec_opt_u64_seg("bytes_read"@, m.bytes_read),
        key,
    );
    lemma_lookup_append(
        spec_base_u64_seg("rows_processed"@, m.rows_processed) + spec_base_u64_seg("bytes_processed"@, m.bytes_processed) + spec_base_u64_seg("operations"@, m.operations) + spec_base_u64_seg("table_version"@, m.table_version) + spec_opt_u64_seg("files_scanned"@, m.files_scanned) + spec_opt_u64_seg("files_pruned"@, m.files_pruned) + spec_opt_u64_seg("bytes_scanned"@, m.bytes_scanned) + spec_opt_u64_seg("scan_time_ms"@, m.scan_time_ms) + spec_opt_u64_seg("rewrite_time_ms"@, m.rewrite_time_ms) + spec_opt_u64_seg("peak_rss_mb"@, m.peak_rss_mb) + spec_opt_u64_seg("cpu_time_ms"@, m.cpu_time_ms) + spec_opt_u64_seg("bytes_read"@, m.bytes_read),
        spec_opt_u64_seg("bytes_written"@, m.bytes_written),
        key,
    );
    lemma_lookup_append(
        spec_base_u64_seg("rows_processed"@, m.rows_processed) + spec_base_u64_seg("bytes_processed"@, m.bytes_processed) + spec_base_u64_seg("operations"@, m.operations) + spec_base_u64_seg("table_version"@, m.table_version) + spec_opt_u64_seg("files_scanned"@, m.files_scanned) + spec_opt_u64_seg("files_pruned"@, m.files_pruned) + spec_opt_u64_seg("bytes_scanned"@, m.bytes_scanned) + spec_opt_u64_seg("scan_time_ms"@, m.scan_time_ms) + spec_opt_u64_seg("rewrite_time_ms"@, m.rewrite_time_ms) + spec_opt_u64_seg("peak_rss_mb"@, m.peak_rss_mb) + spec_opt_u64_seg("cpu_time_ms"@, m.cpu_time_ms) + spec_opt_u64_seg("bytes_read"@, m.bytes_read) + spec_opt_u64_seg("bytes_written"@, m.bytes_written),
        spec_opt_u64_seg("files_touched"@, m.files_touched),
        key,
    );
    lemma_lookup_append(
        spec_base_u64_seg("rows_processed"@, m.rows_processed) + spec_base_u64_seg("bytes_processed"@, m.bytes_processed) + spec_base_u64_seg("operations"@, m.operations) + spec_base_u64_seg("table_version"@, m.table_version) + spec_opt_u64_seg("files_scanned"@, m.files_scanned) + spec_opt_u64_seg("files_pruned"@, m.files_pruned) + spec_opt_u64_seg("bytes_scanned"@, m.bytes_scanned) + spec_opt_u64_seg("scan_time_ms"@, m.scan_time_ms) + spec_opt_u64_seg("rewrite_time_ms"@, m.rewrite_time_ms) + spec_opt_u64_seg("peak_rss_mb"@, m.peak_rss_mb) + spec_opt_u64_seg("cpu_time_ms"@, m.cpu_time_ms) + spec_opt_u64_seg("bytes_read"@, m.bytes_read) + spec_opt_u64_seg("bytes_written"@, m.bytes_written) + spec_opt_u64_seg("files_touched"@, m.files_touched),
        spec_opt_u64_seg("files_skipped"@, m.files_skipped),
        key,
    );
    lemma_lookup_append(
        spec_base_u64_seg("rows_processed"@, m.rows_processed) + spec_base_u64_seg("bytes_processed"@, m.bytes_processed) + spec_base_u64_seg("operations"@, m.operations) + spec_base_u64_seg("table_version"@, m.table_version) + spec_opt_u64_seg("files_scanned"@, m.files_scanned) + spec_opt_u64_seg("files_pruned"@, m.files_pruned) + spec_opt_u64_seg("bytes_scanned"@, m.bytes_scanned) + spec_opt_u64_seg("scan_time_ms"@, m.scan_time_ms) + spec_opt_u64_seg("rewrite_time_ms"@, m.rewrite_time_ms) + spec_opt_u64_seg("peak_rss_mb"@, m.peak_rss_mb) + spec_opt_u64_seg("cpu_time_ms"@, m.cpu_time_ms) + spec_opt_u64_seg("bytes_read"@, m.bytes_read) + spec_opt_u64_seg("bytes_written"@, m.bytes_written) + spec_opt_u64_seg("files_touched"@, m.files_touched) + spec_opt_u64_seg("files_skipped"@, m.files_skipped),
        spec_opt_u64_seg("spill_bytes"@, m.spill_bytes),
        key,
    );
    lemma_lookup_append(
        spec_base_u64_seg("rows_processed"@, m.rows_processed) + spec_base_u64_seg("bytes_processed"@, m.bytes_processed) + spec_base_u64_seg("operations"@, m.operations) + spec_base_u64_seg("table_version"@, m.table_version) + spec_opt_u64_seg("files_scanned"@, m.files_scanned) + spec_opt_u64_seg("files_pruned"@, m.files_pruned) + spec_opt_u64_seg("bytes_scanned"@, m.bytes_scanned) + spec_opt_u64_seg("scan_time_ms"@, m.scan_time_ms) + spec_opt_u64_seg("rewrite_time_ms"@, m.rewrite_time_ms) + spec_opt_u64_seg("peak_rss_mb"@, m.peak_rss_mb) + spec_opt_u64_seg("cpu_time_ms"@, m.cpu_time_ms) + spec_opt_u64_seg("bytes_read"@, m.bytes_read) + spec_opt_u64_seg("bytes_written"@, m.bytes_written) + spec_opt_u64_seg("files_touched"@, m.files_touched) + spec_opt_u64_seg("files_skipped"@, m.files_skipped) + spec_opt_u64_seg("spill_bytes"@, m.spill_bytes),
        spec_opt_str_seg("result_hash"@, m.result_hash),
        key,
    );
}


proof fn lemma_u64_field_unique(
    fv: Seq<(Seq<char>, JsonValueView)>,
    key: Seq<char>,
    a: Option<u64>,
    b: Option<u64>,
)
    requires
        spec_u64_field_matches(fv, key, a),
        spec_u64_field_matches(fv, key, b),
    ensures
        a == b,
{
    match spec_obj_lookup(fv, key) {
        Some(JsonValueView::Num(t)) => {
            let na = a->0;
            let nb = b->0;
            crate::jsonval::lemma_numeral_injective(na, nb);
        },
        _ => {},
    }
}

/// Round trip: a metrics record written into a result document and read
/// back is unchanged — every per-sample metric field, the optional ones
/// included, survives exactly. `d` is any record the reader accepts for
/// the written field list, as `decode_sample_metrics` guarantees.
pub proof fn lemma_metrics_round_trip(m: SampleMetricsView, d: SampleMetricsView)
    requires
        spec_u64_field_matches(spec_metrics_fields(m), "rows_processed"@, d.rows_processed),
        spec_u64_field_matches(spec_metrics_fields(m), "bytes_processed"@, d.bytes_processed),
        spec_u64_field_matches(spec_metrics_fields(m), "operations"@, d.operations),
        spec_u64_field_matches(spec_metrics_fields(m), "table_version"@, d.table_version),
        spec_u64_field_matches(spec_metrics_fields(m), "files_scanned"@, d.files_scanned),
        spec_u64_field_matches(spec_metrics_fields(m), "files_pruned"@, d.files_pruned),
        spec_u64_field_matches(spec_metrics_fields(m), "bytes_scanned"@, d.bytes_scanned),
        spec_u64_field_matches(spec_metrics_fields(m), "scan_time_ms"@, d.scan_time_ms),
        spec_u64_field_matches(spec_metrics_fields(m), "rewrite_time_ms"@, d.rewrite_time_ms),
        spec_u64_field_matches(spec_metrics_fields(m), "peak_rss_mb"@, d.peak_rss_mb),
        spec_u64_field_matches(spec_metrics_fields(m), "cpu_time_ms"@, d.cpu_time_ms),
        spec_u64_field_matches(spec_metrics_fields(m), "bytes_read"@, d.bytes_read),
        spec_u64_field_matches(spec_metrics_fields(m), "bytes_written"@, d.bytes_written),
        spec_u64_field_matches(spec_metrics_fields(m), "files_touched"@, d.files_touched),
        spec_u64_field_matches(spec_metrics_fields(m), "files_skipped"@, d.files_skipped),
        spec_u64_field_matches(spec_metrics_fields(m), "spill_bytes"@, d.spill_bytes),
        spec_string_field_matches(spec_metrics_fields(m), "result_hash"@, d.result_hash),
    ensures
        d == m,
{
    proof_keys_revealed();
    lemma_metrics_lookup(m, "rows_processed"@);
    lemma_metrics_lookup(m, "bytes_processed"@);
    lemma_metrics_lookup(m, "operations"@);
    lemma_metrics_lookup(m, "table_version"@);
    lemma_metrics_lookup(m, "files_scanned"@);
    lemma_metrics_lookup(m, "files_pruned"@);
    lemma_metrics_lookup(m, "bytes_scanned"@);
    lemma_metrics_lookup(m, "scan_time_ms"@);
    lemma_metrics_lookup(m, "rewrite_time_ms"@);
    lemma_metrics_lookup(m, "peak_rss_mb"@);
    lemma_metrics_lookup(m, "cpu_time_ms"@);
    lemma_metrics_lookup(m, "bytes_read"@);
    lemma_metrics_lookup(m, "bytes_written"@);
    lemma_metrics_lookup(m, "files_touched"@);
    lemma_metrics_lookup(m, "files_skipped"@);
    lemma_metrics_lookup(m, "spill_bytes"@);
    lemma_metrics_lookup(m, "result_hash"@);
    assert(spec_u64_field_matches(spec_metrics_fields(m), "rows_processed"@, m.rows_processed));
    assert(spec_u64_field_matches(spec_metrics_fields(m), "bytes_processed"@, m.bytes_processed));
    assert(spec_u64_field_matches(spec_metrics_fields(m), "operations"@, m.operations));
    assert(spec_u64_field_matches(spec_metrics_fields(m), "table_version"@, m.table_version));
    assert(spec_u64_field_matches(spec_metrics_fields(m), "files_scanned"@, m.files_scanned));
    assert(spec_u64_field_matches(spec_metrics_fields(m), "files_pruned"@, m.files_pruned));
    assert(spec_u64_field_matches(spec_metrics_fields(m), "bytes_scanned"@, m.bytes_scanned));
    assert(spec_u64_field_matches(spec_metrics_fields(m), "scan_time_ms"@, m.scan_time_ms));
    assert(spec_u64_field_matches(spec_metrics_fields(m), "rewrite_time_ms"@, m.rewrite_time_ms));
    assert(spec_u64_field_matches(spec_metrics_fields(m), "peak_rss_mb"@, m.peak_rss_mb));
    assert(spec_u64_field_matches(spec_metrics_fields(m), "cpu_time_ms"@, m.cpu_time_ms));
    assert(spec_u64_field_matches(spec_metrics_fields(m), "bytes_read"@, m.bytes_read));
    assert(spec_u64_field_matches(spec_metrics_fields(m), "bytes_written"@, m.bytes_written));
    assert(spec_u64_field_matches(spec_metrics_fields(m), "files_touched"@, m.files_touched));
    assert(spec_u64_field_matches(spec_metrics_fields(m), "files_skipped"@, m.files_skipped));
    assert(spec_u64_field_matches(spec_metrics_fields(m), "spill_bytes"@, m.spill_bytes));
    assert(spec_string_field_matches(spec_metrics_fields(m), "result_hash"@, m.result_hash));
    lemma_u64_field_unique(spec_metrics_fields(m), "rows_processed"@, d.rows_processed, m.rows_processed);
    lemma_u64_field_unique(spec_metrics_fields(m), "bytes_processed"@, d.bytes_processed, m.bytes_processed);
    lemma_u64_field_unique(spec_metrics_fields(m), "operations"@, d.operations, m.operations);
    lemma_u64_field_unique(spec_metrics_fields(m), "table_version"@, d.table_version, m.table_version);
    lemma_u64_field_unique(spec_metrics_fields(m), "files_scanned"@, d.files_scanned, m.files_scanned);
    lemma_u64_field_unique(spec_metrics_fields(m), "files_pruned"@, d.files_pruned, m.files_pruned);
    lemma_u64_field_unique(spec_metrics_fields(m), "bytes_scanned"@, d.bytes_scanned, m.bytes_scanned);
    lemma_u64_field_unique(spec_metrics_fields(m), "scan_time_ms"@, d.scan_time_ms, m.scan_time_ms);
    lemma_u64_field_unique(spec_metrics_fields(m), "rewrite_time_ms"@, d.rewrite_time_ms, m.rewrite_time_ms);
    lemma_u64_field_unique(spec_metrics_fields(m), "peak_rss_mb"@, d.peak_rss_mb, m.peak_rss_mb);
    lemma_u64_field_unique(spec_metrics_fields(m), "cpu_time_ms"@, d.cpu_time_ms, m.cpu_time_ms);
    lemma_u64_field_unique(spec_metrics_fields(m), "bytes_read"@, d.bytes_read, m.bytes_read);
    lemma_u64_field_unique(spec_metrics_fields(m), "bytes_written"@, d.bytes_written, m.bytes_written);
    lemma_u64_field_unique(spec_metrics_fields(m), "files_touched"@, d.files_touched, m.files_touched);
    lemma_u64_field_unique(spec_metrics_fields(m), "files_skipped"@, d.files_skipped, m.files_skipped);
    lemma_u64_field_unique(spec_metrics_fields(m), "spill_bytes"@, d.spill_bytes, m.spill_bytes);
}

} // verus!


