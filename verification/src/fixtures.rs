//! Fixture bookkeeping: the scale catalog, the per-scale fixture layout
//! as location text, the fixture manifest freshness rule, and the
//! deterministic row synthesis from drawn values.

use vstd::prelude::*;

use crate::error::{BenchError, BenchResult};
use crate::strutil::str_eq;

verus! {

/// How many rows each scale synthesizes; any other scale is rejected
/// with an error naming it.
pub fn scale_to_row_count(scale: &str) -> (r: BenchResult<usize>)
    ensures
        scale@ == "sf1"@ ==> r == Ok::<usize, BenchError>(10000usize),
        scale@ == "sf10"@ ==> r == Ok::<usize, BenchError>(100000usize),
        scale@ == "sf100"@ ==> r == Ok::<usize, BenchError>(1000000usize),
        (scale@ != "sf1"@ && scale@ != "sf10"@ && scale@ != "sf100"@) ==> (r matches Err(
            BenchError::InvalidArgument(m),
        ) && m@ == "unknown scale '"@ + scale@ + "' (expected one of: sf1, sf10, sf100)"@),
{
    proof {
        reveal_strlit("sf1");
        reveal_strlit("sf10");
        reveal_strlit("sf100");
        assert("sf1"@.len() == 3);
        assert("sf10"@.len() == 4);
        assert("sf100"@.len() == 5);
    }
    if str_eq(scale, "sf1") {
        Ok(10000)
    } else if str_eq(scale, "sf10") {
        Ok(100000)
    } else if str_eq(scale, "sf100") {
        Ok(1000000)
    } else {
        let mut m = String::new();
        m.append("unknown scale '");
        m.append(scale);
        m.append("' (expected one of: sf1, sf10, sf100)");
        Err(BenchError::InvalidArgument(m))
    }
}

/// A valid scale is non-empty, free of path separators and unknown
/// characters, and one of the catalogued scales.
pub fn validate_scale(scale: &str) -> (r: BenchResult<()>)
    ensures
        r is Ok ==> (scale@ == "sf1"@ || scale@ == "sf10"@ || scale@ == "sf100"@),
{
    let len = scale.unicode_len();
    if len == 0 {
        return Err(BenchError::InvalidArgument("scale must not be empty".to_owned()));
    }
    let mut i: usize = 0;
    while i < len
        invariant
            len == scale@.len(),
            i <= len,
        decreases len - i,
    {
        let c = scale.get_char(i);
        let u = c as u32;
        let ok = (97 <= u && u <= 122) || (65 <= u && u <= 90) || (48 <= u && u <= 57) || u == 46
            || u == 45 || u == 95;
        if !ok {
            return Err(
                BenchError::InvalidArgument(
                    "scale contains invalid characters; allowed: [A-Za-z0-9._-]".to_owned(),
                ),
            );
        }
        i += 1;
    }
    match scale_to_row_count(scale) {
        Ok(_) => Ok(()),
        Err(e) => Err(e),
    }
}

/// The per-scale fixture directory: the fixtures directory, then the
/// validated scale.
pub fn fixture_root(fixtures_dir: &str, scale: &str) -> (r: BenchResult<String>)
    ensures
        r matches Ok(p) ==> p@ == fixtures_dir@ + "/"@ + scale@,
{
    validate_scale(scale)?;
    let mut out = fixtures_dir.to_owned();
    out.append("/");
    out.append(scale);
    Ok(out)
}

fn table_path(fixtures_dir: &str, scale: &str, dir: &str) -> (r: BenchResult<String>)
    ensures
        r matches Ok(p) ==> p@ == fixtures_dir@ + "/"@ + scale@ + "/"@ + dir@,
{
    let mut out = fixture_root(fixtures_dir, scale)?;
    out.append("/");
    out.append(dir);
    Ok(out)
}

pub fn narrow_sales_table_path(fixtures_dir: &str, scale: &str) -> (r: BenchResult<String>)
    ensures
        r matches Ok(p) ==> p@ == fixtures_dir@ + "/"@ + scale@ + "/"@ + "narrow_sales_delta"@,
{
    table_path(fixtures_dir, scale, "narrow_sales_delta")
}

pub fn merge_target_table_path(fixtures_dir: &str, scale: &str) -> (r: BenchResult<String>)
    ensures
        r matches Ok(p) ==> p@ == fixtures_dir@ + "/"@ + scale@ + "/"@ + "merge_target_delta"@,
{
    table_path(fixtures_dir, scale, "merge_target_delta")
}

pub fn read_partitioned_table_path(fixtures_dir: &str, scale: &str) -> (r: BenchResult<String>)
    ensures
        r matches Ok(p) ==> p@ == fixtures_dir@ + "/"@ + scale@ + "/"@
            + "read_partitioned_delta"@,
{
    table_path(fixtures_dir, scale, "read_partitioned_delta")
}

pub fn merge_partitioned_target_table_path(fixtures_dir: &str, scale: &str) -> (r: BenchResult<
    String,
>)
    ensures
        r matches Ok(p) ==> p@ == fixtures_dir@ + "/"@ + scale@ + "/"@
            + "merge_partitioned_target_delta"@,
{
    table_path(fixtures_dir, scale, "merge_partitioned_target_delta")
}

pub fn delete_update_small_files_table_path(fixtures_dir: &str, scale: &str) -> (r: BenchResult<
    String,
>)
    ensures
        r matches Ok(p) ==> p@ == fixtures_dir@ + "/"@ + scale@ + "/"@
            + "delete_update_small_files_delta"@,
{
    table_path(fixtures_dir, scale, "delete_update_small_files_delta")
}

pub fn optimize_small_files_table_path(fixtures_dir: &str, scale: &str) -> (r: BenchResult<
    String,
>)
    ensures
        r matches Ok(p) ==> p@ == fixtures_dir@ + "/"@ + scale@ + "/"@
            + "optimize_small_files_delta"@,
{
    table_path(fixtures_dir, scale, "optimize_small_files_delta")
}

pub fn optimize_compacted_table_path(fixtures_dir: &str, scale: &str) -> (r: BenchResult<String>)
    ensures
        r matches Ok(p) ==> p@ == fixtures_dir@ + "/"@ + scale@ + "/"@
            + "optimize_compacted_delta"@,
{
    table_path(fixtures_dir, scale, "optimize_compacted_delta")
}

pub fn vacuum_ready_table_path(fixtures_dir: &str, scale: &str) -> (r: BenchResult<String>)
    ensures
        r matches Ok(p) ==> p@ == fixtures_dir@ + "/"@ + scale@ + "/"@ + "vacuum_ready_delta"@,
{
    table_path(fixtures_dir, scale, "vacuum_ready_delta")
}

/// One synthesized sale row.
#[derive(Clone, Debug, PartialEq)]
pub struct NarrowSaleRow {
    pub id: i64,
    pub ts_ms: i64,
    pub region: String,
    pub value_i64: i64,
    pub flag: bool,
}

/// What the fixture generator records about a generated set.
#[derive(Clone, Debug, PartialEq)]
pub struct FixtureManifest {
    pub schema_version: u32,
    pub seed: u64,
    pub scale: String,
    pub rows: usize,
}

/// An existing fixture set satisfies a generation request exactly when
/// its manifest carries the supported manifest version and the same
/// seed, scale and row count.
pub fn fixture_manifest_matches(
    existing: &FixtureManifest,
    seed: u64,
    scale: &str,
    rows: usize,
) -> (r: bool)
    ensures
        r == (existing.schema_version == 1 && existing.seed == seed && existing.scale@ == scale@
            && existing.rows == rows),
{
    existing.schema_version == 1 && existing.seed == seed && str_eq(
        existing.scale.as_str(),
        scale,
    ) && existing.rows == rows
}

/// One row's drawn randomness: which region, the base value, the flag.
#[derive(Clone, Copy, Debug, PartialEq, Eq, Structural)]
pub struct RowDraw {
    pub region_index: u64,
    pub value_base: i64,
    pub flag: bool,
}

pub open spec fn spec_region_name(idx: u64) -> Seq<char> {
    if idx == 0 {
        "us"@
    } else if idx == 1 {
        "eu"@
    } else if idx == 2 {
        "apac"@
    } else if idx == 3 {
        "latam"@
    } else if idx == 4 {
        "mea"@
    } else {
        "ca"@
    }
}

fn region_name(idx: u64) -> (r: &'static str)
    ensures
        r@ == spec_region_name(idx),
{
    if idx == 0 {
        "us"
    } else if idx == 1 {
        "eu"
    } else if idx == 2 {
        "apac"
    } else if idx == 3 {
        "latam"
    } else if idx == 4 {
        "mea"
    } else {
        "ca"
    }
}

/// What row `i` looks like for a given draw: sequential id, one-minute
/// timestamp spacing from a fixed epoch, the drawn region, the drawn
/// value skewed by seven per region index, and the drawn flag.
pub open spec fn spec_row_of_draw(i: int, d: RowDraw) -> (int, int, Seq<char>, int, bool) {
    (i, 1700000000000 + i * 60000, spec_region_name(d.region_index), d.value_base + 7 * (
    d.region_index as int), d.flag)
}

/// Synthesizes the row set from drawn values, exactly as
/// `spec_row_of_draw` states row by row. Determinism under a fixed
/// (seed, scale) pair follows: the same draws give the same rows.
pub fn generate_narrow_sales_rows_from(draws: &Vec<RowDraw>) -> (r: Vec<NarrowSaleRow>)
    requires
        draws@.len() <= 1000000000,
        forall|i: int|
            0 <= i < draws@.len() ==> (#[trigger] draws@[i]).region_index < 6 && -5000
                <= draws@[i].value_base < 50000,
    ensures
        r@.len() == draws@.len(),
        forall|i: int|
            0 <= i < r@.len() ==> {
                let expect = spec_row_of_draw(i, draws@[i]);
                &&& (#[trigger] r@[i]).id == expect.0
                &&& r@[i].ts_ms == expect.1
                &&& r@[i].region@ == expect.2
                &&& r@[i].value_i64 == expect.3
                &&& r@[i].flag == expect.4
            },
{
    let count = draws.len();
    let mut out: Vec<NarrowSaleRow> = Vec::new();
    let mut i: usize = 0;
    while i < count
        invariant
            count == draws@.len(),
            count <= 1000000000,
            i <= count,
            out@.len() == i as nat,
            forall|k: int|
                0 <= k < draws@.len() ==> (#[trigger] draws@[k]).region_index < 6 && -5000
                    <= draws@[k].value_base < 50000,
            forall|k: int|
                0 <= k < i ==> {
                    let expect = spec_row_of_draw(k, draws@[k]);
                    &&& (#[trigger] out@[k]).id == expect.0
                    &&& out@[k].ts_ms == expect.1
                    &&& out@[k].region@ == expect.2
                    &&& out@[k].value_i64 == expect.3
                    &&& out@[k].flag == expect.4
                },
        decreases count - i,
    {
        let draw = draws[i];
        let skew = (draw.region_index as i64) * 7;
        let row = NarrowSaleRow {
            id: i as i64,
            ts_ms: 1700000000000i64 + (i as i64) * 60000,
            region: region_name(draw.region_index).to_owned(),
            value_i64: draw.value_base + skew,
            flag: draw.flag,
        };
        out.push(row);
        i += 1;
    }
    out
}

} // verus!
