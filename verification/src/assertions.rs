//! The assertion and classification engine: applied once per case after
//! execution, each declared assertion inspects and may rewrite the mutable
//! case result in declaration order.

use vstd::prelude::*;

use crate::results::{CaseFailure, CaseResult, CaseResultView, Classification, IterationSampleView};
use crate::strutil::{spec_contains, spec_dec_digits, str_contains, u64_to_string};

verus! {

/// The closed set of per-case assertions a manifest may declare.
#[derive(Clone, Debug, PartialEq)]
pub enum CaseAssertion {
    ExactResultHash(String),
    SchemaHash(String),
    ExpectedErrorContains(String),
    VersionMonotonicity,
}

/// The mathematical value of a `CaseAssertion`.
pub enum CaseAssertionView {
    ExactResultHash(Seq<char>),
    SchemaHash(Seq<char>),
    ExpectedErrorContains(Seq<char>),
    VersionMonotonicity,
}

impl View for CaseAssertion {
    type V = CaseAssertionView;

    open spec fn view(&self) -> CaseAssertionView {
        match self {
            CaseAssertion::ExactResultHash(v) => CaseAssertionView::ExactResultHash(v@),
            CaseAssertion::SchemaHash(v) => CaseAssertionView::SchemaHash(v@),
            CaseAssertion::ExpectedErrorContains(v) => CaseAssertionView::ExpectedErrorContains(v@),
            CaseAssertion::VersionMonotonicity => CaseAssertionView::VersionMonotonicity,
        }
    }
}

impl DeepView for CaseAssertion {
    type V = CaseAssertionView;

    open spec fn deep_view(&self) -> CaseAssertionView {
        self.view()
    }
}

/// The first result hash carried by any sample, in order; samples without
/// metrics or without a hash are skipped.
pub open spec fn spec_first_result_hash(samples: Seq<IterationSampleView>) -> Option<Seq<char>>
    decreases samples.len(),
{
    if samples.len() == 0 {
        None
    } else {
        match samples[0].metrics {
            Some(m) => match m.result_hash {
                Some(h) => Some(h),
                None => spec_first_result_hash(samples.drop_first()),
            },
            None => spec_first_result_hash(samples.drop_first()),
        }
    }
}

pub open spec fn spec_hash_mismatch_message(
    kind: Seq<char>,
    expected: Seq<char>,
    found: Option<Seq<char>>,
) -> Seq<char> {
    kind + " mismatch: expected '"@ + expected + "', found '"@ + (match found {
        Some(h) => h,
        None => "none"@,
    }) + "'"@
}

/// Hash assertions only inspect cases that still count as successful; on a
/// mismatch (or an absent hash) the case becomes a failure whose message
/// holds both the expected and the found value.
pub open spec fn spec_apply_hash_assertion(
    c: CaseResultView,
    kind: Seq<char>,
    expected: Seq<char>,
) -> CaseResultView {
    if !c.success {
        c
    } else {
        let found = spec_first_result_hash(c.samples);
        if found == Some(expected) {
            c
        } else {
            CaseResultView {
                success: false,
                failure: Some(spec_hash_mismatch_message(kind, expected, found)),
                ..c
            }
        }
    }
}

pub open spec fn spec_unexpected_success_message(needle: Seq<char>) -> Seq<char> {
    "expected error assertion failed: expected case to fail with message containing '"@ + needle
        + "', but case succeeded"@
}

/// A case that was expected to fail: succeeding is itself a violation; a
/// failure whose message holds the needle is reclassified as an expected
/// failure; any other failure is left as a genuine failure.
pub open spec fn spec_apply_expected_error(c: CaseResultView, needle: Seq<char>) -> CaseResultView {
    match c.failure {
        None => CaseResultView {
            success: false,
            failure: Some(spec_unexpected_success_message(needle)),
            ..c
        },
        Some(msg) => if spec_contains(msg, needle) {
            CaseResultView {
                success: true,
                classification: Classification::ExpectedFailure,
                ..c
            }
        } else {
            c
        },
    }
}

/// The table versions reported across samples, in temporal order; absent
/// versions are skipped.
pub open spec fn spec_versions(samples: Seq<IterationSampleView>) -> Seq<u64>
    decreases samples.len(),
{
    if samples.len() == 0 {
        Seq::empty()
    } else {
        let rest = spec_versions(samples.drop_first());
        match samples[0].metrics {
            Some(m) => match m.table_version {
                Some(v) => seq![v] + rest,
                None => rest,
            },
            None => rest,
        }
    }
}

/// The first adjacent pair in which the later version is strictly below
/// the earlier one.
pub open spec fn spec_first_version_decrease(vs: Seq<u64>) -> Option<(u64, u64)>
    decreases vs.len(),
{
    if vs.len() < 2 {
        None
    } else if vs[1] < vs[0] {
        Some((vs[0], vs[1]))
    } else {
        spec_first_version_decrease(vs.drop_first())
    }
}

pub open spec fn spec_version_decrease_message(prev: u64, version: u64) -> Seq<char> {
    "version monotonicity assertion failed: table version decreased from "@ + spec_dec_digits(
        prev as nat,
    ) + " to "@ + spec_dec_digits(version as nat)
}

pub open spec fn spec_apply_version_monotonicity(c: CaseResultView) -> CaseResultView {
    if !c.success {
        c
    } else {
        match spec_first_version_decrease(spec_versions(c.samples)) {
            None => c,
            Some((prev, version)) => CaseResultView {
                success: false,
                failure: Some(spec_version_decrease_message(prev, version)),
                ..c
            },
        }
    }
}

pub open spec fn spec_apply_assertion(c: CaseResultView, a: CaseAssertionView) -> CaseResultView {
    match a {
        CaseAssertionView::ExactResultHash(expected) => spec_apply_hash_assertion(
            c,
            "result hash"@,
            expected,
        ),
        CaseAssertionView::SchemaHash(expected) => spec_apply_hash_assertion(
            c,
            "schema hash"@,
            expected,
        ),
        CaseAssertionView::ExpectedErrorContains(needle) => spec_apply_expected_error(c, needle),
        CaseAssertionView::VersionMonotonicity => spec_apply_version_monotonicity(c),
    }
}

/// Assertions are applied in declaration order against the same mutable
/// case result; later assertions observe the effects of earlier ones.
pub open spec fn spec_apply_assertions(
    c: CaseResultView,
    assertions: Seq<CaseAssertionView>,
) -> CaseResultView
    decreases assertions.len(),
{
    if assertions.len() == 0 {
        c
    } else {
        spec_apply_assertions(spec_apply_assertion(c, assertions[0]), assertions.drop_first())
    }
}

proof fn lemma_apply_assertions_push(
    c: CaseResultView,
    assertions: Seq<CaseAssertionView>,
    a: CaseAssertionView,
)
    ensures
        spec_apply_assertions(c, assertions.push(a)) == spec_apply_assertion(
            spec_apply_assertions(c, assertions),
            a,
        ),
    decreases assertions.len(),
{
    reveal_with_fuel(spec_apply_assertions, 3);
    if assertions.len() == 0 {
        assert(assertions.push(a)[0] == a);
        assert(assertions.push(a).drop_first() =~= Seq::<CaseAssertionView>::empty());
    } else {
        assert(assertions.push(a)[0] == assertions[0]);
        assert(assertions.push(a).drop_first() =~= assertions.drop_first().push(a));
        lemma_apply_assertions_push(
            spec_apply_assertion(c, assertions[0]),
            assertions.drop_first(),
            a,
        );
    }
}

fn fail_case(case: &mut CaseResult, message: String)
    ensures
        final(case)@ == (CaseResultView { success: false, failure: Some(message@), ..old(case)@ }),
{
    case.success = false;
    case.failure = Some(CaseFailure { message });
}

/// The index of the first sample carrying a result hash, if any; exact
/// with respect to `spec_first_result_hash`.
fn find_result_hash_index(samples: &Vec<crate::results::IterationSample>) -> (r: Option<usize>)
    ensures
        match r {
            Some(i) => {
                &&& i < samples.len()
                &&& samples@[i as int].metrics is Some
                &&& samples@[i as int].metrics->0.result_hash is Some
                &&& spec_first_result_hash(samples.deep_view()) == Some(
                    samples@[i as int].metrics->0.result_hash->0@,
                )
            },
            None => spec_first_result_hash(samples.deep_view()) is None,
        },
{
    let len = samples.len();
    let mut i: usize = 0;
    proof {
        assert(samples.deep_view().skip(0) =~= samples.deep_view());
    }
    while i < len
        invariant
            len == samples.len(),
            i <= len,
            spec_first_result_hash(samples.deep_view()) == spec_first_result_hash(
                samples.deep_view().skip(i as int),
            ),
        decreases len - i,
    {
        proof {
            assert(samples.deep_view().skip(i as int)[0] == samples.deep_view()[i as int]);
            assert(samples.deep_view().skip(i as int).drop_first() =~= samples.deep_view().skip(
                i + 1,
            ));
        }
        let has_hash = match &samples[i].metrics {
            Some(m) => m.result_hash.is_some(),
            None => false,
        };
        if has_hash {
            return Some(i);
        }
        i += 1;
    }
    proof {
        assert(samples.deep_view().skip(len as int).len() == 0);
    }
    None
}

fn apply_hash_assertion(case: &mut CaseResult, expected: &String, schema: bool)
    ensures
        final(case)@ == spec_apply_hash_assertion(
            old(case)@,
            if schema {
                "schema hash"@
            } else {
                "result hash"@
            },
            expected@,
        ),
{
    if !case.success {
        return ;
    }
    let found_index = find_result_hash_index(&case.samples);
    let matches_expected = match found_index {
        Some(i) => {
            let m = case.samples[i].metrics.as_ref().unwrap();
            let h = m.result_hash.as_ref().unwrap();
            crate::strutil::str_eq(h.as_str(), expected.as_str())
        },
        None => false,
    };
    if matches_expected {
        return ;
    }
    let mut message = String::new();
    if schema {
        message.append("schema hash");
    } else {
        message.append("result hash");
    }
    message.append(" mismatch: expected '");
    message.append(expected.as_str());
    message.append("', found '");
    match found_index {
        Some(i) => {
            let m = case.samples[i].metrics.as_ref().unwrap();
            let h = m.result_hash.as_ref().unwrap();
            message.append(h.as_str());
        },
        None => {
            message.append("none");
        },
    }
    message.append("'");
    fail_case(case, message);
}

fn apply_expected_error(case: &mut CaseResult, needle: &String)
    ensures
        final(case)@ == spec_apply_expected_error(old(case)@, needle@),
{
    let has_failure = case.failure.is_some();
    if !has_failure {
        let mut message = String::new();
        message.append(
            "expected error assertion failed: expected case to fail with message containing '",
        );
        message.append(needle.as_str());
        message.append("', but case succeeded");
        fail_case(case, message);
        return ;
    }
    let contains_needle = {
        let failure = case.failure.as_ref().unwrap();
        str_contains(failure.message.as_str(), needle.as_str())
    };
    if contains_needle {
        case.success = true;
        case.classification = Classification::ExpectedFailure;
    }
}

proof fn lemma_versions_push(s: Seq<IterationSampleView>, x: IterationSampleView)
    ensures
        spec_versions(s.push(x)) =~= spec_versions(s) + spec_versions(seq![x]),
    decreases s.len(),
{
    if s.len() == 0 {
        assert(s.push(x) =~= seq![x]);
        assert(spec_versions(s) =~= Seq::<u64>::empty());
    } else {
        assert(s.push(x)[0] == s[0]);
        assert(s.push(x).drop_first() =~= s.drop_first().push(x));
        lemma_versions_push(s.drop_first(), x);
    }
}

fn collect_versions(samples: &Vec<crate::results::IterationSample>) -> (r: Vec<u64>)
    ensures
        r@ == spec_versions(samples.deep_view()),
{
    let len = samples.len();
    let mut out: Vec<u64> = Vec::new();
    let mut i: usize = 0;
    proof {
        assert(samples.deep_view().take(0) =~= Seq::<IterationSampleView>::empty());
    }
    while i < len
        invariant
            len == samples.len(),
            i <= len,
            out@ =~= spec_versions(samples.deep_view().take(i as int)),
        decreases len - i,
    {
        let version = match &samples[i].metrics {
            Some(m) => m.table_version,
            None => None,
        };
        if let Some(v) = version {
            out.push(v);
        }
        proof {
            reveal_with_fuel(spec_versions, 3);
            let s = samples.deep_view();
            assert(s.take(i + 1) =~= s.take(i as int).push(s[i as int]));
            lemma_versions_push(s.take(i as int), s[i as int]);
            assert(seq![s[i as int]].drop_first() =~= Seq::<IterationSampleView>::empty());
        }
        i += 1;
    }
    proof {
        assert(samples.deep_view().take(len as int) =~= samples.deep_view());
    }
    out
}

fn find_first_decrease(vs: &Vec<u64>) -> (r: Option<(u64, u64)>)
    ensures
        r == spec_first_version_decrease(vs@),
{
    let len = vs.len();
    if len < 2 {
        return None;
    }
    let mut i: usize = 0;
    proof {
        assert(vs@.skip(0) =~= vs@);
    }
    while i + 1 < len
        invariant
            len == vs@.len(),
            i + 1 <= len,
            spec_first_version_decrease(vs@) == spec_first_version_decrease(vs@.skip(i as int)),
        decreases len - i,
    {
        proof {
            assert(vs@.skip(i as int)[0] == vs@[i as int]);
            assert(vs@.skip(i as int)[1] == vs@[i + 1]);
            assert(vs@.skip(i as int).drop_first() =~= vs@.skip(i + 1));
        }
        if vs[i + 1] < vs[i] {
            return Some((vs[i], vs[i + 1]));
        }
        i += 1;
    }
    proof {
        assert(vs@.skip(i as int).len() < 2);
    }
    None
}

fn apply_version_monotonicity(case: &mut CaseResult)
    ensures
        final(case)@ == spec_apply_version_monotonicity(old(case)@),
{
    if !case.success {
        return ;
    }
    let versions = collect_versions(&case.samples);
    match find_first_decrease(&versions) {
        None => {},
        Some((prev, version)) => {
            let mut message = String::new();
            message.append("version monotonicity assertion failed: table version decreased from ");
            let prev_text = u64_to_string(prev);
            message.append(prev_text.as_str());
            message.append(" to ");
            let version_text = u64_to_string(version);
            message.append(version_text.as_str());
            fail_case(case, message);
        },
    }
}

/// Applies the declared assertions in order against the same mutable case
/// result; the final value is exactly the declaration-order fold of
/// `spec_apply_assertion`.
pub fn apply_case_assertions(case: &mut CaseResult, assertions: &[CaseAssertion])
    ensures
        final(case)@ == spec_apply_assertions(old(case)@, assertions.deep_view()),
{
    let len = assertions.len();
    let mut i: usize = 0;
    proof {
        assert(assertions.deep_view().take(0) =~= Seq::<CaseAssertionView>::empty());
    }
    while i < len
        invariant
            len == assertions@.len(),
            i <= len,
            case@ == spec_apply_assertions(old(case)@, assertions.deep_view().take(i as int)),
        decreases len - i,
    {
        match &assertions[i] {
            CaseAssertion::ExactResultHash(expected) => apply_hash_assertion(case, expected, false),
            CaseAssertion::SchemaHash(expected) => apply_hash_assertion(case, expected, true),
            CaseAssertion::ExpectedErrorContains(needle) => apply_expected_error(case, needle),
            CaseAssertion::VersionMonotonicity => apply_version_monotonicity(case),
        }
        proof {
            let avs = assertions.deep_view();
            assert(avs.take(i + 1) =~= avs.take(i as int).push(avs[i as int]));
            lemma_apply_assertions_push(old(case)@, avs.take(i as int), avs[i as int]);
        }
        i += 1;
    }
    proof {
        assert(assertions.deep_view().take(len as int) =~= assertions.deep_view());
    }
}


/// A successful case is classified as an expected failure only through
/// the reclassification path: one applied assertion must have been
/// `ExpectedErrorContains`, the case must have carried a failure whose
/// message holds the needle, and that step also set the success flag.
pub proof fn lemma_expected_failure_only_by_reclassification(
    c: CaseResultView,
    a: CaseAssertionView,
)
    requires
        c.classification == Classification::Supported,
    ensures
        spec_apply_assertion(c, a).classification == Classification::ExpectedFailure ==> {
            &&& a matches CaseAssertionView::ExpectedErrorContains(needle)
            &&& c.failure matches Some(msg) && spec_contains(msg, needle)
            &&& spec_apply_assertion(c, a).success
        },
{
}

/// The same invariant over a whole declaration list: a case that starts
/// out ordinarily classified ends up classified as an expected failure
/// only if some prefix step reclassified it.
pub proof fn lemma_expected_failure_needs_a_reclassifying_step(
    c: CaseResultView,
    assertions: Seq<CaseAssertionView>,
)
    requires
        c.classification == Classification::Supported,
    ensures
        spec_apply_assertions(c, assertions).classification == Classification::ExpectedFailure
            ==> exists|i: int|
            {
                &&& 0 <= i < assertions.len()
                &&& #[trigger] assertions[i] matches CaseAssertionView::ExpectedErrorContains(
                    needle,
                )
                &&& spec_apply_assertions(c, assertions.take(i)).failure matches Some(msg)
                    && spec_contains(msg, needle)
            },
    decreases assertions.len(),
{
    if assertions.len() == 0 {
    } else {
        let c1 = spec_apply_assertion(c, assertions[0]);
        if c1.classification == Classification::ExpectedFailure {
            lemma_expected_failure_only_by_reclassification(c, assertions[0]);
            lemma_reclassified_stays_reclassified(c1, assertions.drop_first());
            assert(assertions.take(0) =~= Seq::<CaseAssertionView>::empty());
            assert(spec_apply_assertions(c, assertions.take(0)) == c);
        } else {
            assert(c1.classification == Classification::Supported);
            lemma_expected_failure_needs_a_reclassifying_step(c1, assertions.drop_first());
            if spec_apply_assertions(c, assertions).classification
                == Classification::ExpectedFailure {
                let j = choose|j: int|
                    {
                        &&& 0 <= j < assertions.drop_first().len()
                        &&& #[trigger] assertions.drop_first()[j] matches
                            CaseAssertionView::ExpectedErrorContains(needle)
                        &&& spec_apply_assertions(
                            c1,
                            assertions.drop_first().take(j),
                        ).failure matches Some(msg) && spec_contains(msg, needle)
                    };
                assert(assertions[j + 1] == assertions.drop_first()[j]);
                assert(assertions.take(j + 1).drop_first() =~= assertions.drop_first().take(j));
                lemma_apply_take_shift(c, assertions, j + 1);
            }
        }
    }
}

proof fn lemma_apply_take_shift(c: CaseResultView, assertions: Seq<CaseAssertionView>, n: int)
    requires
        1 <= n <= assertions.len(),
    ensures
        spec_apply_assertions(c, assertions.take(n)) == spec_apply_assertions(
            spec_apply_assertion(c, assertions[0]),
            assertions.drop_first().take(n - 1),
        ),
{
    assert(assertions.take(n)[0] == assertions[0]);
    assert(assertions.take(n).drop_first() =~= assertions.drop_first().take(n - 1));
}

/// Once a step has reclassified a case, no later assertion moves it
/// back to the ordinary classification while it stays successful...
/// more precisely: the classification can only change away from
/// `ExpectedFailure` by a hash or monotonicity assertion failing the
/// case, which never happens here because those leave classification
/// untouched.
proof fn lemma_reclassified_stays_reclassified(
    c: CaseResultView,
    assertions: Seq<CaseAssertionView>,
)
    requires
        c.classification == Classification::ExpectedFailure,
    ensures
        spec_apply_assertions(c, assertions).classification == Classification::ExpectedFailure,
    decreases assertions.len(),
{
    if assertions.len() > 0 {
        lemma_reclassified_stays_reclassified(
            spec_apply_assertion(c, assertions[0]),
            assertions.drop_first(),
        );
    }
}

} // verus!

