//! Per-test decisions of the test runner: which files are filtered out,
//! which revisions a file expands to, when in-file conditions ignore a test,
//! and how the collected results are tallied.

use vstd::prelude::*;

use crate::cmd::CommandSpec;
use crate::comments::{
    Comments, RevisionedV, any_needs_asm_support, collect_ignore, collect_only, conds_v, for_rev,
};
use crate::config::{Config, target_has_asm};
use crate::data::{Condition, ConditionV, Error};
use crate::output::pointer_width;
use crate::util::{concat_map, contains_seq, views_of};

verus! {

/// Whether one condition holds of the configured target and host.
pub open spec fn condition_holds(c: ConditionV, target: Seq<u8>, host: Seq<u8>) -> bool {
    match c {
        ConditionV::Bitwidth(b) => pointer_width(target) == b,
        ConditionV::Target(t) => contains_seq(target, t),
        ConditionV::Host(h) => contains_seq(host, h),
        ConditionV::OnHost => target == host,
    }
}

/// Evaluate one condition against the configuration.
pub fn test_condition(condition: &Condition, config: &Config) -> (r: bool)
    requires
        config@.target is Some,
        config@.host is Some,
    ensures
        r == condition_holds(condition@, config@.target->Some_0, config@.host->Some_0),
{
    let target = match &config.target {
        Some(t) => t,
        None => {
            proof {
                assert(false);
            }
            unreached()
        },
    };
    let host = match &config.host {
        Some(h) => h,
        None => {
            proof {
                assert(false);
            }
            unreached()
        },
    };
    match condition {
        Condition::Bitwidth(b) => crate::output::get_pointer_width(target.as_slice()) == *b,
        Condition::Target(t) => crate::util::contains_bytes(target.as_slice(), t.as_slice()),
        Condition::Host(h) => crate::util::contains_bytes(host.as_slice(), h.as_slice()),
        Condition::OnHost => crate::util::bytes_eq(target.as_slice(), host.as_slice()),
    }
}

/// Whether the in-file conditions let this revision run: no ignore condition
/// holds, inline-assembly support is there when asked for, and every only
/// condition holds.
pub open spec fn file_conditions_hold(rvs: Seq<RevisionedV>, target: Seq<u8>, host: Seq<u8>) -> bool {
    let ignore = concat_map(rvs, |rv: RevisionedV| rv.ignore);
    let only = concat_map(rvs, |rv: RevisionedV| rv.only);
    let needs_asm = exists|k: int| 0 <= k < rvs.len() && (#[trigger] rvs[k]).needs_asm_support;
    &&& forall|k: int| 0 <= k < ignore.len() ==> !condition_holds(#[trigger] ignore[k], target, host)
    &&& !(needs_asm && !target_has_asm(target))
    &&& forall|k: int| 0 <= k < only.len() ==> condition_holds(#[trigger] only[k], target, host)
}

/// Decide whether this revision of the file runs.
#[verifier::loop_isolation(false)]
pub fn test_file_conditions(comments: &Comments, config: &Config, revision: &[u8]) -> (r: bool)
    requires
        config@.target is Some,
        config@.host is Some,
    ensures
        r == file_conditions_hold(
            for_rev(comments@.revisioned, revision@),
            config@.target->Some_0,
            config@.host->Some_0,
        ),
{
    let ghost rvs = for_rev(comments@.revisioned, revision@);
    let ghost target = config@.target->Some_0;
    let ghost host = config@.host->Some_0;
    let revs = comments.for_revision(revision);
    let ignore = collect_ignore(&revs);
    let only = collect_only(&revs);
    let ghost ignorev = conds_v(ignore@);
    let ghost onlyv = conds_v(only@);

    let mut i: usize = 0;
    while i < ignore.len()
        invariant
            i <= ignore@.len(),
            ignorev == conds_v(ignore@),
            ignorev.len() == ignore@.len(),
            config@.target is Some,
            config@.host is Some,
            target == config@.target->Some_0,
            host == config@.host->Some_0,
            forall|k: int| 0 <= k < i ==> !condition_holds(#[trigger] ignorev[k], target, host),
        decreases ignore@.len() - i,
    {
        if test_condition(&ignore[i], config) {
            assert(condition_holds(ignorev[i as int], target, host));
            return false;
        }
        i += 1;
    }

    if any_needs_asm_support(&revs) && !config.has_asm_support() {
        return false;
    }

    let mut j: usize = 0;
    while j < only.len()
        invariant
            j <= only@.len(),
            onlyv == conds_v(only@),
            onlyv.len() == only@.len(),
            config@.target is Some,
            config@.host is Some,
            target == config@.target->Some_0,
            host == config@.host->Some_0,
            forall|k: int| 0 <= k < j ==> condition_holds(#[trigger] onlyv[k], target, host),
        decreases only@.len() - j,
    {
        if !test_condition(&only[j], config) {
            assert(!condition_holds(onlyv[j as int], target, host));
            return false;
        }
        j += 1;
    }
    true
}

/// Some element of `f(s[k])` is an element of the concatenation.
pub proof fn lemma_concat_map_elem<A, B>(s: Seq<A>, f: spec_fn(A) -> Seq<B>, k: int, j: int)
    requires
        0 <= k < s.len(),
        0 <= j < f(s[k]).len(),
    ensures
        exists|n: int|
            0 <= n < concat_map(s, f).len() && concat_map(s, f)[n] == f(s[k])[j],
    decreases s.len(),
{
    if k == 0 {
        assert(concat_map(s, f)[j] == f(s[0])[j]);
    } else {
        lemma_concat_map_elem(s.drop_first(), f, k - 1, j);
        let n0 = choose|n: int|
            0 <= n < concat_map(s.drop_first(), f).len() && concat_map(s.drop_first(), f)[n] == f(
                s.drop_first()[k - 1],
            )[j];
        assert(s.drop_first()[k - 1] == s[k]);
        assert(concat_map(s, f)[f(s[0]).len() + n0] == concat_map(s.drop_first(), f)[n0]);
    }
}

/// Ignore monotonicity: as soon as any applicable record carries an ignore
/// condition that holds of the configured target and host, the revision is
/// ignored — whatever the compiler would print and whatever the other
/// directives say.
pub proof fn lemma_ignore_wins(rvs: Seq<RevisionedV>, target: Seq<u8>, host: Seq<u8>, k: int, j: int)
    requires
        0 <= k < rvs.len(),
        0 <= j < rvs[k].ignore.len(),
        condition_holds(rvs[k].ignore[j], target, host),
    ensures
        !file_conditions_hold(rvs, target, host),
{
    let f = |rv: RevisionedV| rv.ignore;
    lemma_concat_map_elem(rvs, f, k, j);
}

/// Whether the path filter selects this file: an empty filter selects all,
/// otherwise some entry must occur in the path.
pub open spec fn path_is_selected(path: Seq<u8>, filters: Seq<Seq<u8>>) -> bool {
    filters.len() == 0 || exists|k: int|
        0 <= k < filters.len() && contains_seq(path, #[trigger] filters[k])
}

/// Apply the configured path filter to one file path.
pub fn path_selected(path: &[u8], config: &Config) -> (r: bool)
    ensures
        r == path_is_selected(path@, config@.path_filter),
{
    if config.path_filter.len() == 0 {
        return true;
    }
    let mut i: usize = 0;
    while i < config.path_filter.len()
        invariant
            i <= config.path_filter@.len(),
            config@.path_filter.len() == config.path_filter@.len(),
            forall|k: int|
                0 <= k < i ==> !contains_seq(path@, #[trigger] config@.path_filter[k]),
        decreases config.path_filter@.len() - i,
    {
        if crate::util::contains_bytes(path, config.path_filter[i].as_slice()) {
            assert(contains_seq(path@, config@.path_filter[i as int]));
            return true;
        }
        i += 1;
    }
    false
}

/// The revisions a file expands to: the declared names, or one unnamed
/// revision.
pub fn expand_revisions(comments: &Comments) -> (r: Vec<Vec<u8>>)
    ensures
        match comments@.revisions {
            Some(rs) => views_of(r@) == rs,
            None => views_of(r@) =~= seq![Seq::<u8>::empty()],
        },
{
    match &comments.revisions {
        Some(rs) => {
            let out = crate::util::clone_bytes_vec(rs);
            proof {
                assert(views_of(out@) =~= views_of(rs@));
            }
            out
        },
        None => {
            let mut out: Vec<Vec<u8>> = Vec::new();
            out.push(Vec::new());
            proof {
                assert(views_of(out@) =~= seq![Seq::<u8>::empty()]);
            }
            out
        },
    }
}

/// What one test run of one revision ended as.
#[derive(Debug, PartialEq, Eq)]
pub enum TestResult {
    /// The test passed.
    Passed,
    /// In-file conditions ignored the test.
    Ignored,
    /// The path filter skipped the test.
    Filtered,
    /// The test failed: the command that ran, the findings, the stderr.
    Errored { command: CommandSpec, errors: Vec<Error>, stderr: Vec<u8> },
}

/// One finished test: its result, file and revision.
#[derive(Debug, PartialEq, Eq)]
pub struct TestRun {
    pub result: TestResult,
    pub path: Vec<u8>,
    pub revision: Vec<u8>,
}

/// How many entries of `s` satisfy `f`.
pub open spec fn count_matching<A>(s: Seq<A>, f: spec_fn(A) -> bool) -> int
    decreases s.len(),
{
    if s.len() == 0 {
        0int
    } else {
        (if f(s[0]) {
            1int
        } else {
            0int
        }) + count_matching(s.drop_first(), f)
    }
}

/// Counts never exceed the length.
pub proof fn lemma_count_le_len<A>(s: Seq<A>, f: spec_fn(A) -> bool)
    ensures
        0 <= count_matching(s, f) <= s.len(),
    decreases s.len(),
{
    if s.len() > 0 {
        lemma_count_le_len(s.drop_first(), f);
    }
}

/// The tallied outcome of a whole run.
#[derive(Debug, PartialEq, Eq)]
pub struct RunTotals {
    pub succeeded: usize,
    pub ignored: usize,
    pub filtered: usize,
    pub failed: usize,
}

/// Tally the results and decide the process exit code: `1` as soon as one
/// test failed, else `0`.
pub fn summarize(results: &Vec<TestRun>) -> (r: (RunTotals, i32))
    ensures
        r.0.succeeded as int == count_matching(results@, |t: TestRun| t.result is Passed),
        r.0.ignored as int == count_matching(results@, |t: TestRun| t.result is Ignored),
        r.0.filtered as int == count_matching(results@, |t: TestRun| t.result is Filtered),
        r.0.failed as int == count_matching(results@, |t: TestRun| t.result is Errored),
        r.1 == (if count_matching(results@, |t: TestRun| t.result is Errored) > 0 {
            1int
        } else {
            0int
        }),
{
    let ghost fok = |t: TestRun| t.result is Passed;
    let ghost fig = |t: TestRun| t.result is Ignored;
    let ghost ffi = |t: TestRun| t.result is Filtered;
    let ghost fer = |t: TestRun| t.result is Errored;
    let mut succeeded: usize = 0;
    let mut ignored: usize = 0;
    let mut filtered: usize = 0;
    let mut failed: usize = 0;
    let mut i: usize = 0;
    proof {
        assert(results@.skip(0) =~= results@);
        lemma_count_le_len(results@, fok);
        lemma_count_le_len(results@, fig);
        lemma_count_le_len(results@, ffi);
        lemma_count_le_len(results@, fer);
    }
    while i < results.len()
        invariant
            i <= results@.len(),
            fok == (|t: TestRun| t.result is Passed),
            fig == (|t: TestRun| t.result is Ignored),
            ffi == (|t: TestRun| t.result is Filtered),
            fer == (|t: TestRun| t.result is Errored),
            count_matching(results@, fok) == succeeded + count_matching(
                results@.skip(i as int),
                fok,
            ),
            count_matching(results@, fig) == ignored + count_matching(
                results@.skip(i as int),
                fig,
            ),
            count_matching(results@, ffi) == filtered + count_matching(
                results@.skip(i as int),
                ffi,
            ),
            count_matching(results@, fer) == failed + count_matching(
                results@.skip(i as int),
                fer,
            ),
            succeeded + ignored + filtered + failed <= i,
        decreases results@.len() - i,
    {
        proof {
            assert(results@.skip(i as int)[0] == results@[i as int]);
            assert(results@.skip(i as int).drop_first() =~= results@.skip(i + 1));
            lemma_count_le_len(results@.skip(i + 1), fok);
            lemma_count_le_len(results@.skip(i + 1), fig);
            lemma_count_le_len(results@.skip(i + 1), ffi);
            lemma_count_le_len(results@.skip(i + 1), fer);
        }
        match &results[i].result {
            TestResult::Passed => {
                succeeded += 1;
            },
            TestResult::Ignored => {
                ignored += 1;
            },
            TestResult::Filtered => {
                filtered += 1;
            },
            TestResult::Errored { .. } => {
                failed += 1;
            },
        }
        i += 1;
    }
    proof {
        assert(results@.skip(results@.len() as int) =~= Seq::<TestRun>::empty());
    }
    let code: i32 = if failed > 0 {
        1
    } else {
        0
    };
    (RunTotals { succeeded, ignored, filtered, failed }, code)
}

} // verus!
