//! The parsed annotation tree of one source file: a `Comments` value holds
//! the declared revisions and, per revision set, a `Revisioned` record of
//! directives and inline expectations.

use vstd::prelude::*;

use crate::data::{
    Condition, ConditionV, ErrorMatch, ErrorMatchV, Level, Match, MatchV, Mode, Pattern, PatternV,
};
use crate::util::{bytes_eq, concat_map, lemma_concat_map_snoc, views_of};

verus! {

/// The directives that apply to one set of revisions.
#[derive(Debug, PartialEq, Eq)]
pub struct Revisioned {
    /// Ignore the test when any of these hold.
    pub ignore: Vec<Condition>,
    /// Run the test only when all of these hold.
    pub only: Vec<Condition>,
    /// Skip the test on targets without inline-assembly support.
    pub needs_asm_support: bool,
    /// Golden stderr files carry a pointer-width infix.
    pub stderr_per_bitwidth: bool,
    /// Extra arguments handed to the program.
    pub compile_flags: Vec<Vec<u8>>,
    /// Extra environment for the program.
    pub env_vars: Vec<(Vec<u8>, Vec<u8>)>,
    /// Replacements applied to stderr before comparing to the golden file.
    pub normalize_stderr: Vec<(Match, Vec<u8>)>,
    /// File-wide expectations, with the line each was defined on.
    pub error_patterns: Vec<(Pattern, usize)>,
    /// Line-anchored expectations.
    pub error_matches: Vec<ErrorMatch>,
    /// Each diagnostic at or above this level must be matched.
    pub require_annotations_for_level: Option<Level>,
    /// Re-run the test with machine-applicable fixes applied.
    pub run_rustfix: bool,
    /// Helper files to build first: (file name, crate kind).
    pub aux_builds: Vec<(Vec<u8>, Vec<u8>)>,
    /// Language edition override, with its line.
    pub edition: Option<(Vec<u8>, usize)>,
    /// Mode override, with its line.
    pub mode: Option<(Mode, usize)>,
}

/// Mathematical view of a `Revisioned`.
pub struct RevisionedV {
    pub ignore: Seq<ConditionV>,
    pub only: Seq<ConditionV>,
    pub needs_asm_support: bool,
    pub stderr_per_bitwidth: bool,
    pub compile_flags: Seq<Seq<u8>>,
    pub env_vars: Seq<(Seq<u8>, Seq<u8>)>,
    pub normalize_stderr: Seq<(MatchV, Seq<u8>)>,
    pub error_patterns: Seq<(PatternV, int)>,
    pub error_matches: Seq<ErrorMatchV>,
    pub require_annotations_for_level: Option<Level>,
    pub run_rustfix: bool,
    pub aux_builds: Seq<(Seq<u8>, Seq<u8>)>,
    pub edition: Option<(Seq<u8>, int)>,
    pub mode: Option<(Mode, int)>,
}

/// The views of a list of conditions.
pub open spec fn conds_v(s: Seq<Condition>) -> Seq<ConditionV> {
    s.map_values(|c: Condition| c@)
}

/// The views of a list of byte-pair entries.
pub open spec fn pairs_v(s: Seq<(Vec<u8>, Vec<u8>)>) -> Seq<(Seq<u8>, Seq<u8>)> {
    s.map_values(|p: (Vec<u8>, Vec<u8>)| (p.0@, p.1@))
}

/// The views of a list of filter entries.
pub open spec fn filter_v(s: Seq<(Match, Vec<u8>)>) -> Seq<(MatchV, Seq<u8>)> {
    s.map_values(|p: (Match, Vec<u8>)| (p.0@, p.1@))
}

/// The views of a list of file-wide patterns.
pub open spec fn pats_v(s: Seq<(Pattern, usize)>) -> Seq<(PatternV, int)> {
    s.map_values(|p: (Pattern, usize)| (p.0@, p.1 as int))
}

/// The views of a list of line-anchored expectations.
pub open spec fn ems_v(s: Seq<ErrorMatch>) -> Seq<ErrorMatchV> {
    s.map_values(|m: ErrorMatch| m@)
}

impl View for Revisioned {
    type V = RevisionedV;

    open spec fn view(&self) -> RevisionedV {
        RevisionedV {
            ignore: conds_v(self.ignore@),
            only: conds_v(self.only@),
            needs_asm_support: self.needs_asm_support,
            stderr_per_bitwidth: self.stderr_per_bitwidth,
            compile_flags: views_of(self.compile_flags@),
            env_vars: pairs_v(self.env_vars@),
            normalize_stderr: filter_v(self.normalize_stderr@),
            error_patterns: pats_v(self.error_patterns@),
            error_matches: ems_v(self.error_matches@),
            require_annotations_for_level: self.require_annotations_for_level,
            run_rustfix: self.run_rustfix,
            aux_builds: pairs_v(self.aux_builds@),
            edition: match &self.edition {
                Some((e, l)) => Some((e@, *l as int)),
                None => None,
            },
            mode: match &self.mode {
                Some((m, l)) => Some((*m, *l as int)),
                None => None,
            },
        }
    }
}

impl Revisioned {
    /// A record with no directives set.
    pub fn empty() -> (r: Revisioned)
        ensures
            r@ == empty_revisioned(),
    {
        let r = Revisioned {
            ignore: Vec::new(),
            only: Vec::new(),
            needs_asm_support: false,
            stderr_per_bitwidth: false,
            compile_flags: Vec::new(),
            env_vars: Vec::new(),
            normalize_stderr: Vec::new(),
            error_patterns: Vec::new(),
            error_matches: Vec::new(),
            require_annotations_for_level: None,
            run_rustfix: false,
            aux_builds: Vec::new(),
            edition: None,
            mode: None,
        };
        proof {
            assert(r@.ignore =~= empty_revisioned().ignore);
            assert(r@.only =~= empty_revisioned().only);
            assert(r@.compile_flags =~= empty_revisioned().compile_flags);
            assert(r@.env_vars =~= empty_revisioned().env_vars);
            assert(r@.normalize_stderr =~= empty_revisioned().normalize_stderr);
            assert(r@.error_patterns =~= empty_revisioned().error_patterns);
            assert(r@.error_matches =~= empty_revisioned().error_matches);
            assert(r@.aux_builds =~= empty_revisioned().aux_builds);
        }
        r
    }
}

/// The view of a `Revisioned` with no directives set.
pub open spec fn empty_revisioned() -> RevisionedV {
    RevisionedV {
        ignore: Seq::empty(),
        only: Seq::empty(),
        needs_asm_support: false,
        stderr_per_bitwidth: false,
        compile_flags: Seq::empty(),
        env_vars: Seq::empty(),
        normalize_stderr: Seq::empty(),
        error_patterns: Seq::empty(),
        error_matches: Seq::empty(),
        require_annotations_for_level: None,
        run_rustfix: false,
        aux_builds: Seq::empty(),
        edition: None,
        mode: None,
    }
}

/// The parsed annotations of one source file.
#[derive(Debug, PartialEq, Eq)]
pub struct Comments {
    /// The declared revision names; `None` means one unnamed revision.
    pub revisions: Option<Vec<Vec<u8>>>,
    /// Directive records, each scoped to a set of revision names
    /// (the empty set applies to every revision).
    pub revisioned: Vec<(Vec<Vec<u8>>, Revisioned)>,
}

/// Mathematical view of a `Comments`.
pub struct CommentsV {
    pub revisions: Option<Seq<Seq<u8>>>,
    pub revisioned: Seq<(Seq<Seq<u8>>, RevisionedV)>,
}

impl View for Comments {
    type V = CommentsV;

    open spec fn view(&self) -> CommentsV {
        CommentsV {
            revisions: match &self.revisions {
                Some(rs) => Some(views_of(rs@)),
                None => None,
            },
            revisioned: self.revisioned@.map_values(
                |e: (Vec<Vec<u8>>, Revisioned)| (views_of(e.0@), e.1@),
            ),
        }
    }
}

/// Whether a revision-set key selects the given revision: the empty set
/// applies to all revisions.
pub open spec fn rev_applies(keys: Seq<Seq<u8>>, rev: Seq<u8>) -> bool {
    keys.len() == 0 || keys.contains(rev)
}

/// The `Revisioned` records that apply to one revision, in file order.
pub open spec fn for_rev(entries: Seq<(Seq<Seq<u8>>, RevisionedV)>, rev: Seq<u8>) -> Seq<
    RevisionedV,
> {
    concat_map(
        entries,
        |e: (Seq<Seq<u8>>, RevisionedV)|
            if rev_applies(e.0, rev) {
                seq![e.1]
            } else {
                Seq::empty()
            },
    )
}

impl Comments {
    /// The records that apply to `rev`, as in-order references.
    pub fn for_revision<'a>(&'a self, rev: &[u8]) -> (r: Vec<&'a Revisioned>)
        ensures
            rv_views(r@) == for_rev(self@.revisioned, rev@),
    {
        let ghost f = |e: (Seq<Seq<u8>>, RevisionedV)|
            if rev_applies(e.0, rev@) {
                seq![e.1]
            } else {
                Seq::empty()
            };
        let ghost entries = self@.revisioned;
        let mut out: Vec<&'a Revisioned> = Vec::new();
        let mut i: usize = 0;
        proof {
            assert(entries.take(0) =~= Seq::empty());
            assert(out@.map_values(|x: &Revisioned| x@) =~= concat_map(entries.take(0), f));
        }
        while i < self.revisioned.len()
            invariant
                i <= self.revisioned@.len(),
                entries == self@.revisioned,
                entries.len() == self.revisioned@.len(),
                f == (|e: (Seq<Seq<u8>>, RevisionedV)|
                    if rev_applies(e.0, rev@) {
                        seq![e.1]
                    } else {
                        Seq::empty()
                    }),
                out@.map_values(|x: &Revisioned| x@) == concat_map(entries.take(i as int), f),
            decreases self.revisioned@.len() - i,
        {
            let entry = &self.revisioned[i];
            let applies = key_applies(&entry.0, rev);
            proof {
                assert(entries[i as int] == (views_of(entry.0@), entry.1@));
                assert(entries.take(i + 1) =~= entries.take(i as int).push(entries[i as int]));
                lemma_concat_map_snoc(entries.take(i as int), entries[i as int], f);
            }
            if applies {
                out.push(&entry.1);
                proof {
                    assert(out@.map_values(|x: &Revisioned| x@) =~= concat_map(
                        entries.take(i + 1),
                        f,
                    ));
                }
            } else {
                proof {
                    assert(out@.map_values(|x: &Revisioned| x@) =~= concat_map(
                        entries.take(i + 1),
                        f,
                    ));
                }
            }
            i += 1;
        }
        proof {
            assert(entries.take(entries.len() as int) =~= entries);
        }
        out
    }
}

/// The views of a list of revision-record references.
pub open spec fn rv_views(s: Seq<&Revisioned>) -> Seq<RevisionedV> {
    s.map_values(|x: &Revisioned| x@)
}

/// All file-wide patterns of the given records, in order.
pub fn collect_error_patterns(revs: &Vec<&Revisioned>) -> (r: Vec<(Pattern, usize)>)
    ensures
        pats_v(r@) == concat_map(rv_views(revs@), |rv: RevisionedV| rv.error_patterns),
{
    let ghost rvs = rv_views(revs@);
    let ghost f = |rv: RevisionedV| rv.error_patterns;
    let mut out: Vec<(Pattern, usize)> = Vec::new();
    let mut i: usize = 0;
    proof {
        assert(rvs.take(0) =~= Seq::empty());
        assert(pats_v(out@) =~= concat_map(rvs.take(0), f));
    }
    while i < revs.len()
        invariant
            i <= revs@.len(),
            rvs == rv_views(revs@),
            rvs.len() == revs@.len(),
            f == (|rv: RevisionedV| rv.error_patterns),
            pats_v(out@) == concat_map(rvs.take(i as int), f),
        decreases revs@.len() - i,
    {
        let cur: &Revisioned = revs[i];
        proof {
            assert(rvs[i as int] == cur@);
        }
        let mut j: usize = 0;
        while j < cur.error_patterns.len()
            invariant
                j <= cur.error_patterns@.len(),
                i < revs@.len(),
                rvs == rv_views(revs@),
                rvs.len() == revs@.len(),
                f == (|rv: RevisionedV| rv.error_patterns),
                rvs[i as int] == cur@,
                pats_v(out@) == concat_map(rvs.take(i as int), f) + cur@.error_patterns.take(
                    j as int,
                ),
            decreases cur.error_patterns@.len() - j,
        {
            let entry = &cur.error_patterns[j];
            let ghost prev = out@;
            let dup = entry.0.duplicate();
            out.push((dup, entry.1));
            proof {
                let aa = concat_map(rvs.take(i as int), f);
                assert(pats_v(out@) =~= pats_v(prev).push((entry.0@, entry.1 as int)));
                assert(cur@.error_patterns.take(j + 1) =~= cur@.error_patterns.take(
                    j as int,
                ).push(cur@.error_patterns[j as int]));
                assert((aa + cur@.error_patterns.take(j as int)).push(
                    cur@.error_patterns[j as int],
                ) =~= aa + cur@.error_patterns.take(j + 1));
                assert(pats_v(out@) == aa + cur@.error_patterns.take(j + 1));
            }
            j += 1;
        }
        proof {
            assert(cur@.error_patterns.take(cur.error_patterns@.len() as int)
                =~= cur@.error_patterns);
            assert(rvs.take(i + 1) =~= rvs.take(i as int).push(rvs[i as int]));
            lemma_concat_map_snoc(rvs.take(i as int), rvs[i as int], f);
            assert(pats_v(out@) =~= concat_map(rvs.take(i + 1), f));
        }
        i += 1;
    }
    proof {
        assert(rvs.take(rvs.len() as int) =~= rvs);
    }
    out
}

/// All line-anchored expectations of the given records, in order.
pub fn collect_error_matches(revs: &Vec<&Revisioned>) -> (r: Vec<ErrorMatch>)
    ensures
        ems_v(r@) == concat_map(rv_views(revs@), |rv: RevisionedV| rv.error_matches),
{
    let ghost rvs = rv_views(revs@);
    let ghost f = |rv: RevisionedV| rv.error_matches;
    let mut out: Vec<ErrorMatch> = Vec::new();
    let mut i: usize = 0;
    proof {
        assert(rvs.take(0) =~= Seq::empty());
        assert(ems_v(out@) =~= concat_map(rvs.take(0), f));
    }
    while i < revs.len()
        invariant
            i <= revs@.len(),
            rvs == rv_views(revs@),
            rvs.len() == revs@.len(),
            f == (|rv: RevisionedV| rv.error_matches),
            ems_v(out@) == concat_map(rvs.take(i as int), f),
        decreases revs@.len() - i,
    {
        let cur: &Revisioned = revs[i];
        proof {
            assert(rvs[i as int] == cur@);
        }
        let mut j: usize = 0;
        while j < cur.error_matches.len()
            invariant
                j <= cur.error_matches@.len(),
                i < revs@.len(),
                rvs == rv_views(revs@),
                rvs.len() == revs@.len(),
                f == (|rv: RevisionedV| rv.error_matches),
                rvs[i as int] == cur@,
                ems_v(out@) == concat_map(rvs.take(i as int), f) + cur@.error_matches.take(
                    j as int,
                ),
            decreases cur.error_matches@.len() - j,
        {
            let ghost prev = out@;
            out.push(cur.error_matches[j].duplicate());
            proof {
                let aa = concat_map(rvs.take(i as int), f);
                assert(ems_v(out@) =~= ems_v(prev).push(cur@.error_matches[j as int]));
                assert(cur@.error_matches.take(j + 1) =~= cur@.error_matches.take(
                    j as int,
                ).push(cur@.error_matches[j as int]));
                assert((aa + cur@.error_matches.take(j as int)).push(
                    cur@.error_matches[j as int],
                ) =~= aa + cur@.error_matches.take(j + 1));
                assert(ems_v(out@) == aa + cur@.error_matches.take(j + 1));
            }
            j += 1;
        }
        proof {
            assert(cur@.error_matches.take(cur.error_matches@.len() as int)
                =~= cur@.error_matches);
            assert(rvs.take(i + 1) =~= rvs.take(i as int).push(rvs[i as int]));
            lemma_concat_map_snoc(rvs.take(i as int), rvs[i as int], f);
            assert(ems_v(out@) =~= concat_map(rvs.take(i + 1), f));
        }
        i += 1;
    }
    proof {
        assert(rvs.take(rvs.len() as int) =~= rvs);
    }
    out
}

/// All extra program arguments of the given records, in order.
pub fn collect_compile_flags(revs: &Vec<&Revisioned>) -> (r: Vec<Vec<u8>>)
    ensures
        views_of(r@) == concat_map(rv_views(revs@), |rv: RevisionedV| rv.compile_flags),
{
    let ghost rvs = rv_views(revs@);
    let ghost f = |rv: RevisionedV| rv.compile_flags;
    let mut out: Vec<Vec<u8>> = Vec::new();
    let mut i: usize = 0;
    proof {
        assert(rvs.take(0) =~= Seq::empty());
        assert(views_of(out@) =~= concat_map(rvs.take(0), f));
    }
    while i < revs.len()
        invariant
            i <= revs@.len(),
            rvs == rv_views(revs@),
            rvs.len() == revs@.len(),
            f == (|rv: RevisionedV| rv.compile_flags),
            views_of(out@) == concat_map(rvs.take(i as int), f),
        decreases revs@.len() - i,
    {
        let cur: &Revisioned = revs[i];
        proof {
            assert(rvs[i as int] == cur@);
        }
        let mut j: usize = 0;
        while j < cur.compile_flags.len()
            invariant
                j <= cur.compile_flags@.len(),
                i < revs@.len(),
                rvs == rv_views(revs@),
                rvs.len() == revs@.len(),
                f == (|rv: RevisionedV| rv.compile_flags),
                rvs[i as int] == cur@,
                views_of(out@) == concat_map(rvs.take(i as int), f) + cur@.compile_flags.take(
                    j as int,
                ),
            decreases cur.compile_flags@.len() - j,
        {
            let ghost prev = out@;
            out.push(crate::util::clone_bytes(&cur.compile_flags[j]));
            proof {
                let aa = concat_map(rvs.take(i as int), f);
                assert(views_of(out@) =~= views_of(prev).push(cur@.compile_flags[j as int]));
                assert(cur@.compile_flags.take(j + 1) =~= cur@.compile_flags.take(
                    j as int,
                ).push(cur@.compile_flags[j as int]));
                assert((aa + cur@.compile_flags.take(j as int)).push(
                    cur@.compile_flags[j as int],
                ) =~= aa + cur@.compile_flags.take(j + 1));
                assert(views_of(out@) == aa + cur@.compile_flags.take(j + 1));
            }
            j += 1;
        }
        proof {
            assert(cur@.compile_flags.take(cur.compile_flags@.len() as int)
                =~= cur@.compile_flags);
            assert(rvs.take(i + 1) =~= rvs.take(i as int).push(rvs[i as int]));
            lemma_concat_map_snoc(rvs.take(i as int), rvs[i as int], f);
            assert(views_of(out@) =~= concat_map(rvs.take(i + 1), f));
        }
        i += 1;
    }
    proof {
        assert(rvs.take(rvs.len() as int) =~= rvs);
    }
    out
}

/// All extra environment entries of the given records, in order.
pub fn collect_env_vars(revs: &Vec<&Revisioned>) -> (r: Vec<(Vec<u8>, Vec<u8>)>)
    ensures
        pairs_v(r@) == concat_map(rv_views(revs@), |rv: RevisionedV| rv.env_vars),
{
    let ghost rvs = rv_views(revs@);
    let ghost f = |rv: RevisionedV| rv.env_vars;
    let mut out: Vec<(Vec<u8>, Vec<u8>)> = Vec::new();
    let mut i: usize = 0;
    proof {
        assert(rvs.take(0) =~= Seq::empty());
        assert(pairs_v(out@) =~= concat_map(rvs.take(0), f));
    }
    while i < revs.len()
        invariant
            i <= revs@.len(),
            rvs == rv_views(revs@),
            rvs.len() == revs@.len(),
            f == (|rv: RevisionedV| rv.env_vars),
            pairs_v(out@) == concat_map(rvs.take(i as int), f),
        decreases revs@.len() - i,
    {
        let cur: &Revisioned = revs[i];
        proof {
            assert(rvs[i as int] == cur@);
        }
        let mut j: usize = 0;
        while j < cur.env_vars.len()
            invariant
                j <= cur.env_vars@.len(),
                i < revs@.len(),
                rvs == rv_views(revs@),
                rvs.len() == revs@.len(),
                f == (|rv: RevisionedV| rv.env_vars),
                rvs[i as int] == cur@,
                pairs_v(out@) == concat_map(rvs.take(i as int), f) + cur@.env_vars.take(j as int),
            decreases cur.env_vars@.len() - j,
        {
            let entry = &cur.env_vars[j];
            let ghost prev = out@;
            out.push((crate::util::clone_bytes(&entry.0), crate::util::clone_bytes(&entry.1)));
            proof {
                let aa = concat_map(rvs.take(i as int), f);
                assert(pairs_v(out@) =~= pairs_v(prev).push(cur@.env_vars[j as int]));
                assert(cur@.env_vars.take(j + 1) =~= cur@.env_vars.take(j as int).push(
                    cur@.env_vars[j as int],
                ));
                assert((aa + cur@.env_vars.take(j as int)).push(cur@.env_vars[j as int]) =~= aa
                    + cur@.env_vars.take(j + 1));
                assert(pairs_v(out@) == aa + cur@.env_vars.take(j + 1));
            }
            j += 1;
        }
        proof {
            assert(cur@.env_vars.take(cur.env_vars@.len() as int) =~= cur@.env_vars);
            assert(rvs.take(i + 1) =~= rvs.take(i as int).push(rvs[i as int]));
            lemma_concat_map_snoc(rvs.take(i as int), rvs[i as int], f);
            assert(pairs_v(out@) =~= concat_map(rvs.take(i + 1), f));
        }
        i += 1;
    }
    proof {
        assert(rvs.take(rvs.len() as int) =~= rvs);
    }
    out
}

/// All auxiliary-build entries of the given records, in order.
pub fn collect_aux_builds(revs: &Vec<&Revisioned>) -> (r: Vec<(Vec<u8>, Vec<u8>)>)
    ensures
        pairs_v(r@) == concat_map(rv_views(revs@), |rv: RevisionedV| rv.aux_builds),
{
    let ghost rvs = rv_views(revs@);
    let ghost f = |rv: RevisionedV| rv.aux_builds;
    let mut out: Vec<(Vec<u8>, Vec<u8>)> = Vec::new();
    let mut i: usize = 0;
    proof {
        assert(rvs.take(0) =~= Seq::empty());
        assert(pairs_v(out@) =~= concat_map(rvs.take(0), f));
    }
    while i < revs.len()
        invariant
            i <= revs@.len(),
            rvs == rv_views(revs@),
            rvs.len() == revs@.len(),
            f == (|rv: RevisionedV| rv.aux_builds),
            pairs_v(out@) == concat_map(rvs.take(i as int), f),
        decreases revs@.len() - i,
    {
        let cur: &Revisioned = revs[i];
        proof {
            assert(rvs[i as int] == cur@);
        }
        let mut j: usize = 0;
        while j < cur.aux_builds.len()
            invariant
                j <= cur.aux_builds@.len(),
                i < revs@.len(),
                rvs == rv_views(revs@),
                rvs.len() == revs@.len(),
                f == (|rv: RevisionedV| rv.aux_builds),
                rvs[i as int] == cur@,
                pairs_v(out@) == concat_map(rvs.take(i as int), f) + cur@.aux_builds.take(
                    j as int,
                ),
            decreases cur.aux_builds@.len() - j,
        {
            let entry = &cur.aux_builds[j];
            let ghost prev = out@;
            out.push((crate::util::clone_bytes(&entry.0), crate::util::clone_bytes(&entry.1)));
            proof {
                let aa = concat_map(rvs.take(i as int), f);
                assert(pairs_v(out@) =~= pairs_v(prev).push(cur@.aux_builds[j as int]));
                assert(cur@.aux_builds.take(j + 1) =~= cur@.aux_builds.take(j as int).push(
                    cur@.aux_builds[j as int],
                ));
                assert((aa + cur@.aux_builds.take(j as int)).push(cur@.aux_builds[j as int]) =~= aa
                    + cur@.aux_builds.take(j + 1));
                assert(pairs_v(out@) == aa + cur@.aux_builds.take(j + 1));
            }
            j += 1;
        }
        proof {
            assert(cur@.aux_builds.take(cur.aux_builds@.len() as int) =~= cur@.aux_builds);
            assert(rvs.take(i + 1) =~= rvs.take(i as int).push(rvs[i as int]));
            lemma_concat_map_snoc(rvs.take(i as int), rvs[i as int], f);
            assert(pairs_v(out@) =~= concat_map(rvs.take(i + 1), f));
        }
        i += 1;
    }
    proof {
        assert(rvs.take(rvs.len() as int) =~= rvs);
    }
    out
}

/// All stderr normalization filters of the given records, in order.
pub fn collect_normalize_filters(revs: &Vec<&Revisioned>) -> (r: Vec<(Match, Vec<u8>)>)
    ensures
        filter_v(r@) == concat_map(rv_views(revs@), |rv: RevisionedV| rv.normalize_stderr),
{
    let ghost rvs = rv_views(revs@);
    let ghost f = |rv: RevisionedV| rv.normalize_stderr;
    let mut out: Vec<(Match, Vec<u8>)> = Vec::new();
    let mut i: usize = 0;
    proof {
        assert(rvs.take(0) =~= Seq::empty());
        assert(filter_v(out@) =~= concat_map(rvs.take(0), f));
    }
    while i < revs.len()
        invariant
            i <= revs@.len(),
            rvs == rv_views(revs@),
            rvs.len() == revs@.len(),
            f == (|rv: RevisionedV| rv.normalize_stderr),
            filter_v(out@) == concat_map(rvs.take(i as int), f),
        decreases revs@.len() - i,
    {
        let cur: &Revisioned = revs[i];
        proof {
            assert(rvs[i as int] == cur@);
        }
        let mut j: usize = 0;
        while j < cur.normalize_stderr.len()
            invariant
                j <= cur.normalize_stderr@.len(),
                i < revs@.len(),
                rvs == rv_views(revs@),
                rvs.len() == revs@.len(),
                f == (|rv: RevisionedV| rv.normalize_stderr),
                rvs[i as int] == cur@,
                filter_v(out@) == concat_map(rvs.take(i as int), f) + cur@.normalize_stderr.take(
                    j as int,
                ),
            decreases cur.normalize_stderr@.len() - j,
        {
            let entry = &cur.normalize_stderr[j];
            let ghost prev = out@;
            out.push((entry.0.duplicate(), crate::util::clone_bytes(&entry.1)));
            proof {
                let aa = concat_map(rvs.take(i as int), f);
                assert(filter_v(out@) =~= filter_v(prev).push(cur@.normalize_stderr[j as int]));
                assert(cur@.normalize_stderr.take(j + 1) =~= cur@.normalize_stderr.take(
                    j as int,
                ).push(cur@.normalize_stderr[j as int]));
                assert((aa + cur@.normalize_stderr.take(j as int)).push(
                    cur@.normalize_stderr[j as int],
                ) =~= aa + cur@.normalize_stderr.take(j + 1));
                assert(filter_v(out@) == aa + cur@.normalize_stderr.take(j + 1));
            }
            j += 1;
        }
        proof {
            assert(cur@.normalize_stderr.take(cur.normalize_stderr@.len() as int)
                =~= cur@.normalize_stderr);
            assert(rvs.take(i + 1) =~= rvs.take(i as int).push(rvs[i as int]));
            lemma_concat_map_snoc(rvs.take(i as int), rvs[i as int], f);
            assert(filter_v(out@) =~= concat_map(rvs.take(i + 1), f));
        }
        i += 1;
    }
    proof {
        assert(rvs.take(rvs.len() as int) =~= rvs);
    }
    out
}

/// All ignore conditions of the given records, in order.
pub fn collect_ignore(revs: &Vec<&Revisioned>) -> (r: Vec<Condition>)
    ensures
        conds_v(r@) == concat_map(rv_views(revs@), |rv: RevisionedV| rv.ignore),
{
    let ghost rvs = rv_views(revs@);
    let ghost f = |rv: RevisionedV| rv.ignore;
    let mut out: Vec<Condition> = Vec::new();
    let mut i: usize = 0;
    proof {
        assert(rvs.take(0) =~= Seq::empty());
        assert(conds_v(out@) =~= concat_map(rvs.take(0), f));
    }
    while i < revs.len()
        invariant
            i <= revs@.len(),
            rvs == rv_views(revs@),
            rvs.len() == revs@.len(),
            f == (|rv: RevisionedV| rv.ignore),
            conds_v(out@) == concat_map(rvs.take(i as int), f),
        decreases revs@.len() - i,
    {
        let cur: &Revisioned = revs[i];
        proof {
            assert(rvs[i as int] == cur@);
        }
        let mut j: usize = 0;
        while j < cur.ignore.len()
            invariant
                j <= cur.ignore@.len(),
                i < revs@.len(),
                rvs == rv_views(revs@),
                rvs.len() == revs@.len(),
                f == (|rv: RevisionedV| rv.ignore),
                rvs[i as int] == cur@,
                conds_v(out@) == concat_map(rvs.take(i as int), f) + cur@.ignore.take(j as int),
            decreases cur.ignore@.len() - j,
        {
            let ghost prev = out@;
            out.push(cur.ignore[j].duplicate());
            proof {
                let aa = concat_map(rvs.take(i as int), f);
                assert(conds_v(out@) =~= conds_v(prev).push(cur@.ignore[j as int]));
                assert(cur@.ignore.take(j + 1) =~= cur@.ignore.take(j as int).push(
                    cur@.ignore[j as int],
                ));
                assert((aa + cur@.ignore.take(j as int)).push(cur@.ignore[j as int]) =~= aa
                    + cur@.ignore.take(j + 1));
                assert(conds_v(out@) == aa + cur@.ignore.take(j + 1));
            }
            j += 1;
        }
        proof {
            assert(cur@.ignore.take(cur.ignore@.len() as int) =~= cur@.ignore);
            assert(rvs.take(i + 1) =~= rvs.take(i as int).push(rvs[i as int]));
            lemma_concat_map_snoc(rvs.take(i as int), rvs[i as int], f);
            assert(conds_v(out@) =~= concat_map(rvs.take(i + 1), f));
        }
        i += 1;
    }
    proof {
        assert(rvs.take(rvs.len() as int) =~= rvs);
    }
    out
}

/// All only conditions of the given records, in order.
pub fn collect_only(revs: &Vec<&Revisioned>) -> (r: Vec<Condition>)
    ensures
        conds_v(r@) == concat_map(rv_views(revs@), |rv: RevisionedV| rv.only),
{
    let ghost rvs = rv_views(revs@);
    let ghost f = |rv: RevisionedV| rv.only;
    let mut out: Vec<Condition> = Vec::new();
    let mut i: usize = 0;
    proof {
        assert(rvs.take(0) =~= Seq::empty());
        assert(conds_v(out@) =~= concat_map(rvs.take(0), f));
    }
    while i < revs.len()
        invariant
            i <= revs@.len(),
            rvs == rv_views(revs@),
            rvs.len() == revs@.len(),
            f == (|rv: RevisionedV| rv.only),
            conds_v(out@) == concat_map(rvs.take(i as int), f),
        decreases revs@.len() - i,
    {
        let cur: &Revisioned = revs[i];
        proof {
            assert(rvs[i as int] == cur@);
        }
        let mut j: usize = 0;
        while j < cur.only.len()
            invariant
                j <= cur.only@.len(),
                i < revs@.len(),
                rvs == rv_views(revs@),
                rvs.len() == revs@.len(),
                f == (|rv: RevisionedV| rv.only),
                rvs[i as int] == cur@,
                conds_v(out@) == concat_map(rvs.take(i as int), f) + cur@.only.take(j as int),
            decreases cur.only@.len() - j,
        {
            let ghost prev = out@;
            out.push(cur.only[j].duplicate());
            proof {
                let aa = concat_map(rvs.take(i as int), f);
                assert(conds_v(out@) =~= conds_v(prev).push(cur@.only[j as int]));
                assert(cur@.only.take(j + 1) =~= cur@.only.take(j as int).push(
                    cur@.only[j as int],
                ));
                assert((aa + cur@.only.take(j as int)).push(cur@.only[j as int]) =~= aa
                    + cur@.only.take(j + 1));
                assert(conds_v(out@) == aa + cur@.only.take(j + 1));
            }
            j += 1;
        }
        proof {
            assert(cur@.only.take(cur.only@.len() as int) =~= cur@.only);
            assert(rvs.take(i + 1) =~= rvs.take(i as int).push(rvs[i as int]));
            lemma_concat_map_snoc(rvs.take(i as int), rvs[i as int], f);
            assert(conds_v(out@) =~= concat_map(rvs.take(i + 1), f));
        }
        i += 1;
    }
    proof {
        assert(rvs.take(rvs.len() as int) =~= rvs);
    }
    out
}

/// All mode overrides of the given records, in order.
pub fn collect_modes(revs: &Vec<&Revisioned>) -> (r: Vec<(Mode, usize)>)
    ensures
        r@.map_values(|e: (Mode, usize)| (e.0, e.1 as int)) == concat_map(
            rv_views(revs@),
            |rv: RevisionedV|
                match rv.mode {
                    Some(v) => seq![v],
                    None => Seq::<(Mode, int)>::empty(),
                },
        ),
{
    let ghost rvs = rv_views(revs@);
    let ghost g = |rv: RevisionedV|
        match rv.mode {
            Some(v) => seq![v],
            None => Seq::<(Mode, int)>::empty(),
        };
    let ghost mv = |e: (Mode, usize)| (e.0, e.1 as int);
    let mut out: Vec<(Mode, usize)> = Vec::new();
    let mut i: usize = 0;
    proof {
        assert(rvs.take(0) =~= Seq::empty());
        assert(out@.map_values(mv) =~= concat_map(rvs.take(0), g));
    }
    while i < revs.len()
        invariant
            i <= revs@.len(),
            rvs == rv_views(revs@),
            rvs.len() == revs@.len(),
            g == (|rv: RevisionedV|
                match rv.mode {
                    Some(v) => seq![v],
                    None => Seq::<(Mode, int)>::empty(),
                }),
            mv == (|e: (Mode, usize)| (e.0, e.1 as int)),
            out@.map_values(mv) == concat_map(rvs.take(i as int), g),
        decreases revs@.len() - i,
    {
        let cur: &Revisioned = revs[i];
        proof {
            assert(rvs[i as int] == cur@);
            assert(rvs.take(i + 1) =~= rvs.take(i as int).push(rvs[i as int]));
            lemma_concat_map_snoc(rvs.take(i as int), rvs[i as int], g);
        }
        match &cur.mode {
            Some(entry) => {
                let ghost prev = out@;
                out.push((entry.0, entry.1));
                proof {
                    let aa = concat_map(rvs.take(i as int), g);
                    assert(out@.map_values(mv) =~= prev.map_values(mv).push(
                        (entry.0, entry.1 as int),
                    ));
                    assert(g(rvs[i as int]) =~= seq![(entry.0, entry.1 as int)]);
                    assert(aa.push((entry.0, entry.1 as int)) =~= aa + g(rvs[i as int]));
                    assert(out@.map_values(mv) == concat_map(rvs.take(i + 1), g));
                }
            },
            None => {
                proof {
                    let aa = concat_map(rvs.take(i as int), g);
                    assert(aa + g(rvs[i as int]) =~= aa);
                    assert(out@.map_values(mv) == concat_map(rvs.take(i + 1), g));
                }
            },
        }
        i += 1;
    }
    proof {
        assert(rvs.take(rvs.len() as int) =~= rvs);
    }
    out
}

/// All edition overrides of the given records, in order.
pub fn collect_editions(revs: &Vec<&Revisioned>) -> (r: Vec<(Vec<u8>, usize)>)
    ensures
        r@.map_values(|e: (Vec<u8>, usize)| (e.0@, e.1 as int)) == concat_map(
            rv_views(revs@),
            |rv: RevisionedV|
                match rv.edition {
                    Some(v) => seq![v],
                    None => Seq::<(Seq<u8>, int)>::empty(),
                },
        ),
{
    let ghost rvs = rv_views(revs@);
    let ghost g = |rv: RevisionedV|
        match rv.edition {
            Some(v) => seq![v],
            None => Seq::<(Seq<u8>, int)>::empty(),
        };
    let ghost mv = |e: (Vec<u8>, usize)| (e.0@, e.1 as int);
    let mut out: Vec<(Vec<u8>, usize)> = Vec::new();
    let mut i: usize = 0;
    proof {
        assert(rvs.take(0) =~= Seq::empty());
        assert(out@.map_values(mv) =~= concat_map(rvs.take(0), g));
    }
    while i < revs.len()
        invariant
            i <= revs@.len(),
            rvs == rv_views(revs@),
            rvs.len() == revs@.len(),
            g == (|rv: RevisionedV|
                match rv.edition {
                    Some(v) => seq![v],
                    None => Seq::<(Seq<u8>, int)>::empty(),
                }),
            mv == (|e: (Vec<u8>, usize)| (e.0@, e.1 as int)),
            out@.map_values(mv) == concat_map(rvs.take(i as int), g),
        decreases revs@.len() - i,
    {
        let cur: &Revisioned = revs[i];
        proof {
            assert(rvs[i as int] == cur@);
            assert(rvs.take(i + 1) =~= rvs.take(i as int).push(rvs[i as int]));
            lemma_concat_map_snoc(rvs.take(i as int), rvs[i as int], g);
        }
        match &cur.edition {
            Some(entry) => {
                let ghost prev = out@;
                out.push((crate::util::clone_bytes(&entry.0), entry.1));
                proof {
                    let aa = concat_map(rvs.take(i as int), g);
                    assert(out@.map_values(mv) =~= prev.map_values(mv).push(
                        (entry.0@, entry.1 as int),
                    ));
                    assert(g(rvs[i as int]) =~= seq![(entry.0@, entry.1 as int)]);
                    assert(aa.push((entry.0@, entry.1 as int)) =~= aa + g(rvs[i as int]));
                    assert(out@.map_values(mv) == concat_map(rvs.take(i + 1), g));
                }
            },
            None => {
                proof {
                    let aa = concat_map(rvs.take(i as int), g);
                    assert(aa + g(rvs[i as int]) =~= aa);
                    assert(out@.map_values(mv) == concat_map(rvs.take(i + 1), g));
                }
            },
        }
        i += 1;
    }
    proof {
        assert(rvs.take(rvs.len() as int) =~= rvs);
    }
    out
}

/// All required-annotation-level settings of the given records, in order.
pub fn collect_require_levels(revs: &Vec<&Revisioned>) -> (r: Vec<Level>)
    ensures
        r@ == concat_map(
            rv_views(revs@),
            |rv: RevisionedV|
                match rv.require_annotations_for_level {
                    Some(v) => seq![v],
                    None => Seq::<Level>::empty(),
                },
        ),
{
    let ghost rvs = rv_views(revs@);
    let ghost g = |rv: RevisionedV|
        match rv.require_annotations_for_level {
            Some(v) => seq![v],
            None => Seq::<Level>::empty(),
        };
    let mut out: Vec<Level> = Vec::new();
    let mut i: usize = 0;
    proof {
        assert(rvs.take(0) =~= Seq::empty());
        assert(out@ =~= concat_map(rvs.take(0), g));
    }
    while i < revs.len()
        invariant
            i <= revs@.len(),
            rvs == rv_views(revs@),
            rvs.len() == revs@.len(),
            g == (|rv: RevisionedV|
                match rv.require_annotations_for_level {
                    Some(v) => seq![v],
                    None => Seq::<Level>::empty(),
                }),
            out@ == concat_map(rvs.take(i as int), g),
        decreases revs@.len() - i,
    {
        let cur: &Revisioned = revs[i];
        proof {
            assert(rvs[i as int] == cur@);
            assert(rvs.take(i + 1) =~= rvs.take(i as int).push(rvs[i as int]));
            lemma_concat_map_snoc(rvs.take(i as int), rvs[i as int], g);
        }
        match &cur.require_annotations_for_level {
            Some(level) => {
                let ghost prev = out@;
                out.push(*level);
                proof {
                    let aa = concat_map(rvs.take(i as int), g);
                    assert(g(rvs[i as int]) =~= seq![*level]);
                    assert(aa.push(*level) =~= aa + g(rvs[i as int]));
                    assert(out@ == concat_map(rvs.take(i + 1), g));
                }
            },
            None => {
                proof {
                    let aa = concat_map(rvs.take(i as int), g);
                    assert(aa + g(rvs[i as int]) =~= aa);
                    assert(out@ == concat_map(rvs.take(i + 1), g));
                }
            },
        }
        i += 1;
    }
    proof {
        assert(rvs.take(rvs.len() as int) =~= rvs);
    }
    out
}

/// Does any applicable record set `stderr_per_bitwidth`?
pub fn any_stderr_per_bitwidth(revs: &Vec<&Revisioned>) -> (r: bool)
    ensures
        r == exists|k: int|
            0 <= k < rv_views(revs@).len() && rv_views(revs@)[k].stderr_per_bitwidth,
{
    let mut i: usize = 0;
    while i < revs.len()
        invariant
            i <= revs@.len(),
            forall|k: int| 0 <= k < i ==> !rv_views(revs@)[k].stderr_per_bitwidth,
        decreases revs@.len() - i,
    {
        if revs[i].stderr_per_bitwidth {
            assert(rv_views(revs@)[i as int].stderr_per_bitwidth);
            return true;
        }
        i += 1;
    }
    false
}

/// Does any applicable record set `run_rustfix`?
pub fn any_run_rustfix(revs: &Vec<&Revisioned>) -> (r: bool)
    ensures
        r == exists|k: int| 0 <= k < rv_views(revs@).len() && rv_views(revs@)[k].run_rustfix,
{
    let mut i: usize = 0;
    while i < revs.len()
        invariant
            i <= revs@.len(),
            forall|k: int| 0 <= k < i ==> !rv_views(revs@)[k].run_rustfix,
        decreases revs@.len() - i,
    {
        if revs[i].run_rustfix {
            assert(rv_views(revs@)[i as int].run_rustfix);
            return true;
        }
        i += 1;
    }
    false
}

/// Does any applicable record set `needs_asm_support`?
pub fn any_needs_asm_support(revs: &Vec<&Revisioned>) -> (r: bool)
    ensures
        r == exists|k: int| 0 <= k < rv_views(revs@).len() && rv_views(revs@)[k].needs_asm_support,
{
    let mut i: usize = 0;
    while i < revs.len()
        invariant
            i <= revs@.len(),
            forall|k: int| 0 <= k < i ==> !rv_views(revs@)[k].needs_asm_support,
        decreases revs@.len() - i,
    {
        if revs[i].needs_asm_support {
            assert(rv_views(revs@)[i as int].needs_asm_support);
            return true;
        }
        i += 1;
    }
    false
}

/// Does the key set select `rev`?
pub fn key_applies(keys: &Vec<Vec<u8>>, rev: &[u8]) -> (r: bool)
    ensures
        r == rev_applies(views_of(keys@), rev@),
{
    if keys.len() == 0 {
        return true;
    }
    let mut i: usize = 0;
    while i < keys.len()
        invariant
            i <= keys@.len(),
            forall|k: int| 0 <= k < i ==> views_of(keys@)[k] != rev@,
        decreases keys@.len() - i,
    {
        if bytes_eq(keys[i].as_slice(), rev) {
            assert(views_of(keys@)[i as int] == rev@);
            return true;
        }
        i += 1;
    }
    assert(forall|k: int| 0 <= k < keys@.len() ==> views_of(keys@)[k] != rev@);
    assert(!views_of(keys@).contains(rev@));
    false
}

} // verus!
