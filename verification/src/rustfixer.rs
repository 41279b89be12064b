//! The suggestion rerun: machine-applicable fixes are applied to the source
//! text by an outside library, the fixed text goes to a sibling `.fixed`
//! file, and a pass-mode re-run of the compiler is scheduled for it.

use vstd::prelude::*;

use crate::cmd::{CommandSpec, build_command, build_command_args, build_command_envs};
use crate::comments::{
    Comments, CommentsV, RevisionedV, Revisioned, collect_aux_builds, collect_compile_flags,
    collect_env_vars, empty_revisioned, for_rev,
};
use crate::config::Config;
use crate::data::{Error, ErrorV, Filter, MatchV, Mode, errors_v};
use crate::filters::normalize_spec;
use crate::output::{GoldenAction, check_output, check_output_spec, output_path_spec, with_ext};
use crate::util::{concat_map, parent_of};
use crate::words::{b_fixed, b_msg_fix_failed, w_fixed, w_msg_fix_failed};

verus! {

/// What the outside fix library computes from a source text and the
/// compiler's JSON stderr: the text with every machine-applicable suggestion
/// applied, or nothing when the diagnostics cannot be read or a suggestion
/// does not fit the text. Both steps are functions of their text arguments
/// alone.
pub uninterp spec fn machine_fixes_of(code: Seq<u8>, stderr: Seq<u8>) -> Option<Seq<u8>>;

/// Relies on `rustfix::get_suggestions_from_json` (collecting the
/// machine-applicable suggestions) and `rustfix::apply_suggestions` (editing
/// the text with them): their composed result is `machine_fixes_of`.
#[verifier::external_body]
fn rustfix_fixed(code: &[u8], stderr: &[u8]) -> (r: Option<Vec<u8>>)
    ensures
        match r {
            Some(f) => machine_fixes_of(code@, stderr@) == Some(f@),
            None => machine_fixes_of(code@, stderr@) is None,
        },
{
    let stderr = core::str::from_utf8(stderr).ok()?;
    let code = core::str::from_utf8(code).ok()?;
    let only = std::collections::HashSet::new();
    let suggestions =
        rustfix::get_suggestions_from_json(stderr, &only, rustfix::Filter::MachineApplicableOnly)
            .ok()?;
    let fixed = rustfix::apply_suggestions(code, suggestions.as_slice()).ok()?;
    Some(fixed.into_bytes())
}

/// The one record the fixed file is run under: the parent revision's flags,
/// environment and auxiliary builds, every expectation cleared, and the mode
/// forced to pass.
pub open spec fn rustfix_record(c: CommentsV, revision: Seq<u8>) -> RevisionedV {
    RevisionedV {
        compile_flags: concat_map(
            for_rev(c.revisioned, revision),
            |rv: RevisionedV| rv.compile_flags,
        ),
        env_vars: concat_map(for_rev(c.revisioned, revision), |rv: RevisionedV| rv.env_vars),
        aux_builds: concat_map(for_rev(c.revisioned, revision), |rv: RevisionedV| rv.aux_builds),
        mode: Some((Mode::Pass, 0int)),
        ..empty_revisioned()
    }
}

/// The synthetic annotations the fixed file is run under: one record,
/// applying to every revision, as `rustfix_record` says.
pub fn rustfix_comments(comments: &Comments, revision: &[u8]) -> (r: Comments)
    ensures
        r@.revisions is None,
        r@.revisioned.len() == 1,
        r@.revisioned[0].0.len() == 0,
        r@.revisioned[0].1 == rustfix_record(comments@, revision@),
{
    let revs = comments.for_revision(revision);
    let compile_flags = collect_compile_flags(&revs);
    let env_vars = collect_env_vars(&revs);
    let aux_builds = collect_aux_builds(&revs);
    let mut rec = Revisioned::empty();
    rec.compile_flags = compile_flags;
    rec.env_vars = env_vars;
    rec.aux_builds = aux_builds;
    rec.mode = Some((Mode::Pass, 0));
    let mut revisioned: Vec<(Vec<Vec<u8>>, Revisioned)> = Vec::new();
    revisioned.push((Vec::new(), rec));
    let r = Comments { revisions: None, revisioned };
    proof {
        assert(r@.revisioned[0].0 =~= Seq::<Seq<u8>>::empty());
        assert(r@.revisioned[0].1.ignore =~= empty_revisioned().ignore);
        assert(r@.revisioned[0].1.only =~= empty_revisioned().only);
        assert(r@.revisioned[0].1.normalize_stderr =~= empty_revisioned().normalize_stderr);
        assert(r@.revisioned[0].1.error_patterns =~= empty_revisioned().error_patterns);
        assert(r@.revisioned[0].1.error_matches =~= empty_revisioned().error_matches);
    }
    r
}

/// Apply the machine-applicable fixes to the source, compare or bless the
/// `.fixed` golden file, and assemble the pass-mode re-run command.
///
/// Succeeds exactly when the fix library computes a fixed text. On success
/// the returned path is the test path with its extension replaced by
/// `fixed` (with the revision in front), the action is the golden-file
/// outcome on the normalized fixed text, and the command is built from
/// `rustfix_record` with the extra arguments appended. When the library
/// refuses, one `Bug` is reported and nothing else changes.
pub fn run_rustfix(
    stderr: &[u8],
    source: &[u8],
    path: &[u8],
    comments: &Comments,
    revision: &[u8],
    config: &Config,
    extra_args: &Vec<Vec<u8>>,
    fixed_golden: Option<&Vec<u8>>,
    errors: &mut Vec<Error>,
) -> (r: Option<(CommandSpec, Vec<u8>, GoldenAction)>)
    requires
        config@.target is Some,
    ensures
        (r is Some) == (machine_fixes_of(source@, stderr@) is Some),
        match r {
            Some(t) => ({
                let rec = rustfix_record(comments@, revision@);
                let fixed = machine_fixes_of(source@, stderr@)->Some_0;
                let normalized = normalize_spec(
                    parent_of(path@),
                    fixed,
                    None,
                    Seq::empty(),
                    Seq::empty(),
                );
                let outcome = check_output_spec(
                    normalized,
                    t.1@,
                    config@.output_conflict_handling,
                    match fixed_golden {
                        Some(g) => Some(g@),
                        None => None,
                    },
                );
                &&& t.1@ == with_ext(
                    path@,
                    crate::output::revised_spec(revision@, w_fixed()),
                )
                &&& t.2@ == outcome.0
                &&& t.0@.program == config@.program
                &&& t.0@.args == build_command_args(
                    t.1@,
                    config@,
                    revision@,
                    seq![rec],
                    config@.out_dir,
                ) + crate::util::views_of(extra_args@)
                &&& t.0@.envs == build_command_envs(config@, seq![rec])
                &&& errors_v(final(errors)@) == errors_v(old(errors)@) + outcome.1
            }),
            None => errors_v(final(errors)@) == errors_v(old(errors)@).push(
                ErrorV::Bug(w_msg_fix_failed()),
            ),
        },
{
    let fixed = match rustfix_fixed(source, stderr) {
        Some(f) => f,
        None => {
            let ghost preverr = errors@;
            errors.push(Error::Bug(b_msg_fix_failed()));
            proof {
                assert(errors_v(errors@) =~= errors_v(preverr).push(
                    ErrorV::Bug(w_msg_fix_failed()),
                ));
            }
            return None;
        },
    };
    let synthetic = rustfix_comments(comments, revision);
    let ghost rec = rustfix_record(comments@, revision@);
    let ghost srevs = for_rev(synthetic@.revisioned, revision@);
    proof {
        assert(synthetic@.revisioned.drop_first() =~= Seq::<(Seq<Seq<u8>>, RevisionedV)>::empty());
        assert(concat_map(
            Seq::<(Seq<Seq<u8>>, RevisionedV)>::empty(),
            |e: (Seq<Seq<u8>>, RevisionedV)|
                if crate::comments::rev_applies(e.0, revision@) {
                    seq![e.1]
                } else {
                    Seq::<RevisionedV>::empty()
                },
        ) =~= Seq::<RevisionedV>::empty());
        assert(srevs =~= seq![rec]);
        assert(seq![rec].drop_first() =~= Seq::<RevisionedV>::empty());
        assert(srevs.drop_first() =~= Seq::<RevisionedV>::empty());
        assert(forall|k: int| 0 <= k < srevs.len() ==> !(#[trigger] srevs[k]).stderr_per_bitwidth);
        let ns = |rv: RevisionedV| rv.normalize_stderr;
        assert(srevs.len() == 1);
        assert(srevs[0] == rec);
        assert(rec.normalize_stderr.len() == 0);
        assert(concat_map(srevs, ns) == ns(srevs[0]) + concat_map(srevs.drop_first(), ns));
        assert(concat_map(srevs.drop_first(), ns).len() == 0);
        assert(concat_map(srevs, ns) =~= Seq::<(MatchV, Seq<u8>)>::empty());
    }
    let kind = crate::output::revised(revision, b_fixed().as_slice());
    let empty_filters: Filter = Vec::new();
    proof {
        assert(crate::comments::filter_v(empty_filters@) =~= Seq::<(MatchV, Seq<u8>)>::empty());
    }
    let (fixed_path, action) = check_output(
        fixed.as_slice(),
        path,
        errors,
        kind.as_slice(),
        &empty_filters,
        config,
        &synthetic,
        revision,
        fixed_golden,
        None,
    );
    proof {
        assert(fixed_path@ == output_path_spec(
            path@,
            crate::output::revised_spec(revision@, w_fixed()),
            config@.target->Some_0,
            false,
        ));
    }
    let ghost e1 = errors_v(errors@);
    let out_dir = config.out_dir.as_ref();
    proof {
        assert(match out_dir {
            Some(o) => Some(o@),
            None => None::<Seq<u8>>,
        } == config@.out_dir);
    }
    let mut cmd = build_command(
        fixed_path.as_slice(),
        config,
        revision,
        &synthetic,
        out_dir,
        errors,
    );
    proof {
        let ed = |rv: RevisionedV|
            match rv.edition {
                Some(v) => seq![v],
                None => Seq::<(Seq<u8>, int)>::empty(),
            };
        assert(srevs.len() == 1);
        assert(srevs[0] == rec);
        assert(rec.edition is None);
        assert(ed(srevs[0]).len() == 0);
        assert(crate::cmd::edition_entries(srevs) == ed(srevs[0]) + concat_map(
            srevs.drop_first(),
            ed,
        ));
        assert(concat_map(srevs.drop_first(), ed).len() == 0);
        assert(crate::cmd::edition_entries(srevs) =~= Seq::<(Seq<u8>, int)>::empty());
        assert(crate::cmd::edition_dup_errors(srevs) == Seq::<ErrorV>::empty());
        assert(errors_v(errors@) =~= e1);
    }
    cmd.push_args(extra_args);
    Some((cmd, fixed_path, action))
}

} // verus!
