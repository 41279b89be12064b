//! Checking one finished compiler run: both output streams against their
//! golden files, and the decoded diagnostics against the annotations.

use vstd::prelude::*;

use crate::comments::{Comments, RevisionedV, for_rev};
use crate::config::Config;
use crate::data::{Error, ErrorV, errors_v, messages_v, table_v};
use crate::decoder::Diagnostics;
use crate::matcher::{check_annotations, check_annotations_spec};
use crate::output::{GoldenAction, check_output, check_output_spec, output_path_spec};
use crate::util::concat_map;
use crate::words::{b_stderr, b_stdout, w_stderr, w_stdout};

verus! {

/// The errors the golden comparison of one stream reports.
pub open spec fn stream_errors(
    output: Seq<u8>,
    path: Seq<u8>,
    kind: Seq<u8>,
    filters: Seq<(crate::data::MatchV, Seq<u8>)>,
    config: crate::config::ConfigV,
    comments: crate::comments::CommentsV,
    revision: Seq<u8>,
    golden: Option<Seq<u8>>,
    lib_path: Option<Seq<u8>>,
) -> Seq<ErrorV> {
    let normalized = crate::filters::normalize_spec(
        crate::util::parent_of(path),
        output,
        lib_path,
        filters,
        concat_map(for_rev(comments.revisioned, revision), |rv: RevisionedV| rv.normalize_stderr),
    );
    let gpath = output_path_spec(
        path,
        kind,
        config.target->Some_0,
        exists|k: int|
            0 <= k < for_rev(comments.revisioned, revision).len() && for_rev(
                comments.revisioned,
                revision,
            )[k].stderr_per_bitwidth,
    );
    check_output_spec(normalized, gpath, config.output_conflict_handling, golden).1
}

/// Check one finished run: the rendered stderr and the stdout against their
/// golden files, then the diagnostics against the annotations. Returns the
/// rendered stderr and, per stream, the golden path with the action to take
/// on it.
pub fn check_test_result(
    path: &[u8],
    config: &Config,
    revision: &[u8],
    comments: &Comments,
    errors: &mut Vec<Error>,
    stdout: &[u8],
    diagnostics: Diagnostics,
    stderr_golden: Option<&Vec<u8>>,
    stdout_golden: Option<&Vec<u8>>,
    lib_path: Option<&Vec<u8>>,
) -> (r: (Vec<u8>, (Vec<u8>, GoldenAction), (Vec<u8>, GoldenAction)))
    requires
        config@.target is Some,
    ensures
        r.0@ == diagnostics.rendered@,
        errors_v(final(errors)@) == errors_v(old(errors)@) + stream_errors(
            diagnostics.rendered@,
            path@,
            crate::output::revised_spec(revision@, w_stderr()),
            config@.stderr_filters,
            config@,
            comments@,
            revision@,
            match stderr_golden {
                Some(g) => Some(g@),
                None => None,
            },
            match lib_path {
                Some(l) => Some(l@),
                None => None,
            },
        ) + stream_errors(
            stdout@,
            path@,
            crate::output::revised_spec(revision@, w_stdout()),
            config@.stdout_filters,
            config@,
            comments@,
            revision@,
            match stdout_golden {
                Some(g) => Some(g@),
                None => None,
            },
            match lib_path {
                Some(l) => Some(l@),
                None => None,
            },
        ) + check_annotations_spec(
            table_v(diagnostics.messages@),
            messages_v(diagnostics.messages_from_unknown_file_or_line@),
            path@,
            config@.mode,
            for_rev(comments@.revisioned, revision@),
        ),
{
    let ghost e0 = errors_v(errors@);
    let stderr_kind = crate::output::revised(revision, b_stderr().as_slice());
    let stderr_result = check_output(
        diagnostics.rendered.as_slice(),
        path,
        errors,
        stderr_kind.as_slice(),
        &config.stderr_filters,
        config,
        comments,
        revision,
        stderr_golden,
        lib_path,
    );
    let ghost e1 = errors_v(errors@);
    let stdout_kind = crate::output::revised(revision, b_stdout().as_slice());
    let stdout_result = check_output(
        stdout,
        path,
        errors,
        stdout_kind.as_slice(),
        &config.stdout_filters,
        config,
        comments,
        revision,
        stdout_golden,
        lib_path,
    );
    let ghost e2 = errors_v(errors@);
    let rendered = diagnostics.rendered;
    check_annotations(
        diagnostics.messages,
        diagnostics.messages_from_unknown_file_or_line,
        path,
        errors,
        config,
        revision,
        comments,
    );
    proof {
        let sa = stream_errors(
            rendered@,
            path@,
            crate::output::revised_spec(revision@, w_stderr()),
            config@.stderr_filters,
            config@,
            comments@,
            revision@,
            match stderr_golden {
                Some(g) => Some(g@),
                None => None,
            },
            match lib_path {
                Some(l) => Some(l@),
                None => None,
            },
        );
        let sb = stream_errors(
            stdout@,
            path@,
            crate::output::revised_spec(revision@, w_stdout()),
            config@.stdout_filters,
            config@,
            comments@,
            revision@,
            match stdout_golden {
                Some(g) => Some(g@),
                None => None,
            },
            match lib_path {
                Some(l) => Some(l@),
                None => None,
            },
        );
        let sc = check_annotations_spec(
            table_v(diagnostics.messages@),
            messages_v(diagnostics.messages_from_unknown_file_or_line@),
            path@,
            config@.mode,
            for_rev(comments@.revisioned, revision@),
        );
        assert(e1 == e0 + sa);
        assert(e2 == e1 + sb);
        assert(errors_v(errors@) == e2 + sc);
        assert(errors_v(errors@) =~= e0 + sa + sb + sc);
    }
    (rendered, stderr_result, stdout_result)
}

} // verus!
