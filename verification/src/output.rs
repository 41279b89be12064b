//! Golden-file comparison: where the reference output of a test lives, how
//! the actual output is normalized before the comparison, and what happens
//! when the two differ (report, ignore, or bless).

use vstd::prelude::*;

use crate::comments::{Comments, for_rev, RevisionedV, any_stderr_per_bitwidth};
use crate::config::Config;
use crate::data::{Error, ErrorV, Filter, OutputConflictHandling, errors_v};
use crate::filters::{normalize, normalize_spec};
use crate::util::{
    concat_map, contains_seq, last_index_of, occurs_at, parent_of, push_all, rfind_byte, subvec,
};
use crate::words::{b_bits16, b_bits32, b_bits64, w_avr, w_bits16, w_bits32, w_bits64, w_gnu_ilp32,
    w_gnux32, w_s390x, w_sixty_four};

verus! {

/// `hay` starts with `needle`.
pub open spec fn starts_with_seq(hay: Seq<u8>, needle: Seq<u8>) -> bool {
    occurs_at(hay, needle, 0)
}

/// `hay` ends with `needle`.
pub open spec fn ends_with_seq(hay: Seq<u8>, needle: Seq<u8>) -> bool {
    needle.len() <= hay.len() && occurs_at(hay, needle, hay.len() - needle.len())
}

/// The pointer width of a target triple, in bits.
pub open spec fn pointer_width(triple: Seq<u8>) -> u8 {
    if (contains_seq(triple, w_sixty_four()) && !ends_with_seq(triple, w_gnux32())
        && !ends_with_seq(triple, w_gnu_ilp32())) || starts_with_seq(triple, w_s390x()) {
        64
    } else if starts_with_seq(triple, w_avr()) {
        16
    } else {
        32
    }
}

/// Compute the pointer width of a target triple.
pub fn get_pointer_width(triple: &[u8]) -> (r: u8)
    ensures
        r == pointer_width(triple@),
{
    let has64 = crate::util::contains_bytes(triple, crate::words::b_sixty_four().as_slice());
    let gnux32 = crate::util::ends_with(triple, crate::words::b_gnux32().as_slice());
    let ilp32 = crate::util::ends_with(triple, crate::words::b_gnu_ilp32().as_slice());
    let s390x = crate::util::starts_with(triple, crate::words::b_s390x().as_slice());
    let avr = crate::util::starts_with(triple, crate::words::b_avr().as_slice());
    if (has64 && !gnux32 && !ilp32) || s390x {
        64
    } else if avr {
        16
    } else {
        32
    }
}

/// A path with its extension replaced: everything after the last `.` of the
/// file name goes, `.` and `ext` come instead. A name without a `.` (or
/// whose only `.` leads it) keeps its whole name as the stem.
pub open spec fn with_ext(p: Seq<u8>, ext: Seq<u8>) -> Seq<u8> {
    let start = last_index_of(p, 47) + 1;
    let name = p.skip(start);
    let d = last_index_of(name, 46);
    let stem_end = if d > 0 {
        start + d
    } else {
        p.len() as int
    };
    p.take(stem_end) + seq![46u8] + ext
}

/// Replace a path's extension.
pub fn with_extension(path: &[u8], ext: &[u8]) -> (r: Vec<u8>)
    ensures
        r@ == with_ext(path@, ext@),
{
    let plen: usize = path.len();
    let start: usize = match rfind_byte(path, 47) {
        Some(i) => {
            proof {
                assert(i < plen);
            }
            i + 1
        },
        None => 0,
    };
    let name = subvec(path, start, path.len());
    proof {
        assert(name@ =~= path@.skip(start as int));
    }
    let stem_end: usize = match rfind_byte(name.as_slice(), 46) {
        Some(d) => {
            if d > 0 {
                proof {
                    assert(d < name@.len());
                }
                start + d
            } else {
                path.len()
            }
        },
        None => path.len(),
    };
    proof {
        assert(stem_end <= path@.len());
    }
    let mut out = subvec(path, 0, stem_end);
    out.push(46);
    push_all(&mut out, ext);
    proof {
        assert(out@ =~= with_ext(path@, ext@));
    }
    out
}

/// The output kind with the revision in front: `stderr` or `rev.stderr`.
pub open spec fn revised_spec(revision: Seq<u8>, extension: Seq<u8>) -> Seq<u8> {
    if revision.len() == 0 {
        extension
    } else {
        revision + seq![46u8] + extension
    }
}

/// Prefix an output kind with the revision name.
pub fn revised(revision: &[u8], extension: &[u8]) -> (r: Vec<u8>)
    ensures
        r@ == revised_spec(revision@, extension@),
{
    if revision.len() == 0 {
        subvec(extension, 0, extension.len())
    } else {
        let mut out = subvec(revision, 0, revision.len());
        out.push(46);
        push_all(&mut out, extension);
        proof {
            assert(out@ =~= revision@ + seq![46u8] + extension@);
        }
        out
    }
}

/// The word for a pointer width: `16bit`, `32bit` or `64bit`.
pub open spec fn bits_word(w: u8) -> Seq<u8> {
    if w == 64 {
        w_bits64()
    } else if w == 16 {
        w_bits16()
    } else {
        w_bits32()
    }
}

/// Where the golden file for this output kind lives: the test path with its
/// extension replaced by the kind, with a pointer-width infix when the test
/// asks for per-bitwidth output.
pub open spec fn output_path_spec(
    path: Seq<u8>,
    kind: Seq<u8>,
    target: Seq<u8>,
    per_bitwidth: bool,
) -> Seq<u8> {
    if per_bitwidth {
        with_ext(path, bits_word(pointer_width(target)) + seq![46u8] + kind)
    } else {
        with_ext(path, kind)
    }
}

/// Compute the golden-file path for one output kind of one revision.
pub fn output_path(
    path: &[u8],
    comments: &Comments,
    kind: &[u8],
    target: &[u8],
    revision: &[u8],
) -> (r: Vec<u8>)
    ensures
        r@ == output_path_spec(
            path@,
            kind@,
            target@,
            exists|k: int|
                0 <= k < for_rev(comments@.revisioned, revision@).len() && for_rev(
                    comments@.revisioned,
                    revision@,
                )[k].stderr_per_bitwidth,
        ),
{
    let revs = comments.for_revision(revision);
    if any_stderr_per_bitwidth(&revs) {
        let width = get_pointer_width(target);
        let mut ext = if width == 64 {
            b_bits64()
        } else if width == 16 {
            b_bits16()
        } else {
            b_bits32()
        };
        ext.push(46);
        push_all(&mut ext, kind);
        proof {
            assert(ext@ =~= bits_word(pointer_width(target@)) + seq![46u8] + kind@);
        }
        with_extension(path, ext.as_slice())
    } else {
        with_extension(path, kind)
    }
}

/// What a run does to the golden file after comparing.
#[derive(Debug, PartialEq, Eq)]
pub enum GoldenAction {
    /// Write the normalized output to the golden path.
    Write(Vec<u8>),
    /// Remove the golden file.
    Delete,
    /// Leave the golden file as it is.
    Keep,
}

/// Mathematical view of a `GoldenAction`.
pub enum GoldenActionV {
    Write(Seq<u8>),
    Delete,
    Keep,
}

impl View for GoldenAction {
    type V = GoldenActionV;

    open spec fn view(&self) -> GoldenActionV {
        match self {
            GoldenAction::Write(v) => GoldenActionV::Write(v@),
            GoldenAction::Delete => GoldenActionV::Delete,
            GoldenAction::Keep => GoldenActionV::Keep,
        }
    }
}

/// What comparing one output stream against its golden file yields: the
/// golden path, the action on the golden file, and the errors reported.
/// `golden` is the golden file's current content, `None` when it is absent.
pub open spec fn check_output_spec(
    normalized: Seq<u8>,
    gpath: Seq<u8>,
    conflict: OutputConflictHandling,
    golden: Option<Seq<u8>>,
) -> (GoldenActionV, Seq<ErrorV>) {
    match conflict {
        OutputConflictHandling::Bless => if normalized.len() == 0 {
            (GoldenActionV::Delete, Seq::empty())
        } else {
            (GoldenActionV::Write(normalized), Seq::empty())
        },
        OutputConflictHandling::Error => {
            let expected = match golden {
                Some(g) => g,
                None => Seq::empty(),
            };
            if normalized == expected {
                (GoldenActionV::Keep, Seq::empty())
            } else {
                (
                    GoldenActionV::Keep,
                    seq![
                        ErrorV::OutputDiffers {
                            path: gpath,
                            actual: normalized,
                            expected: expected,
                        },
                    ],
                )
            }
        },
        OutputConflictHandling::Ignore => (GoldenActionV::Keep, Seq::empty()),
    }
}

/// Normalize one output stream, find its golden path, and compare, as
/// `check_output_spec` says. The caller reads and writes the golden file;
/// `golden` is its current content and the returned action what to do to it.
pub fn check_output(
    output: &[u8],
    path: &[u8],
    errors: &mut Vec<Error>,
    kind: &[u8],
    filters: &Filter,
    config: &Config,
    comments: &Comments,
    revision: &[u8],
    golden: Option<&Vec<u8>>,
    lib_path: Option<&Vec<u8>>,
) -> (r: (Vec<u8>, GoldenAction))
    requires
        config@.target is Some,
    ensures
        ({
            let normalized = normalize_spec(
                parent_of(path@),
                output@,
                match lib_path {
                    Some(lp) => Some(lp@),
                    None => None,
                },
                crate::comments::filter_v(filters@),
                concat_map(
                    for_rev(comments@.revisioned, revision@),
                    |rv: RevisionedV| rv.normalize_stderr,
                ),
            );
            let gpath = output_path_spec(
                path@,
                kind@,
                config@.target->Some_0,
                exists|k: int|
                    0 <= k < for_rev(comments@.revisioned, revision@).len() && for_rev(
                        comments@.revisioned,
                        revision@,
                    )[k].stderr_per_bitwidth,
            );
            let outcome = check_output_spec(
                normalized,
                gpath,
                config@.output_conflict_handling,
                match golden {
                    Some(g) => Some(g@),
                    None => None,
                },
            );
            &&& r.0@ == gpath
            &&& r.1@ == outcome.0
            &&& errors_v(final(errors)@) == errors_v(old(errors)@) + outcome.1
        }),
{
    let parent = crate::util::parent_dir(path);
    let normalized = normalize(parent.as_slice(), output, lib_path, filters, comments, revision);
    let target = match &config.target {
        Some(t) => t,
        None => {
            proof {
                assert(false);
            }
            unreached()
        },
    };
    let gpath = output_path(path, comments, kind, target.as_slice(), revision);
    proof {
        assert(errors_v(errors@) =~= errors_v(old(errors)@) + Seq::<ErrorV>::empty());
    }
    let action = match config.output_conflict_handling {
        OutputConflictHandling::Bless => {
            if normalized.len() == 0 {
                GoldenAction::Delete
            } else {
                GoldenAction::Write(normalized)
            }
        },
        OutputConflictHandling::Error => {
            let expected = match golden {
                Some(g) => crate::util::clone_bytes(g),
                None => Vec::new(),
            };
            if !crate::util::bytes_eq(normalized.as_slice(), expected.as_slice()) {
                let gpath_copy = crate::util::clone_bytes(&gpath);
                let ghost preverr = errors@;
                errors.push(
                    Error::OutputDiffers { path: gpath_copy, actual: normalized, expected },
                );
                proof {
                    assert(errors_v(errors@) =~= errors_v(preverr).push(
                        ErrorV::OutputDiffers {
                            path: gpath@,
                            actual: normalized@,
                            expected: match golden {
                                Some(g) => g@,
                                None => Seq::empty(),
                            },
                        },
                    ));
                    assert(errors_v(errors@) =~= errors_v(old(errors)@) + check_output_spec(
                        normalized@,
                        gpath@,
                        config@.output_conflict_handling,
                        match golden {
                            Some(g) => Some(g@),
                            None => None,
                        },
                    ).1);
                }
            } else {
                proof {
                    assert(errors_v(errors@) =~= errors_v(old(errors)@) + Seq::<ErrorV>::empty());
                }
            }
            GoldenAction::Keep
        },
        OutputConflictHandling::Ignore => GoldenAction::Keep,
    };
    (gpath, action)
}

/// Blessing is stable: blessing writes the normalized output, and a later
/// comparison of the same output against what was written (or against an
/// absent file, when blessing deleted it) reports nothing; a second blessing
/// writes byte-identical content.
pub proof fn lemma_bless_round_trip(normalized: Seq<u8>, gpath: Seq<u8>)
    ensures
        ({
            let first = check_output_spec(
                normalized,
                gpath,
                OutputConflictHandling::Bless,
                None,
            );
            let golden_after: Option<Seq<u8>> = match first.0 {
                GoldenActionV::Write(n) => Some(n),
                GoldenActionV::Delete => None,
                GoldenActionV::Keep => None,
            };
            &&& first.1.len() == 0
            &&& check_output_spec(
                normalized,
                gpath,
                OutputConflictHandling::Error,
                golden_after,
            ).1.len() == 0
            &&& check_output_spec(normalized, gpath, OutputConflictHandling::Bless, golden_after).0
                == first.0
        }),
{
    if normalized.len() == 0 {
        assert(normalized =~= Seq::<u8>::empty());
        assert(check_output_spec(normalized, gpath, OutputConflictHandling::Error, None).1
            =~= Seq::<ErrorV>::empty());
    } else {
        assert(check_output_spec(
            normalized,
            gpath,
            OutputConflictHandling::Error,
            Some(normalized),
        ).1 =~= Seq::<ErrorV>::empty());
    }
}

} // verus!
