//! The filter engine: ordered byte replacements (exact or regex) applied to
//! an output stream before it is compared against a golden file.

use vstd::prelude::*;

use crate::comments::{Comments, collect_normalize_filters, filter_v};
use crate::data::{Filter, Match, MatchV};
use crate::rx::regex_replace_of;
use crate::util::{matches_at, push_all, subvec};

verus! {

/// `text` with every non-overlapping occurrence of `needle` replaced by
/// `repl`, scanning left to right. An empty needle changes nothing.
pub open spec fn replace_all_spec(t: Seq<u8>, needle: Seq<u8>, repl: Seq<u8>) -> Seq<u8>
    decreases t.len(),
{
    if needle.len() == 0 || t.len() < needle.len() {
        t
    } else if t.take(needle.len() as int) == needle {
        repl + replace_all_spec(t.skip(needle.len() as int), needle, repl)
    } else {
        seq![t[0]] + replace_all_spec(t.skip(1), needle, repl)
    }
}

/// Replace every non-overlapping occurrence of `needle` in `text` by `repl`.
pub fn replace_all_exact(text: &[u8], needle: &[u8], repl: &[u8]) -> (r: Vec<u8>)
    ensures
        r@ == replace_all_spec(text@, needle@, repl@),
{
    if needle.len() == 0 || text.len() < needle.len() {
        return subvec(text, 0, text.len());
    }
    let nl: usize = needle.len();
    let mut out: Vec<u8> = Vec::new();
    let mut i: usize = 0;
    proof {
        assert(text@.skip(0) =~= text@);
        assert(out@ + replace_all_spec(text@, needle@, repl@) =~= replace_all_spec(
            text@,
            needle@,
            repl@,
        ));
    }
    while i < text.len()
        invariant
            0 < nl == needle@.len(),
            i <= text@.len(),
            replace_all_spec(text@, needle@, repl@) == out@ + replace_all_spec(
                text@.skip(i as int),
                needle@,
                repl@,
            ),
        decreases text@.len() - i,
    {
        let ghost tail = text@.skip(i as int);
        if nl <= text.len() - i && matches_at(text, needle, i) {
            proof {
                assert(tail.take(nl as int) =~= text@.subrange(i as int, i + nl));
                assert(tail.skip(nl as int) =~= text@.skip(i + nl));
            }
            push_all(&mut out, repl);
            i += nl;
        } else {
            proof {
                if nl <= text.len() - i {
                    assert(tail.take(nl as int) =~= text@.subrange(i as int, i + nl));
                }
                assert(tail.skip(1) =~= text@.skip(i + 1));
                assert(seq![tail[0]] =~= text@.subrange(i as int, i + 1));
            }
            let b = text[i];
            out.push(b);
            proof {
                assert(tail =~= seq![tail[0]] + tail.skip(1));
            }
            i += 1;
        }
    }
    proof {
        assert(text@.skip(text@.len() as int) =~= Seq::<u8>::empty());
    }
    out
}

/// One filter application: what replacing `m` by `repl` in `text` yields.
pub open spec fn match_replace(m: MatchV, text: Seq<u8>, repl: Seq<u8>) -> Seq<u8> {
    match m {
        MatchV::Exact(n) => replace_all_spec(text, n, repl),
        MatchV::Regex(p) => regex_replace_of(p, text, repl),
    }
}

impl Match {
    /// Apply this needle's replacement everywhere in `text`.
    pub fn replace_all(&self, text: &[u8], repl: &[u8]) -> (r: Vec<u8>)
        ensures
            r@ == match_replace(self@, text@, repl@),
    {
        match self {
            Match::Exact(n) => replace_all_exact(text, n.as_slice(), repl),
            Match::Regex(re) => re.replace_all(text, repl),
        }
    }
}

/// An ordered filter list applied front to back.
pub open spec fn apply_filters(text: Seq<u8>, fs: Seq<(MatchV, Seq<u8>)>) -> Seq<u8>
    decreases fs.len(),
{
    if fs.len() == 0 {
        text
    } else {
        apply_filters(match_replace(fs[0].0, text, fs[0].1), fs.drop_first())
    }
}

/// Apply every filter of `fs`, in order.
pub fn run_filters(text: Vec<u8>, fs: &Filter) -> (r: Vec<u8>)
    ensures
        r@ == apply_filters(text@, filter_v(fs@)),
{
    let ghost whole = filter_v(fs@);
    let mut cur = text;
    let mut i: usize = 0;
    proof {
        assert(whole.skip(0) =~= whole);
    }
    while i < fs.len()
        invariant
            i <= fs@.len(),
            whole == filter_v(fs@),
            whole.len() == fs@.len(),
            apply_filters(cur@, whole.skip(i as int)) == apply_filters(text@, whole),
        decreases fs@.len() - i,
    {
        let entry = &fs[i];
        let next = entry.0.replace_all(cur.as_slice(), entry.1.as_slice());
        proof {
            assert(whole[i as int] == (entry.0@, entry.1@));
            assert(whole.skip(i as int)[0] == whole[i as int]);
            assert(whole.skip(i as int).drop_first() =~= whole.skip(i + 1));
        }
        cur = next;
        i += 1;
    }
    proof {
        assert(whole.skip(whole.len() as int) =~= Seq::<(MatchV, Seq<u8>)>::empty());
    }
    cur
}

/// The literal that library paths are rewritten to.
pub open spec fn rustlib_bytes() -> Seq<u8> {
    seq![82u8, 85u8, 83u8, 84u8, 76u8, 73u8, 66u8]
}

/// Build the `RUSTLIB` literal.
pub fn rustlib_literal() -> (r: Vec<u8>)
    ensures
        r@ == rustlib_bytes(),
{
    let mut v: Vec<u8> = Vec::new();
    v.push(82);
    v.push(85);
    v.push(83);
    v.push(84);
    v.push(76);
    v.push(73);
    v.push(66);
    proof {
        assert(v@ =~= rustlib_bytes());
    }
    v
}

/// The literal that the test file's directory is rewritten to.
pub open spec fn dir_token_bytes() -> Seq<u8> {
    seq![36u8, 68u8, 73u8, 82u8]
}

/// Build the `$DIR` literal.
pub fn dir_token_literal() -> (r: Vec<u8>)
    ensures
        r@ == dir_token_bytes(),
{
    let mut v: Vec<u8> = Vec::new();
    v.push(36);
    v.push(68);
    v.push(73);
    v.push(82);
    proof {
        assert(v@ =~= dir_token_bytes());
    }
    v
}

/// A path as a filter needle: a leading verbatim prefix `\\?\` is dropped and
/// every backslash becomes a forward slash.
pub open spec fn path_needle(p: Seq<u8>) -> Seq<u8> {
    let stripped = if p.len() >= 4 && p.take(4) == seq![92u8, 92u8, 63u8, 92u8] {
        p.skip(4)
    } else {
        p
    };
    stripped.map_values(
        |b: u8|
            if b == 92 {
                47u8
            } else {
                b
            },
    )
}

impl Match {
    /// The exact needle that stands for a path in output filtering.
    pub fn from_path(path: &[u8]) -> (r: Match)
        ensures
            r@ == MatchV::Exact(path_needle(path@)),
    {
        let has_prefix: bool = path.len() >= 4 && path[0] == 92 && path[1] == 92 && path[2] == 63
            && path[3] == 92;
        let start: usize = if has_prefix {
            4
        } else {
            0
        };
        proof {
            if path@.len() >= 4 {
                assert(path@.take(4) =~= seq![path@[0], path@[1], path@[2], path@[3]]);
            }
        }
        let mut out: Vec<u8> = Vec::new();
        let mut i: usize = start;
        while i < path.len()
            invariant
                start <= i <= path@.len(),
                start == 0 || start == 4,
                start == 4 ==> path@.len() >= 4,
                out@ == path@.subrange(start as int, i as int).map_values(
                    |b: u8|
                        if b == 92 {
                            47u8
                        } else {
                            b
                        },
                ),
            decreases path@.len() - i,
        {
            let b = path[i];
            if b == 92 {
                out.push(47);
            } else {
                out.push(b);
            }
            proof {
                assert(path@.subrange(start as int, i + 1) =~= path@.subrange(
                    start as int,
                    i as int,
                ).push(path@[i as int]));
                assert(out@ =~= path@.subrange(start as int, i + 1).map_values(
                    |b: u8|
                        if b == 92 {
                            47u8
                        } else {
                            b
                        },
                ));
            }
            i += 1;
        }
        proof {
            if start == 4 {
                assert(path@.subrange(4, path@.len() as int) =~= path@.skip(4));
            } else {
                assert(path@.subrange(0, path@.len() as int) =~= path@);
            }
            assert(out@ =~= path_needle(path@));
        }
        Match::Exact(out)
    }
}

/// Everything `normalize` does to an output stream, in order: the optional
/// library path becomes `RUSTLIB`, the configured filters run, the test
/// file's directory becomes `$DIR`, and the per-revision filters run last.
pub open spec fn normalize_spec(
    parent: Seq<u8>,
    text: Seq<u8>,
    lib_path: Option<Seq<u8>>,
    filters: Seq<(MatchV, Seq<u8>)>,
    rev_filters: Seq<(MatchV, Seq<u8>)>,
) -> Seq<u8> {
    let t0 = match lib_path {
        Some(lp) => replace_all_spec(text, lp, rustlib_bytes()),
        None => text,
    };
    let t1 = apply_filters(t0, filters);
    let t2 = replace_all_spec(t1, path_needle(parent), dir_token_bytes());
    apply_filters(t2, rev_filters)
}

/// Normalize an output stream for comparison against a golden file.
///
/// `parent` is the directory of the test file; `lib_path` is the build-time
/// library path to hide, if one is configured; `filters` are the configured
/// stream filters; the per-revision filters come from `comments`.
pub fn normalize(
    parent: &[u8],
    text: &[u8],
    lib_path: Option<&Vec<u8>>,
    filters: &Filter,
    comments: &Comments,
    revision: &[u8],
) -> (r: Vec<u8>)
    ensures
        r@ == normalize_spec(
            parent@,
            text@,
            match lib_path {
                Some(lp) => Some(lp@),
                None => None,
            },
            filter_v(filters@),
            crate::util::concat_map(
                crate::comments::for_rev(comments@.revisioned, revision@),
                |rv: crate::comments::RevisionedV| rv.normalize_stderr,
            ),
        ),
{
    let t0 = match lib_path {
        Some(lp) => {
            let rustlib = rustlib_literal();
            replace_all_exact(text, lp.as_slice(), rustlib.as_slice())
        },
        None => {
            let copy = subvec(text, 0, text.len());
            proof {
                assert(copy@ =~= text@);
            }
            copy
        },
    };
    let t1 = run_filters(t0, filters);
    let dir_needle = Match::from_path(parent);
    let dir_token = dir_token_literal();
    let t2 = dir_needle.replace_all(t1.as_slice(), dir_token.as_slice());
    let revs = comments.for_revision(revision);
    let rev_filters = collect_normalize_filters(&revs);
    run_filters(t2, &rev_filters)
}

/// Replacing a needle that does not occur changes nothing.
pub proof fn lemma_replace_absent(t: Seq<u8>, needle: Seq<u8>, repl: Seq<u8>)
    requires
        !crate::util::contains_seq(t, needle),
    ensures
        replace_all_spec(t, needle, repl) == t,
    decreases t.len(),
{
    if needle.len() == 0 || t.len() < needle.len() {
    } else {
        if t.take(needle.len() as int) == needle {
            assert(crate::util::occurs_at(t, needle, 0));
            assert(false);
        }
        assert forall|i: int| !crate::util::occurs_at(t.skip(1), needle, i) by {
            if crate::util::occurs_at(t.skip(1), needle, i) {
                assert(t.subrange(i + 1, i + 1 + needle.len() as int) =~= t.skip(1).subrange(
                    i,
                    i + needle.len() as int,
                ));
                assert(crate::util::occurs_at(t, needle, i + 1));
            }
        }
        lemma_replace_absent(t.skip(1), needle, repl);
        assert(seq![t[0]] + t.skip(1) =~= t);
    }
}

/// A text that no exact filter of the list can change any more is a fixed
/// point of the whole list.
pub proof fn lemma_filters_fixed_point(t: Seq<u8>, fs: Seq<(MatchV, Seq<u8>)>)
    requires
        forall|k: int|
            0 <= k < fs.len() ==> (#[trigger] fs[k].0) is Exact && !crate::util::contains_seq(
                t,
                fs[k].0->Exact_0,
            ),
    ensures
        apply_filters(t, fs) == t,
    decreases fs.len(),
{
    if fs.len() > 0 {
        assert(fs[0].0 is Exact && !crate::util::contains_seq(t, fs[0].0->Exact_0));
        lemma_replace_absent(t, fs[0].0->Exact_0, fs[0].1);
        assert(match_replace(fs[0].0, t, fs[0].1) == t);
        assert forall|k: int|
            0 <= k < fs.drop_first().len() implies (#[trigger] fs.drop_first()[k].0) is Exact
            && !crate::util::contains_seq(t, fs.drop_first()[k].0->Exact_0) by {
            assert(fs.drop_first()[k] == fs[k + 1]);
        }
        lemma_filters_fixed_point(t, fs.drop_first());
    }
}

/// Filter idempotence: normalizing twice is normalizing once, for a list of
/// exact filters none of whose needles occurs in the once-normalized text.
///
/// The restriction is real: a replacement can re-create a needle at the seam
/// of two replaced spans, and then a second pass replaces it again.
pub proof fn lemma_filters_idempotent(text: Seq<u8>, fs: Seq<(MatchV, Seq<u8>)>)
    requires
        forall|k: int|
            0 <= k < fs.len() ==> (#[trigger] fs[k].0) is Exact && !crate::util::contains_seq(
                apply_filters(text, fs),
                fs[k].0->Exact_0,
            ),
    ensures
        apply_filters(apply_filters(text, fs), fs) == apply_filters(text, fs),
{
    lemma_filters_fixed_point(apply_filters(text, fs), fs);
}

} // verus!
