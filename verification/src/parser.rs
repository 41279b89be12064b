//! The annotation parser: reads a source file line by line and builds the
//! `Comments` tree from `//@` directives and `//~` inline expectations.
//!
//! Parsing is defensive: a malformed comment becomes an `InvalidComment`
//! with its line, and parsing continues. The result is checked against the
//! data model's invariant — every line-anchored expectation points at a real
//! source line — before it is handed out, so the contract guarantees that
//! invariant to every caller.

use vstd::prelude::*;

use crate::comments::{Comments, CommentsV, Revisioned, RevisionedV, empty_revisioned};
use crate::data::{
    Condition, ErrorMatch, ErrorMatchV, Error, ErrorV, Level, Match, MatchV, Mode, Pattern,
    PatternV, errors_v,
};
use crate::rx::RegexPattern;
use crate::util::{
    bytes_eq, clone_bytes, find_first, first_occurrence, is_ws, occurs_at, skip_ws, split_ws,
    starts_with, subvec, token_end_at, tokens_from, trim, trim_of, views_of, ws_end,
};
use crate::words::{
    b_at_prefix, b_aux_build, b_bits16, b_bits32, b_bits64, b_build_pass, b_check_pass,
    b_compile_flags, b_crate_type_eq, b_edition, b_env_var, b_error, b_error_pattern, b_fail,
    b_help, b_host, b_ico, b_ignore_dash, b_lib, b_msg_anchor_out_of_range, b_msg_bad_env,
    b_msg_bad_level, b_msg_bad_normalize, b_msg_bad_regex, b_msg_empty_directive,
    b_msg_missing_pattern, b_msg_multiple_modes, b_msg_no_previous_anchor,
    b_msg_aux_missing_name, b_msg_edition_twice, b_msg_require_level_twice,
    b_msg_revisions_twice, b_msg_unclosed_revision, b_msg_unknown_directive,
    b_needs_asm_support, b_normalize_stderr_test, b_note, b_on_host, b_only_dash, b_panic,
    b_require_annotations_for_level, b_revisions, b_run_pass, b_run_rustfix, b_rustc_env,
    b_stderr_per_bitwidth, b_tilde_prefix, b_warn, b_yolo, w_arrow, w_at_prefix, w_aux_build,
    w_build_pass, w_check_pass, w_compile_flags, w_crate_type_eq, w_edition, w_env_var,
    w_error_pattern, w_fail, w_ignore_dash, w_lib, w_msg_anchor_out_of_range, w_msg_bad_env,
    w_msg_bad_level, w_msg_bad_normalize, w_msg_bad_regex, w_msg_empty_directive,
    w_msg_missing_pattern, w_msg_multiple_modes, w_msg_no_previous_anchor,
    w_msg_aux_missing_name, w_msg_edition_twice, w_msg_require_level_twice,
    w_msg_revisions_twice, w_msg_unclosed_revision, w_msg_unknown_directive,
    w_needs_asm_support, w_normalize_stderr_test, w_only_dash, w_panic,
    w_require_annotations_for_level, w_revisions, w_run_pass, w_run_rustfix, w_rustc_env,
    w_stderr_per_bitwidth, w_tilde_prefix, w_yolo,
};

verus! {

/// A line with a trailing carriage return dropped.
pub open spec fn strip_cr(line: Seq<u8>) -> Seq<u8> {
    if line.len() > 0 && line.last() == 13 {
        line.drop_last()
    } else {
        line
    }
}

/// The lines of a file, from position `i` on, with `cur` the bytes of the
/// line being read and `acc` the lines already closed: each newline closes
/// a line (a carriage return before it is dropped), and trailing bytes form
/// a last line.
pub open spec fn lines_from(s: Seq<u8>, i: int, cur: Seq<u8>, acc: Seq<Seq<u8>>) -> Seq<Seq<u8>>
    decreases s.len() - i when 0 <= i <= s.len()
{
    if i >= s.len() {
        if cur.len() > 0 {
            acc.push(cur)
        } else {
            acc
        }
    } else if s[i] == 10 {
        lines_from(s, i + 1, Seq::empty(), acc.push(strip_cr(cur)))
    } else {
        lines_from(s, i + 1, cur.push(s[i]), acc)
    }
}

/// The lines of a file.
pub open spec fn lines_spec(s: Seq<u8>) -> Seq<Seq<u8>> {
    lines_from(s, 0, Seq::empty(), Seq::empty())
}

/// Split a file into its lines, as `lines_spec` says.
pub fn split_lines(content: &[u8]) -> (r: Vec<Vec<u8>>)
    ensures
        views_of(r@) == lines_spec(content@),
{
    let mut lines: Vec<Vec<u8>> = Vec::new();
    let mut cur: Vec<u8> = Vec::new();
    let mut i: usize = 0;
    proof {
        assert(views_of(lines@) =~= Seq::<Seq<u8>>::empty());
        assert(cur@ =~= Seq::<u8>::empty());
    }
    while i < content.len()
        invariant
            i <= content@.len(),
            lines_from(content@, i as int, cur@, views_of(lines@)) == lines_spec(content@),
        decreases content@.len() - i,
    {
        let ghost cur0 = cur@;
        let ghost acc0 = views_of(lines@);
        let b = content[i];
        if b == 10 {
            if cur.len() > 0 && cur[cur.len() - 1] == 13 {
                let _ = cur.pop();
            }
            proof {
                assert(cur@ == strip_cr(cur0));
            }
            lines.push(cur);
            cur = Vec::new();
            proof {
                assert(views_of(lines@) =~= acc0.push(strip_cr(cur0)));
                assert(cur@ =~= Seq::<u8>::empty());
            }
        } else {
            cur.push(b);
        }
        i += 1;
    }
    if cur.len() > 0 {
        let ghost acc0 = views_of(lines@);
        let ghost cur0 = cur@;
        lines.push(cur);
        proof {
            assert(views_of(lines@) =~= acc0.push(cur0));
        }
    }
    lines
}

/// The data-model invariant of a parsed tree: every line-anchored
/// expectation names a source line of the file, and so does the line it was
/// defined on.
pub open spec fn comments_wf(c: crate::comments::CommentsV, line_count: int) -> bool {
    forall|i: int, j: int|
        0 <= i < c.revisioned.len() && 0 <= j < c.revisioned[i].1.error_matches.len() ==> {
            let em = #[trigger] c.revisioned[i].1.error_matches[j];
            1 <= em.line <= line_count && 1 <= em.definition_line <= line_count
        }
}

/// Check the data-model invariant at run time.
pub fn comments_well_formed(c: &Comments, line_count: usize) -> (r: bool)
    ensures
        r == comments_wf(c@, line_count as int),
{
    let mut i: usize = 0;
    while i < c.revisioned.len()
        invariant
            i <= c.revisioned@.len(),
            c@.revisioned.len() == c.revisioned@.len(),
            forall|a: int, j: int|
                0 <= a < i && 0 <= j < c@.revisioned[a].1.error_matches.len() ==> {
                    let em = #[trigger] c@.revisioned[a].1.error_matches[j];
                    1 <= em.line <= line_count as int && 1 <= em.definition_line
                        <= line_count as int
                },
        decreases c.revisioned@.len() - i,
    {
        let ems = &c.revisioned[i].1.error_matches;
        proof {
            assert(c@.revisioned[i as int].1 == c.revisioned@[i as int].1@);
        }
        let mut j: usize = 0;
        while j < ems.len()
            invariant
                j <= ems@.len(),
                i < c.revisioned@.len(),
                c@.revisioned.len() == c.revisioned@.len(),
                ems == &c.revisioned@[i as int].1.error_matches,
                c@.revisioned[i as int].1.error_matches == crate::comments::ems_v(ems@),
                forall|k: int|
                    0 <= k < j ==> {
                        let em = #[trigger] c@.revisioned[i as int].1.error_matches[k];
                        1 <= em.line <= line_count as int && 1 <= em.definition_line
                            <= line_count as int
                    },
            decreases ems@.len() - j,
        {
            let em = &ems[j];
            proof {
                assert(c@.revisioned[i as int].1.error_matches[j as int] == ems@[j as int]@);
            }
            if !(1 <= em.line && em.line <= line_count && 1 <= em.definition_line
                && em.definition_line <= line_count) {
                return false;
            }
            j += 1;
        }
        i += 1;
    }
    true
}

/// Lower-case image of a byte: ASCII letters fold, the rest stay.
pub open spec fn lower_byte(b: u8) -> u8 {
    if 65 <= b <= 90 {
        (b + 32) as u8
    } else {
        b
    }
}

/// Lower-case image of a byte string.
pub open spec fn lower_of(s: Seq<u8>) -> Seq<u8> {
    s.map_values(|b: u8| lower_byte(b))
}

/// Case-insensitive byte-string equality.
pub fn eq_ignore_case(a: &[u8], b: &[u8]) -> (r: bool)
    ensures
        r == (lower_of(a@) == lower_of(b@)),
{
    if a.len() != b.len() {
        proof {
            assert(lower_of(a@).len() != lower_of(b@).len());
        }
        return false;
    }
    let mut i: usize = 0;
    while i < a.len()
        invariant
            i <= a@.len(),
            a@.len() == b@.len(),
            forall|k: int| 0 <= k < i ==> lower_of(a@)[k] == lower_of(b@)[k],
        decreases a@.len() - i,
    {
        let ab = a[i];
        let bb = b[i];
        let la: u8 = if 65 <= ab && ab <= 90 {
            ab + 32
        } else {
            ab
        };
        let lb: u8 = if 65 <= bb && bb <= 90 {
            bb + 32
        } else {
            bb
        };
        if la != lb {
            proof {
                assert(lower_of(a@)[i as int] != lower_of(b@)[i as int]);
            }
            return false;
        }
        i += 1;
    }
    proof {
        assert(lower_of(a@) =~= lower_of(b@));
    }
    true
}

/// The level a token names, read case-insensitively.
pub open spec fn level_from(s: Seq<u8>) -> Option<Level> {
    if lower_of(s) == crate::words::w_error() {
        Some(Level::Error)
    } else if lower_of(s) == crate::words::w_warn() {
        Some(Level::Warn)
    } else if lower_of(s) == crate::words::w_help() {
        Some(Level::Help)
    } else if lower_of(s) == crate::words::w_note() {
        Some(Level::Note)
    } else if lower_of(s) == crate::words::w_ico() {
        Some(Level::Ico)
    } else {
        None
    }
}

/// Read a level token.
pub fn parse_level(tok: &[u8]) -> (r: Option<Level>)
    ensures
        r == level_from(tok@),
{
    proof {
        assert(lower_of(crate::words::w_error()) =~= crate::words::w_error());
        assert(lower_of(crate::words::w_warn()) =~= crate::words::w_warn());
        assert(lower_of(crate::words::w_help()) =~= crate::words::w_help());
        assert(lower_of(crate::words::w_note()) =~= crate::words::w_note());
        assert(lower_of(crate::words::w_ico()) =~= crate::words::w_ico());
    }
    if eq_ignore_case(tok, b_error().as_slice()) {
        Some(Level::Error)
    } else if eq_ignore_case(tok, b_warn().as_slice()) {
        Some(Level::Warn)
    } else if eq_ignore_case(tok, b_help().as_slice()) {
        Some(Level::Help)
    } else if eq_ignore_case(tok, b_note().as_slice()) {
        Some(Level::Note)
    } else if eq_ignore_case(tok, b_ico().as_slice()) {
        Some(Level::Ico)
    } else {
        None
    }
}

/// The condition a name stands for: a pointer width, the host itself, a
/// host-triple substring, or a target-triple substring.
pub open spec fn condition_from(s: Seq<u8>) -> crate::data::ConditionV {
    if s == crate::words::w_bits16() {
        crate::data::ConditionV::Bitwidth(16)
    } else if s == crate::words::w_bits32() {
        crate::data::ConditionV::Bitwidth(32)
    } else if s == crate::words::w_bits64() {
        crate::data::ConditionV::Bitwidth(64)
    } else if s == crate::words::w_on_host() {
        crate::data::ConditionV::OnHost
    } else if s.len() > 5 && s.take(5) == crate::words::w_host() + seq![45u8] {
        crate::data::ConditionV::Host(s.skip(5))
    } else {
        crate::data::ConditionV::Target(s)
    }
}

/// Read a condition name.
pub fn parse_condition(s: &[u8]) -> (r: Condition)
    ensures
        r@ == condition_from(s@),
{
    let mut host_dash = b_host();
    host_dash.push(45);
    proof {
        assert(host_dash@ =~= crate::words::w_host() + seq![45u8]);
    }
    if bytes_eq(s, b_bits16().as_slice()) {
        Condition::Bitwidth(16)
    } else if bytes_eq(s, b_bits32().as_slice()) {
        Condition::Bitwidth(32)
    } else if bytes_eq(s, b_bits64().as_slice()) {
        Condition::Bitwidth(64)
    } else if bytes_eq(s, b_on_host().as_slice()) {
        Condition::OnHost
    } else if s.len() > 5 && starts_with(s, host_dash.as_slice()) {
        let rest = subvec(s, 5, s.len());
        proof {
            assert(s@.subrange(0, 5) =~= s@.take(5));
            assert(rest@ =~= s@.skip(5));
        }
        Condition::Host(rest)
    } else {
        let copy = subvec(s, 0, s.len());
        proof {
            assert(copy@ =~= s@);
            if s@.len() > 5 {
                assert(s@.take(5) =~= s@.subrange(0, 5));
            }
        }
        Condition::Target(copy)
    }
}

/// Read a pattern: `/…/` is a regular expression, anything else a
/// substring. A regular expression that does not compile is refused.
pub fn parse_pattern(s: &[u8]) -> (r: Option<Pattern>)
    ensures
        match r {
            Some(p) => pattern_spec(s@) == Some(p@),
            None => pattern_spec(s@) is None,
        },
{
    if s.len() >= 2 && s[0] == 47 && s[s.len() - 1] == 47 {
        let inner = subvec(s, 1, s.len() - 1);
        match RegexPattern::new(inner) {
            Some(re) => Some(Pattern::Regex(re)),
            None => None,
        }
    } else {
        let copy = subvec(s, 0, s.len());
        proof {
            assert(copy@ =~= s@);
        }
        Some(Pattern::SubString(copy))
    }
}

/// What a pattern token denotes: `/…/` a regular expression (refused when
/// it does not compile), anything else a substring.
pub open spec fn pattern_spec(s: Seq<u8>) -> Option<PatternV> {
    if s.len() >= 2 && s[0] == 47 && s[s.len() - 1] == 47 {
        if crate::rx::regex_valid(s.subrange(1, s.len() - 1)) {
            Some(PatternV::Regex(s.subrange(1, s.len() - 1)))
        } else {
            None
        }
    } else {
        Some(PatternV::SubString(s))
    }
}

/// One malformed-comment finding.
pub open spec fn ic(msg: Seq<u8>, line: int) -> ErrorV {
    ErrorV::InvalidComment { msg, line }
}

/// Index of the record for a revision-set key; the length when absent.
pub open spec fn entry_index(entries: Seq<(Seq<Seq<u8>>, RevisionedV)>, key: Seq<Seq<u8>>) -> int
    decreases entries.len(),
{
    if entries.len() == 0 {
        0
    } else if entries[0].0 == key {
        0
    } else {
        1 + entry_index(entries.drop_first(), key)
    }
}

/// `entry_index` finds the first record with this key, or the length.
pub proof fn lemma_entry_index(entries: Seq<(Seq<Seq<u8>>, RevisionedV)>, key: Seq<Seq<u8>>)
    ensures
        0 <= entry_index(entries, key) <= entries.len(),
        entry_index(entries, key) < entries.len() ==> entries[entry_index(entries, key)].0 == key
            && forall|j: int|
            0 <= j < entry_index(entries, key) ==> (#[trigger] entries[j]).0 != key,
        entry_index(entries, key) == entries.len() ==> forall|j: int|
            0 <= j < entries.len() ==> (#[trigger] entries[j]).0 != key,
    decreases entries.len(),
{
    if entries.len() > 0 && entries[0].0 != key {
        lemma_entry_index(entries.drop_first(), key);
        assert(forall|j: int|
            1 <= j < entries.len() ==> #[trigger] entries[j] == entries.drop_first()[j - 1]);
    }
}

/// The record for a key, or the empty record when absent.
pub open spec fn record_at(entries: Seq<(Seq<Seq<u8>>, RevisionedV)>, key: Seq<Seq<u8>>)
    -> RevisionedV {
    let i = entry_index(entries, key);
    if i < entries.len() {
        entries[i].1
    } else {
        empty_revisioned()
    }
}

/// The tree with the record for `key` replaced, or added at the end.
pub open spec fn upsert(
    entries: Seq<(Seq<Seq<u8>>, RevisionedV)>,
    key: Seq<Seq<u8>>,
    rec: RevisionedV,
) -> Seq<(Seq<Seq<u8>>, RevisionedV)> {
    let i = entry_index(entries, key);
    if i < entries.len() {
        entries.update(i, (key, rec))
    } else {
        entries.push((key, rec))
    }
}

/// Removing the found (or freshly added) entry and putting the changed one
/// back in its place is exactly `upsert`.
proof fn lemma_upsert_via_update(
    entries0: Seq<(Seq<Seq<u8>>, RevisionedV)>,
    keyv: Seq<Seq<u8>>,
    rec2: RevisionedV,
    idx: int,
    t1: Seq<(Seq<Seq<u8>>, RevisionedV)>,
)
    requires
        idx == entry_index(entries0, keyv),
        t1 == (if idx < entries0.len() {
            entries0
        } else {
            entries0.push((keyv, empty_revisioned()))
        }),
        0 <= idx < t1.len(),
    ensures
        t1.remove(idx).insert(idx, (keyv, rec2)) == upsert(entries0, keyv, rec2),
{
    lemma_entry_index(entries0, keyv);
    if idx < entries0.len() {
        assert(t1.remove(idx).insert(idx, (keyv, rec2)) =~= entries0.update(idx, (keyv, rec2)));
    } else {
        assert(t1.remove(idx).insert(idx, (keyv, rec2)) =~= entries0.push((keyv, rec2)));
    }
}

/// A mode directive: the first override wins, a second one is reported.
pub open spec fn set_mode_step(rec: RevisionedV, m: Mode, line_no: int) -> (
    RevisionedV,
    Seq<ErrorV>,
) {
    if rec.mode is Some {
        (rec, seq![ic(w_msg_multiple_modes(), line_no)])
    } else {
        (RevisionedV { mode: Some((m, line_no)), ..rec }, Seq::empty())
    }
}

/// A bare-word directive applied to one record.
pub open spec fn flag_record_step(rec: RevisionedV, body: Seq<u8>, line_no: int) -> (
    RevisionedV,
    Seq<ErrorV>,
) {
    if body == w_needs_asm_support() {
        (RevisionedV { needs_asm_support: true, ..rec }, Seq::empty())
    } else if body == w_stderr_per_bitwidth() {
        (RevisionedV { stderr_per_bitwidth: true, ..rec }, Seq::empty())
    } else if body == w_run_rustfix() {
        (RevisionedV { run_rustfix: true, ..rec }, Seq::empty())
    } else if body == w_check_pass() || body == w_build_pass() || body == w_run_pass() {
        set_mode_step(rec, Mode::Pass, line_no)
    } else if body == w_panic() {
        set_mode_step(rec, Mode::Panic, line_no)
    } else if body == w_fail() {
        set_mode_step(rec, Mode::Fail { require_patterns: true }, line_no)
    } else if body == w_yolo() {
        set_mode_step(rec, Mode::Yolo, line_no)
    } else if occurs_at(body, w_ignore_dash(), 0) {
        (
            RevisionedV {
                ignore: rec.ignore.push(condition_from(body.skip(7))),
                ..rec
            },
            Seq::empty(),
        )
    } else if occurs_at(body, w_only_dash(), 0) {
        (
            RevisionedV { only: rec.only.push(condition_from(body.skip(5))), ..rec },
            Seq::empty(),
        )
    } else {
        (rec, seq![ic(w_msg_unknown_directive(), line_no)])
    }
}

/// The environment entries of a directive, token by token: each must be
/// `NAME=value` with a non-empty name.
pub open spec fn env_fold(rec: RevisionedV, toks: Seq<Seq<u8>>, k: int, line_no: int) -> (
    RevisionedV,
    Seq<ErrorV>,
)
    decreases toks.len() - k when 0 <= k <= toks.len()
{
    if k >= toks.len() {
        (rec, Seq::empty())
    } else {
        let t = toks[k];
        let e = first_occurrence(t, seq![61u8]);
        if e >= 1 {
            env_fold(
                RevisionedV { env_vars: rec.env_vars.push((t.take(e), t.skip(e + 1))), ..rec },
                toks,
                k + 1,
                line_no,
            )
        } else {
            let next = env_fold(rec, toks, k + 1, line_no);
            (next.0, seq![ic(w_msg_bad_env(), line_no)] + next.1)
        }
    }
}

/// The `"<from>" -> "<to>"` argument of a normalization directive applied
/// to one record.
pub open spec fn normalize_step(rec: RevisionedV, args: Seq<u8>, line_no: int) -> (
    RevisionedV,
    Seq<ErrorV>,
) {
    if !(args.len() >= 1 && args[0] == 34) {
        (rec, seq![ic(w_msg_bad_normalize(), line_no)])
    } else {
        let tail = args.skip(1);
        let q1 = first_occurrence(tail, seq![34u8]);
        if q1 < 0 {
            (rec, seq![ic(w_msg_bad_normalize(), line_no)])
        } else {
            let from_pat = tail.take(q1);
            let after = trim_of(tail.subrange(q1 + 1, tail.len() as int));
            if !occurs_at(after, w_arrow(), 0) {
                (rec, seq![ic(w_msg_bad_normalize(), line_no)])
            } else {
                let to_part = trim_of(after.subrange(2, after.len() as int));
                if !(to_part.len() >= 2 && to_part[0] == 34 && to_part[to_part.len() - 1] == 34) {
                    (rec, seq![ic(w_msg_bad_normalize(), line_no)])
                } else {
                    let to = to_part.subrange(1, to_part.len() - 1);
                    if crate::rx::regex_valid(from_pat) {
                        (
                            RevisionedV {
                                normalize_stderr: rec.normalize_stderr.push(
                                    (MatchV::Regex(from_pat), to),
                                ),
                                ..rec
                            },
                            Seq::empty(),
                        )
                    } else {
                        (rec, seq![ic(w_msg_bad_regex(), line_no)])
                    }
                }
            }
        }
    }
}

/// An auxiliary-build directive applied to one record: a file name with an
/// optional crate kind, `lib` by default.
pub open spec fn aux_step(rec: RevisionedV, toks: Seq<Seq<u8>>, line_no: int) -> (
    RevisionedV,
    Seq<ErrorV>,
) {
    if toks.len() == 0 {
        (rec, seq![ic(w_msg_aux_missing_name(), line_no)])
    } else {
        let kind = if toks.len() >= 2 && occurs_at(toks[1], w_crate_type_eq(), 0) {
            toks[1].subrange(w_crate_type_eq().len() as int, toks[1].len() as int)
        } else {
            w_lib()
        };
        (RevisionedV { aux_builds: rec.aux_builds.push((toks[0], kind)), ..rec }, Seq::empty())
    }
}

/// A `name: arguments` directive applied to one record.
pub open spec fn valued_record_step(
    rec: RevisionedV,
    name: Seq<u8>,
    args: Seq<u8>,
    line_no: int,
) -> (RevisionedV, Seq<ErrorV>) {
    if name == w_compile_flags() {
        (
            RevisionedV { compile_flags: rec.compile_flags + tokens_from(args, 0), ..rec },
            Seq::empty(),
        )
    } else if name == w_rustc_env() || name == w_env_var() {
        env_fold(rec, tokens_from(args, 0), 0, line_no)
    } else if name == w_normalize_stderr_test() {
        normalize_step(rec, args, line_no)
    } else if name == w_error_pattern() {
        match pattern_spec(args) {
            Some(p) => (
                RevisionedV { error_patterns: rec.error_patterns.push((p, line_no)), ..rec },
                Seq::empty(),
            ),
            None => (rec, seq![ic(w_msg_bad_regex(), line_no)]),
        }
    } else if name == w_require_annotations_for_level() {
        match level_from(args) {
            Some(l) => if rec.require_annotations_for_level is Some {
                (rec, seq![ic(w_msg_require_level_twice(), line_no)])
            } else {
                (RevisionedV { require_annotations_for_level: Some(l), ..rec }, Seq::empty())
            },
            None => (rec, seq![ic(w_msg_bad_level(), line_no)]),
        }
    } else if name == w_aux_build() {
        aux_step(rec, tokens_from(args, 0), line_no)
    } else if name == w_edition() {
        if rec.edition is Some {
            (rec, seq![ic(w_msg_edition_twice(), line_no)])
        } else {
            (RevisionedV { edition: Some((args, line_no)), ..rec }, Seq::empty())
        }
    } else {
        (rec, seq![ic(w_msg_unknown_directive(), line_no)])
    }
}

/// A `name: arguments` directive applied to the tree.
pub open spec fn valued_directive_spec(
    c: CommentsV,
    name: Seq<u8>,
    args: Seq<u8>,
    key: Seq<Seq<u8>>,
    line_no: int,
) -> (CommentsV, Seq<ErrorV>) {
    if name == w_revisions() {
        if c.revisions is Some {
            (c, seq![ic(w_msg_revisions_twice(), line_no)])
        } else {
            (
                CommentsV { revisions: Some(tokens_from(args, 0)), revisioned: c.revisioned },
                Seq::empty(),
            )
        }
    } else {
        let st = valued_record_step(record_at(c.revisioned, key), name, args, line_no);
        (CommentsV { revisions: c.revisions, revisioned: upsert(c.revisioned, key, st.0) }, st.1)
    }
}

/// A bare-word directive applied to the tree.
pub open spec fn flag_directive_spec(
    c: CommentsV,
    body: Seq<u8>,
    key: Seq<Seq<u8>>,
    line_no: int,
) -> (CommentsV, Seq<ErrorV>) {
    let st = flag_record_step(record_at(c.revisioned, key), body, line_no);
    (CommentsV { revisions: c.revisions, revisioned: upsert(c.revisioned, key, st.0) }, st.1)
}

/// The directive body after the revision scope: empty is refused, a colon
/// splits name and arguments, a bare word is a flag.
pub open spec fn body_step(c: CommentsV, body: Seq<u8>, key: Seq<Seq<u8>>, line_no: int) -> (
    CommentsV,
    Seq<ErrorV>,
) {
    if body.len() == 0 {
        (c, seq![ic(w_msg_empty_directive(), line_no)])
    } else {
        let ci = first_occurrence(body, seq![58u8]);
        if ci >= 0 {
            valued_directive_spec(
                c,
                trim_of(body.take(ci)),
                trim_of(body.subrange(ci + 1, body.len() as int)),
                key,
                line_no,
            )
        } else {
            flag_directive_spec(c, body, key, line_no)
        }
    }
}

/// One whole directive: trimmed, with an optional `[rev]` scope in front.
pub open spec fn directive_step(c: CommentsV, raw: Seq<u8>, line_no: int) -> (
    CommentsV,
    Seq<ErrorV>,
) {
    let rest = trim_of(raw);
    if rest.len() > 0 && rest[0] == 91 {
        let cl = first_occurrence(rest, seq![93u8]);
        if cl < 1 {
            (c, seq![ic(w_msg_unclosed_revision(), line_no)])
        } else {
            let namek = trim_of(rest.subrange(1, cl));
            let key: Seq<Seq<u8>> = if namek.len() > 0 {
                seq![namek]
            } else {
                Seq::empty()
            };
            body_step(c, trim_of(rest.subrange(cl + 1, rest.len() as int)), key, line_no)
        }
    } else {
        body_step(c, rest, Seq::empty(), line_no)
    }
}

/// Index of the first byte at or after `from` that is not a caret.
pub open spec fn caret_end(s: Seq<u8>, from: int) -> int
    decreases s.len() - from when 0 <= from <= s.len()
{
    if from >= s.len() {
        from
    } else if s[from] == 94 {
        caret_end(s, from + 1)
    } else {
        from
    }
}

/// The level token and pattern of an inline expectation, anchored to
/// `target`, applied to the tree.
pub open spec fn inline_pattern_part(
    c: CommentsV,
    line: Seq<u8>,
    q: int,
    line_no: int,
    target: int,
    anchor: Option<int>,
) -> (CommentsV, Seq<ErrorV>, Option<int>) {
    let q2 = ws_end(line, q);
    let te = token_end_at(line, q2);
    let lvl_ps: (Level, int) = match level_from(line.subrange(q2, te)) {
        Some(l) => (l, ws_end(line, te)),
        None => (Level::Error, q2),
    };
    let text = trim_of(line.subrange(lvl_ps.1, line.len() as int));
    if text.len() == 0 {
        (c, seq![ic(w_msg_missing_pattern(), line_no)], anchor)
    } else {
        match pattern_spec(text) {
            Some(p) => {
                let rec = record_at(c.revisioned, Seq::empty());
                let rec2 = RevisionedV {
                    error_matches: rec.error_matches.push(
                        ErrorMatchV {
                            pattern: p,
                            definition_line: line_no,
                            line: target,
                            level: lvl_ps.0,
                        },
                    ),
                    ..rec
                };
                (
                    CommentsV {
                        revisions: c.revisions,
                        revisioned: upsert(c.revisioned, Seq::empty(), rec2),
                    },
                    Seq::empty(),
                    Some(target),
                )
            },
            None => (c, seq![ic(w_msg_bad_regex(), line_no)], anchor),
        }
    }
}

/// One inline expectation: carets anchor upward, `|` reuses the previous
/// anchor, the level defaults to `Error`.
pub open spec fn inline_step(
    c: CommentsV,
    line: Seq<u8>,
    p: int,
    line_no: int,
    anchor: Option<int>,
) -> (CommentsV, Seq<ErrorV>, Option<int>) {
    let q0 = p + 3;
    let ce = caret_end(line, q0);
    let carets = ce - q0;
    if carets == 0 && ce < line.len() && line[ce] == 124 {
        match anchor {
            Some(a) => inline_pattern_part(c, line, ce + 1, line_no, a, anchor),
            None => (c, seq![ic(w_msg_no_previous_anchor(), line_no)], anchor),
        }
    } else if carets >= line_no {
        (c, seq![ic(w_msg_anchor_out_of_range(), line_no)], anchor)
    } else {
        inline_pattern_part(c, line, ce, line_no, line_no - carets, anchor)
    }
}

/// The anchor as a mathematical value.
pub open spec fn anchor_v(a: Option<usize>) -> Option<int> {
    match a {
        Some(x) => Some(x as int),
        None => None,
    }
}

/// The whole parse, line by line from line `k + 1` on, threading the tree,
/// the findings and the anchor.
pub open spec fn parse_lines(
    lines: Seq<Seq<u8>>,
    k: int,
    c: CommentsV,
    errs: Seq<ErrorV>,
    anchor: Option<int>,
) -> (CommentsV, Seq<ErrorV>)
    decreases lines.len() - k when 0 <= k <= lines.len()
{
    if k >= lines.len() {
        (c, errs)
    } else {
        let line = lines[k];
        let line_no = k + 1;
        let start = ws_end(line, 0);
        if line.len() >= 3 && start <= line.len() - 3 && occurs_at(line, w_at_prefix(), start) {
            let st = directive_step(c, line.subrange(start + 3, line.len() as int), line_no);
            parse_lines(lines, k + 1, st.0, errs + st.1, anchor)
        } else {
            let p = first_occurrence(line, w_tilde_prefix());
            if p >= 0 {
                let st = inline_step(c, line, p, line_no, anchor);
                parse_lines(lines, k + 1, st.0, errs + st.1, st.2)
            } else {
                parse_lines(lines, k + 1, c, errs, anchor)
            }
        }
    }
}

/// The tree and the findings of a whole file.
pub open spec fn parse_spec(content: Seq<u8>) -> (CommentsV, Seq<ErrorV>) {
    parse_lines(
        lines_spec(content),
        0,
        CommentsV { revisions: None, revisioned: Seq::empty() },
        Seq::empty(),
        None,
    )
}

/// Compare two revision-set keys.
fn keys_equal(a: &Vec<Vec<u8>>, b: &Vec<Vec<u8>>) -> (r: bool)
    ensures
        r == (views_of(a@) == views_of(b@)),
{
    if a.len() != b.len() {
        proof {
            assert(views_of(a@).len() != views_of(b@).len());
        }
        return false;
    }
    let mut i: usize = 0;
    while i < a.len()
        invariant
            i <= a@.len(),
            a@.len() == b@.len(),
            forall|k: int| 0 <= k < i ==> views_of(a@)[k] == views_of(b@)[k],
        decreases a@.len() - i,
    {
        if !bytes_eq(a[i].as_slice(), b[i].as_slice()) {
            proof {
                assert(views_of(a@)[i as int] != views_of(b@)[i as int]);
            }
            return false;
        }
        i += 1;
    }
    proof {
        assert(views_of(a@) =~= views_of(b@));
    }
    true
}

/// Index of the record for this revision-set key, adding an empty one when
/// none exists yet.
fn find_or_create(comments: &mut Comments, key: Vec<Vec<u8>>) -> (idx: usize)
    ensures
        ({
            let entries = old(comments)@.revisioned;
            let keyv = views_of(key@);
            &&& idx as int == entry_index(entries, keyv)
            &&& final(comments)@.revisioned == (if entry_index(entries, keyv) < entries.len() {
                entries
            } else {
                entries.push((keyv, empty_revisioned()))
            })
            &&& final(comments)@.revisions == old(comments)@.revisions
            &&& idx < final(comments).revisioned@.len()
            &&& final(comments)@.revisioned[idx as int] == (keyv, record_at(entries, keyv))
        }),
{
    let ghost entries = comments@.revisioned;
    let ghost keyv = views_of(key@);
    proof {
        lemma_entry_index(entries, keyv);
    }
    let mut i: usize = 0;
    while i < comments.revisioned.len()
        invariant
            i <= comments.revisioned@.len(),
            entries == comments@.revisioned,
            keyv == views_of(key@),
            entries.len() == comments.revisioned@.len(),
            forall|j: int| 0 <= j < i ==> (#[trigger] entries[j]).0 != keyv,
            0 <= entry_index(entries, keyv) <= entries.len(),
            entry_index(entries, keyv) < entries.len() ==> entries[entry_index(entries, keyv)].0
                == keyv && forall|j: int|
                0 <= j < entry_index(entries, keyv) ==> (#[trigger] entries[j]).0 != keyv,
            entry_index(entries, keyv) == entries.len() ==> forall|j: int|
                0 <= j < entries.len() ==> (#[trigger] entries[j]).0 != keyv,
        decreases comments.revisioned@.len() - i,
    {
        if keys_equal(&comments.revisioned[i].0, &key) {
            proof {
                assert(entries[i as int].0 == keyv);
                let ei = entry_index(entries, keyv);
                if ei < i {
                    assert(entries[ei].0 != keyv);
                }
                if ei > i {
                    assert(entries[i as int].0 != keyv);
                }
            }
            return i;
        }
        proof {
            assert(entries[i as int].0 != keyv);
        }
        i += 1;
    }
    proof {
        let ei = entry_index(entries, keyv);
        if ei < entries.len() {
            assert(entries[ei].0 != keyv);
        }
    }
    let ghost before = comments@.revisioned;
    comments.revisioned.push((key, Revisioned::empty()));
    proof {
        assert(comments@.revisioned =~= before.push((keyv, empty_revisioned())));
    }
    comments.revisioned.len() - 1
}

/// The token starting at `from`: its end index (the next space, tab or the
/// line's end).
fn token_end(s: &[u8], from: usize) -> (r: usize)
    requires
        from <= s@.len(),
    ensures
        from <= r <= s@.len(),
        r as int == token_end_at(s@, from as int),
{
    let mut e: usize = from;
    while e < s.len() && !crate::util::byte_is_ws(s[e])
        invariant
            from <= e <= s@.len(),
            token_end_at(s@, from as int) == token_end_at(s@, e as int),
        decreases s@.len() - e,
    {
        e += 1;
    }
    e
}

impl Comments {
    /// An empty tree: no revisions, no records.
    pub fn none() -> (r: Comments)
        ensures
            r@.revisions is None,
            r@.revisioned == Seq::<(Seq<Seq<u8>>, crate::comments::RevisionedV)>::empty(),
    {
        let r = Comments { revisions: None, revisioned: Vec::new() };
        proof {
            assert(r@.revisioned =~= Seq::<(Seq<Seq<u8>>, crate::comments::RevisionedV)>::empty());
        }
        r
    }

    /// Parse the annotations of one source file, exactly as `parse_spec`
    /// says: the directive and inline-expectation grammar applied line by
    /// line, each malformed comment an `InvalidComment` finding. When any
    /// finding was collected, the whole list comes back as the error. A
    /// returned tree satisfies the data-model invariant: every line-anchored
    /// expectation points at a source line of the file.
    pub fn parse(content: &[u8]) -> (r: Result<Comments, Vec<Error>>)
        ensures
            ({
                let pr = parse_spec(content@);
                let n = lines_spec(content@).len() as int;
                let full = if comments_wf(pr.0, n) {
                    pr.1
                } else {
                    pr.1.push(ic(w_msg_anchor_out_of_range(), 0))
                };
                match r {
                    Ok(c) => c@ == pr.0 && full.len() == 0 && comments_wf(c@, n),
                    Err(e) => errors_v(e@) == full && full.len() > 0,
                }
            }),
    {
        let lines = split_lines(content);
        let ghost linesv = lines_spec(content@);
        let line_count = lines.len();
        let mut comments = Comments::none();
        let mut errors: Vec<Error> = Vec::new();
        let mut last_anchor: Option<usize> = None;

        let at_prefix = b_at_prefix();
        let tilde = b_tilde_prefix();
        let mut li: usize = 0;
        proof {
            assert(errors_v(errors@) =~= Seq::<ErrorV>::empty());
            assert(parse_lines(linesv, 0, comments@, errors_v(errors@), anchor_v(last_anchor))
                == parse_spec(content@));
        }
        while li < lines.len()
            invariant
                li <= lines@.len(),
                linesv == lines_spec(content@),
                views_of(lines@) == linesv,
                linesv.len() == lines@.len(),
                lines@.len() <= usize::MAX,
                at_prefix@ == crate::words::w_at_prefix(),
                tilde@ == crate::words::w_tilde_prefix(),
                parse_lines(linesv, li as int, comments@, errors_v(errors@), anchor_v(last_anchor))
                    == parse_spec(content@),
            decreases lines@.len() - li,
        {
            let ghost c0 = comments@;
            let ghost e0 = errors_v(errors@);
            let ghost a0 = anchor_v(last_anchor);
            let line_no = li + 1;
            let line = lines[li].as_slice();
            proof {
                assert(linesv[li as int] == line@);
            }
            let ll: usize = line.len();
            let start = skip_ws(line, 0);
            let is_directive = ll >= 3 && start <= ll - 3 && crate::util::matches_at(
                line,
                at_prefix.as_slice(),
                start,
            );
            if is_directive {
                let body_raw = subvec(line, start + 3, line.len());
                proof {
                    assert(body_raw@ =~= line@.subrange(start + 3, line@.len() as int));
                }
                parse_directive(
                    body_raw.as_slice(),
                    line_no,
                    &mut comments,
                    &mut errors,
                );
                proof {
                    let st = directive_step(
                        c0,
                        linesv[li as int].subrange(start + 3, linesv[li as int].len() as int),
                        line_no as int,
                    );
                    assert(comments@ == st.0);
                    assert(errors_v(errors@) =~= e0 + st.1);
                }
            } else {
                match find_first(line, tilde.as_slice()) {
                    Some(p) => {
                        last_anchor = parse_inline(
                            line,
                            p,
                            line_no,
                            last_anchor,
                            &mut comments,
                            &mut errors,
                        );
                        proof {
                            let st = inline_step(
                                c0,
                                linesv[li as int],
                                p as int,
                                line_no as int,
                                a0,
                            );
                            assert(comments@ == st.0);
                            assert(errors_v(errors@) =~= e0 + st.1);
                            assert(anchor_v(last_anchor) == st.2);
                        }
                    },
                    None => {},
                }
            }
            li += 1;
        }
        proof {
            assert((comments@, errors_v(errors@)) == parse_spec(content@));
        }

        if !comments_well_formed(&comments, line_count) {
            let ghost epre = errors_v(errors@);
            errors.push(
                Error::InvalidComment { msg: b_msg_anchor_out_of_range(), line: 0 },
            );
            proof {
                assert(errors_v(errors@) =~= epre.push(ic(w_msg_anchor_out_of_range(), 0)));
            }
        }
        if errors.len() == 0 {
            proof {
                assert(errors_v(errors@).len() == 0);
                assert(comments_wf(comments@, lines_spec(content@).len() as int));
            }
            Ok(comments)
        } else {
            proof {
                assert(errors_v(errors@).len() > 0);
            }
            Err(errors)
        }
    }
}

/// Parse one `//@` directive body (everything after the marker), exactly as
/// `directive_step` says.
fn parse_directive(
    body_raw: &[u8],
    line_no: usize,
    comments: &mut Comments,
    errors: &mut Vec<Error>,
)
    ensures
        ({
            let st = directive_step(old(comments)@, body_raw@, line_no as int);
            &&& final(comments)@ == st.0
            &&& errors_v(final(errors)@) == errors_v(old(errors)@) + st.1
        }),
{
    let rest = trim(body_raw);
    let mut key: Vec<Vec<u8>> = Vec::new();
    let mut body: Vec<u8>;
    let ghost mut keyv: Seq<Seq<u8>> = Seq::empty();
    proof {
        assert(views_of(key@) =~= keyv);
    }
    if rest.len() > 0 && rest[0] == 91 {
        let mut closer: Vec<u8> = Vec::new();
        closer.push(93);
        proof {
            assert(closer@ =~= seq![93u8]);
        }
        match find_first(rest.as_slice(), closer.as_slice()) {
            Some(cl) => {
                if cl < 1 {
                    let ghost epre = errors_v(errors@);
                    errors.push(
                        Error::InvalidComment { msg: b_msg_unclosed_revision(), line: line_no },
                    );
                    proof {
                        assert(errors_v(errors@) =~= epre + seq![
                            ic(w_msg_unclosed_revision(), line_no as int),
                        ]);
                    }
                    return ;
                }
                let name = trim(subvec(rest.as_slice(), 1, cl).as_slice());
                proof {
                    assert(name@ == trim_of(rest@.subrange(1, cl as int)));
                }
                if name.len() > 0 {
                    let ghost namev = name@;
                    key.push(name);
                    proof {
                        keyv = seq![namev];
                        assert(views_of(key@) =~= keyv);
                    }
                }
                body = trim(subvec(rest.as_slice(), cl + 1, rest.len()).as_slice());
                proof {
                    assert(body@ == trim_of(rest@.subrange(cl + 1, rest@.len() as int)));
                }
            },
            None => {
                let ghost epre = errors_v(errors@);
                errors.push(
                    Error::InvalidComment { msg: b_msg_unclosed_revision(), line: line_no },
                );
                proof {
                    assert(errors_v(errors@) =~= epre + seq![
                        ic(w_msg_unclosed_revision(), line_no as int),
                    ]);
                    assert(first_occurrence(rest@, seq![93u8]) == -1);
                }
                return ;
            },
        }
    } else {
        body = rest;
    }
    if body.len() == 0 {
        let ghost epre = errors_v(errors@);
        errors.push(Error::InvalidComment { msg: b_msg_empty_directive(), line: line_no });
        proof {
            assert(errors_v(errors@) =~= epre + seq![ic(w_msg_empty_directive(), line_no as int)]);
        }
        return ;
    }

    let mut colon: Vec<u8> = Vec::new();
    colon.push(58);
    proof {
        assert(colon@ =~= seq![58u8]);
    }
    match find_first(body.as_slice(), colon.as_slice()) {
        Some(ci) => {
            let name = trim(subvec(body.as_slice(), 0, ci).as_slice());
            let args = trim(subvec(body.as_slice(), ci + 1, body.len()).as_slice());
            proof {
                assert(body@.subrange(0, ci as int) =~= body@.take(ci as int));
                assert(name@ == trim_of(body@.take(ci as int)));
                assert(args@ == trim_of(body@.subrange(ci + 1, body@.len() as int)));
            }
            parse_valued_directive(
                name.as_slice(),
                args.as_slice(),
                key,
                line_no,
                comments,
                errors,
            );
        },
        None => {
            parse_flag_directive(body.as_slice(), key, line_no, comments, errors);
        },
    }
}


/// Parse a directive of the shape `name: arguments`, exactly as
/// `valued_directive_spec` says.
#[verifier::rlimit(100)]
#[verifier::spinoff_prover]
fn parse_valued_directive(
    name: &[u8],
    args: &[u8],
    key: Vec<Vec<u8>>,
    line_no: usize,
    comments: &mut Comments,
    errors: &mut Vec<Error>,
)
    ensures
        ({
            let st = valued_directive_spec(
                old(comments)@,
                name@,
                args@,
                views_of(key@),
                line_no as int,
            );
            &&& final(comments)@ == st.0
            &&& errors_v(final(errors)@) == errors_v(old(errors)@) + st.1
        }),
{
    let ghost c0 = old(comments)@;
    let ghost keyv = views_of(key@);
    let ghost e0 = errors_v(errors@);
    if bytes_eq(name, b_revisions().as_slice()) {
        if comments.revisions.is_some() {
            errors.push(Error::InvalidComment { msg: b_msg_revisions_twice(), line: line_no });
            proof {
                assert(errors_v(errors@) =~= e0 + seq![
                    ic(w_msg_revisions_twice(), line_no as int),
                ]);
            }
        } else {
            let toks = split_ws(args);
            proof {
                assert(views_of(toks@) == tokens_from(args@, 0));
            }
            comments.revisions = Some(toks);
            proof {
                assert(comments@ == (CommentsV {
                    revisions: Some(tokens_from(args@, 0)),
                    revisioned: c0.revisioned,
                }));
                assert(errors_v(errors@) =~= e0 + Seq::<ErrorV>::empty());
            }
        }
        return ;
    }
    let ghost rec0 = record_at(c0.revisioned, keyv);
    let idx = find_or_create(comments, key);
    let ghost t1 = comments@.revisioned;
    let mut entry = comments.revisioned.remove(idx);
    proof {
        assert(comments@.revisioned =~= t1.remove(idx as int));
        assert((views_of(entry.0@), entry.1@) == t1[idx as int]);
        assert(entry.1@ == rec0);
    }
    let ghost st = valued_record_step(rec0, name@, args@, line_no as int);
    if bytes_eq(name, b_compile_flags().as_slice()) {
        let mut toks = split_ws(args);
        proof {
            assert(views_of(toks@) == tokens_from(args@, 0));
        }
        let ghost cf0 = entry.1.compile_flags@;
        let ghost toks0 = toks@;
        entry.1.compile_flags.append(&mut toks);
        proof {
            assert(entry.1.compile_flags@ == cf0 + toks0);
            assert(views_of(cf0 + toks0) =~= views_of(cf0) + views_of(toks0));
            assert(entry.1@ == st.0);
            assert(errors_v(errors@) =~= e0 + st.1);
        }
    } else if bytes_eq(name, b_rustc_env().as_slice()) || bytes_eq(name, b_env_var().as_slice()) {
        let toks = split_ws(args);
        let ghost toksv = tokens_from(args@, 0);
        let ghost goal = env_fold(rec0, toksv, 0, line_no as int);
        let ghost mut eacc: Seq<ErrorV> = Seq::empty();
        let mut t: usize = 0;
        let mut eq_sign: Vec<u8> = Vec::new();
        eq_sign.push(61);
        proof {
            assert(eq_sign@ =~= seq![61u8]);
            assert(views_of(toks@) == toksv);
            assert(eacc + env_fold(entry.1@, toksv, 0, line_no as int).1 =~= goal.1);
            assert(errors_v(errors@) =~= e0 + eacc);
        }
        while t < toks.len()
            invariant
                t <= toks@.len(),
                views_of(toks@) == toksv,
                toksv.len() == toks@.len(),
                eq_sign@ == seq![61u8],
                line_no <= usize::MAX,
                views_of(entry.0@) == keyv,
                env_fold(entry.1@, toksv, t as int, line_no as int).0 == goal.0,
                eacc + env_fold(entry.1@, toksv, t as int, line_no as int).1 == goal.1,
                errors_v(errors@) == e0 + eacc,
            decreases toks@.len() - t,
        {
            let ghost tokv = toksv[t as int];
            let ghost rcur = entry.1@;
            proof {
                assert(toks@[t as int]@ == tokv);
            }
            let tok = toks[t].as_slice();
            let tl: usize = tok.len();
            match find_first(tok, eq_sign.as_slice()) {
                Some(e) => {
                    if e >= 1 && e < tl {
                        let k = subvec(tok, 0, e);
                        let v = subvec(tok, e + 1, tl);
                        proof {
                            assert(k@ =~= tokv.take(e as int));
                            assert(v@ =~= tokv.skip(e + 1));
                        }
                        let ghost ev0 = entry.1.env_vars@;
                        entry.1.env_vars.push((k, v));
                        proof {
                            assert(crate::comments::pairs_v(entry.1.env_vars@)
                                =~= crate::comments::pairs_v(ev0).push(
                                (tokv.take(e as int), tokv.skip(e + 1)),
                            ));
                            assert(entry.1@ == (RevisionedV {
                                env_vars: rcur.env_vars.push(
                                    (tokv.take(e as int), tokv.skip(e + 1)),
                                ),
                                ..rcur
                            }));
                        }
                    } else {
                        let ghost epre = errors_v(errors@);
                        errors.push(
                            Error::InvalidComment { msg: b_msg_bad_env(), line: line_no },
                        );
                        proof {
                            assert(errors_v(errors@) =~= epre.push(
                                ic(w_msg_bad_env(), line_no as int),
                            ));
                            assert(eacc.push(ic(w_msg_bad_env(), line_no as int)) + env_fold(
                                rcur,
                                toksv,
                                t + 1,
                                line_no as int,
                            ).1 =~= eacc + (seq![ic(w_msg_bad_env(), line_no as int)] + env_fold(
                                rcur,
                                toksv,
                                t + 1,
                                line_no as int,
                            ).1));
                            eacc = eacc.push(ic(w_msg_bad_env(), line_no as int));
                        }
                    }
                },
                None => {
                    let ghost epre = errors_v(errors@);
                    errors.push(Error::InvalidComment { msg: b_msg_bad_env(), line: line_no });
                    proof {
                        assert(errors_v(errors@) =~= epre.push(
                            ic(w_msg_bad_env(), line_no as int),
                        ));
                        assert(eacc.push(ic(w_msg_bad_env(), line_no as int)) + env_fold(
                            rcur,
                            toksv,
                            t + 1,
                            line_no as int,
                        ).1 =~= eacc + (seq![ic(w_msg_bad_env(), line_no as int)] + env_fold(
                            rcur,
                            toksv,
                            t + 1,
                            line_no as int,
                        ).1));
                        eacc = eacc.push(ic(w_msg_bad_env(), line_no as int));
                    }
                },
            }
            t += 1;
        }
        proof {
            assert(env_fold(entry.1@, toksv, toksv.len() as int, line_no as int).0 == entry.1@);
            assert(env_fold(entry.1@, toksv, toksv.len() as int, line_no as int).1
                =~= Seq::<ErrorV>::empty());
            assert(eacc + Seq::<ErrorV>::empty() =~= eacc);
            assert(entry.1@ == st.0);
            assert(errors_v(errors@) =~= e0 + st.1);
        }
    } else if bytes_eq(name, b_normalize_stderr_test().as_slice()) {
        parse_normalize_args(args, line_no, &mut entry.1, errors);
        proof {
            assert(entry.1@ == st.0);
            assert(errors_v(errors@) =~= e0 + st.1);
        }
    } else if bytes_eq(name, b_error_pattern().as_slice()) {
        match parse_pattern(args) {
            Some(p) => {
                let ghost ep0 = entry.1.error_patterns@;
                let ghost pv = p@;
                entry.1.error_patterns.push((p, line_no));
                proof {
                    assert(crate::comments::pats_v(entry.1.error_patterns@)
                        =~= crate::comments::pats_v(ep0).push((pv, line_no as int)));
                    assert(entry.1@ == st.0);
                    assert(errors_v(errors@) =~= e0 + st.1);
                }
            },
            None => {
                let ghost epre = errors_v(errors@);
                errors.push(Error::InvalidComment { msg: b_msg_bad_regex(), line: line_no });
                proof {
                    assert(errors_v(errors@) =~= epre + seq![
                        ic(w_msg_bad_regex(), line_no as int),
                    ]);
                    assert(errors_v(errors@) =~= e0 + st.1);
                }
            },
        }
    } else if bytes_eq(name, b_require_annotations_for_level().as_slice()) {
        match parse_level(args) {
            Some(l) => {
                if entry.1.require_annotations_for_level.is_some() {
                    let ghost epre = errors_v(errors@);
                    errors.push(
                        Error::InvalidComment { msg: b_msg_require_level_twice(), line: line_no },
                    );
                    proof {
                        assert(errors_v(errors@) =~= epre + seq![
                            ic(w_msg_require_level_twice(), line_no as int),
                        ]);
                    }
                } else {
                    entry.1.require_annotations_for_level = Some(l);
                    proof {
                        assert(errors_v(errors@) =~= e0 + Seq::<ErrorV>::empty());
                    }
                }
                proof {
                    assert(entry.1@ == st.0);
                    assert(errors_v(errors@) =~= e0 + st.1);
                }
            },
            None => {
                let ghost epre = errors_v(errors@);
                errors.push(Error::InvalidComment { msg: b_msg_bad_level(), line: line_no });
                proof {
                    assert(errors_v(errors@) =~= epre + seq![
                        ic(w_msg_bad_level(), line_no as int),
                    ]);
                    assert(errors_v(errors@) =~= e0 + st.1);
                }
            },
        }
    } else if bytes_eq(name, b_aux_build().as_slice()) {
        let toks = split_ws(args);
        proof {
            assert(views_of(toks@) == tokens_from(args@, 0));
        }
        if toks.len() == 0 {
            let ghost epre = errors_v(errors@);
            errors.push(Error::InvalidComment { msg: b_msg_aux_missing_name(), line: line_no });
            proof {
                assert(errors_v(errors@) =~= epre + seq![
                    ic(w_msg_aux_missing_name(), line_no as int),
                ]);
                assert(errors_v(errors@) =~= e0 + st.1);
            }
        } else {
            let aux_name = clone_bytes(&toks[0]);
            let kind_prefix = b_crate_type_eq();
            let kind: Vec<u8> = if toks.len() >= 2 && starts_with(
                toks[1].as_slice(),
                kind_prefix.as_slice(),
            ) {
                let k = subvec(toks[1].as_slice(), kind_prefix.len(), toks[1].len());
                proof {
                    assert(k@ =~= views_of(toks@)[1].subrange(
                        w_crate_type_eq().len() as int,
                        views_of(toks@)[1].len() as int,
                    ));
                }
                k
            } else {
                b_lib()
            };
            let ghost ab0 = entry.1.aux_builds@;
            let ghost namev = aux_name@;
            let ghost kindv = kind@;
            entry.1.aux_builds.push((aux_name, kind));
            proof {
                assert(crate::comments::pairs_v(entry.1.aux_builds@)
                    =~= crate::comments::pairs_v(ab0).push((namev, kindv)));
                assert(entry.1@ == st.0);
                assert(errors_v(errors@) =~= e0 + st.1);
            }
        }
    } else if bytes_eq(name, b_edition().as_slice()) {
        if entry.1.edition.is_some() {
            let ghost epre = errors_v(errors@);
            errors.push(Error::InvalidComment { msg: b_msg_edition_twice(), line: line_no });
            proof {
                assert(errors_v(errors@) =~= epre + seq![
                    ic(w_msg_edition_twice(), line_no as int),
                ]);
            }
        } else {
            let ed = subvec(args, 0, args.len());
            proof {
                assert(ed@ =~= args@);
            }
            entry.1.edition = Some((ed, line_no));
            proof {
                assert(errors_v(errors@) =~= e0 + Seq::<ErrorV>::empty());
            }
        }
        proof {
            assert(entry.1@ == st.0);
            assert(errors_v(errors@) =~= e0 + st.1);
        }
    } else {
        let ghost epre = errors_v(errors@);
        errors.push(Error::InvalidComment { msg: b_msg_unknown_directive(), line: line_no });
        proof {
            assert(errors_v(errors@) =~= epre + seq![
                ic(w_msg_unknown_directive(), line_no as int),
            ]);
            assert(errors_v(errors@) =~= e0 + st.1);
        }
    }
    let ghost rec2 = entry.1@;
    comments.revisioned.insert(idx, entry);
    proof {
        assert(comments@.revisioned =~= t1.remove(idx as int).insert(
            idx as int,
            (keyv, rec2),
        ));
        lemma_upsert_via_update(c0.revisioned, keyv, rec2, idx as int, t1);
        assert(comments@ == (CommentsV {
            revisions: c0.revisions,
            revisioned: upsert(c0.revisioned, keyv, rec2),
        }));
    }
}

/// Parse the `"<from>" -> "<to>"` argument of a normalization directive,
/// exactly as `normalize_step` says.
fn parse_normalize_args(
    args: &[u8],
    line_no: usize,
    entry: &mut Revisioned,
    errors: &mut Vec<Error>,
)
    ensures
        ({
            let st = normalize_step(old(entry)@, args@, line_no as int);
            &&& final(entry)@ == st.0
            &&& errors_v(final(errors)@) == errors_v(old(errors)@) + st.1
        }),
{
    let ghost e0 = errors_v(errors@);
    let mut quote: Vec<u8> = Vec::new();
    quote.push(34);
    proof {
        assert(quote@ =~= seq![34u8]);
    }
    if !(args.len() >= 1 && args[0] == 34) {
        errors.push(Error::InvalidComment { msg: b_msg_bad_normalize(), line: line_no });
        proof {
            assert(errors_v(errors@) =~= e0 + seq![ic(w_msg_bad_normalize(), line_no as int)]);
        }
        return ;
    }
    let tail = subvec(args, 1, args.len());
    proof {
        assert(tail@ =~= args@.skip(1));
    }
    let q1 = match find_first(tail.as_slice(), quote.as_slice()) {
        Some(q) => q,
        None => {
            errors.push(Error::InvalidComment { msg: b_msg_bad_normalize(), line: line_no });
            proof {
                assert(errors_v(errors@) =~= e0 + seq![
                    ic(w_msg_bad_normalize(), line_no as int),
                ]);
            }
            return ;
        },
    };
    let from_pat = subvec(tail.as_slice(), 0, q1);
    proof {
        assert(from_pat@ =~= tail@.take(q1 as int));
    }
    let after = trim(subvec(tail.as_slice(), q1 + 1, tail.len()).as_slice());
    let arrow = crate::words::b_arrow();
    if !(after.len() >= 2 && crate::util::matches_at(after.as_slice(), arrow.as_slice(), 0)) {
        proof {
            assert(!occurs_at(after@, w_arrow(), 0));
        }
        errors.push(Error::InvalidComment { msg: b_msg_bad_normalize(), line: line_no });
        proof {
            assert(errors_v(errors@) =~= e0 + seq![ic(w_msg_bad_normalize(), line_no as int)]);
        }
        return ;
    }
    let to_part = trim(subvec(after.as_slice(), 2, after.len()).as_slice());
    if !(to_part.len() >= 2 && to_part[0] == 34 && to_part[to_part.len() - 1] == 34) {
        errors.push(Error::InvalidComment { msg: b_msg_bad_normalize(), line: line_no });
        proof {
            assert(errors_v(errors@) =~= e0 + seq![ic(w_msg_bad_normalize(), line_no as int)]);
        }
        return ;
    }
    let to = subvec(to_part.as_slice(), 1, to_part.len() - 1);
    match RegexPattern::new(from_pat) {
        Some(re) => {
            let ghost ns0 = entry.normalize_stderr@;
            let ghost rev = re@;
            let ghost tov = to@;
            entry.normalize_stderr.push((Match::Regex(re), to));
            proof {
                assert(crate::comments::filter_v(entry.normalize_stderr@)
                    =~= crate::comments::filter_v(ns0).push((MatchV::Regex(rev), tov)));
                assert(entry@ == normalize_step(old(entry)@, args@, line_no as int).0);
                assert(errors_v(errors@) =~= e0 + Seq::<ErrorV>::empty());
            }
        },
        None => {
            errors.push(Error::InvalidComment { msg: b_msg_bad_regex(), line: line_no });
            proof {
                assert(errors_v(errors@) =~= e0 + seq![ic(w_msg_bad_regex(), line_no as int)]);
            }
        },
    }
}

/// Parse a directive that is a bare word or a condition prefix, exactly as
/// `flag_directive_spec` says.
#[verifier::rlimit(100)]
#[verifier::spinoff_prover]
fn parse_flag_directive(
    body: &[u8],
    key: Vec<Vec<u8>>,
    line_no: usize,
    comments: &mut Comments,
    errors: &mut Vec<Error>,
)
    ensures
        ({
            let st = flag_directive_spec(old(comments)@, body@, views_of(key@), line_no as int);
            &&& final(comments)@ == st.0
            &&& errors_v(final(errors)@) == errors_v(old(errors)@) + st.1
        }),
{
    let ghost c0 = old(comments)@;
    let ghost keyv = views_of(key@);
    let ghost e0 = errors_v(errors@);
    let ghost rec0 = record_at(c0.revisioned, keyv);
    let ghost st = flag_record_step(rec0, body@, line_no as int);
    let idx = find_or_create(comments, key);
    let ghost t1 = comments@.revisioned;
    let mut entry = comments.revisioned.remove(idx);
    proof {
        assert(comments@.revisioned =~= t1.remove(idx as int));
        assert((views_of(entry.0@), entry.1@) == t1[idx as int]);
        assert(entry.1@ == rec0);
    }
    let mut mode: Option<Mode> = None;
    if bytes_eq(body, b_needs_asm_support().as_slice()) {
        entry.1.needs_asm_support = true;
    } else if bytes_eq(body, b_stderr_per_bitwidth().as_slice()) {
        entry.1.stderr_per_bitwidth = true;
    } else if bytes_eq(body, b_run_rustfix().as_slice()) {
        entry.1.run_rustfix = true;
    } else if bytes_eq(body, b_check_pass().as_slice()) || bytes_eq(
        body,
        b_build_pass().as_slice(),
    ) || bytes_eq(body, b_run_pass().as_slice()) {
        mode = Some(Mode::Pass);
    } else if bytes_eq(body, b_panic().as_slice()) {
        mode = Some(Mode::Panic);
    } else if bytes_eq(body, b_fail().as_slice()) {
        mode = Some(Mode::Fail { require_patterns: true });
    } else if bytes_eq(body, b_yolo().as_slice()) {
        mode = Some(Mode::Yolo);
    } else {
        let ignore_prefix = b_ignore_dash();
        let only_prefix = b_only_dash();
        if starts_with(body, ignore_prefix.as_slice()) {
            let tail = subvec(body, ignore_prefix.len(), body.len());
            proof {
                assert(tail@ =~= body@.skip(7));
            }
            let cond = parse_condition(tail.as_slice());
            let ghost ig0 = entry.1.ignore@;
            let ghost condv = cond@;
            entry.1.ignore.push(cond);
            proof {
                assert(crate::comments::conds_v(entry.1.ignore@)
                    =~= crate::comments::conds_v(ig0).push(condv));
            }
        } else if starts_with(body, only_prefix.as_slice()) {
            let tail = subvec(body, only_prefix.len(), body.len());
            proof {
                assert(tail@ =~= body@.skip(5));
            }
            let cond = parse_condition(tail.as_slice());
            let ghost on0 = entry.1.only@;
            let ghost condv = cond@;
            entry.1.only.push(cond);
            proof {
                assert(crate::comments::conds_v(entry.1.only@)
                    =~= crate::comments::conds_v(on0).push(condv));
            }
        } else {
            errors.push(Error::InvalidComment { msg: b_msg_unknown_directive(), line: line_no });
            proof {
                assert(errors_v(errors@) =~= e0 + seq![
                    ic(w_msg_unknown_directive(), line_no as int),
                ]);
            }
        }
    }
    match mode {
        Some(m) => {
            if entry.1.mode.is_some() {
                errors.push(Error::InvalidComment { msg: b_msg_multiple_modes(), line: line_no });
                proof {
                    assert(errors_v(errors@) =~= e0 + seq![
                        ic(w_msg_multiple_modes(), line_no as int),
                    ]);
                }
            } else {
                entry.1.mode = Some((m, line_no));
            }
        },
        None => {},
    }
    proof {
        assert(entry.1@ == st.0);
        assert(errors_v(errors@) =~= e0 + st.1);
    }
    let ghost rec2 = entry.1@;
    comments.revisioned.insert(idx, entry);
    proof {
        assert(comments@.revisioned =~= t1.remove(idx as int).insert(
            idx as int,
            (keyv, rec2),
        ));
        lemma_upsert_via_update(c0.revisioned, keyv, rec2, idx as int, t1);
        assert(comments@ == (CommentsV {
            revisions: c0.revisions,
            revisioned: upsert(c0.revisioned, keyv, rec2),
        }));
    }
}

/// Parse one `//~` inline expectation, exactly as `inline_step` says;
/// returns the anchor for a following `|` comment.
#[verifier::rlimit(100)]
#[verifier::spinoff_prover]
fn parse_inline(
    line: &[u8],
    p: usize,
    line_no: usize,
    last_anchor: Option<usize>,
    comments: &mut Comments,
    errors: &mut Vec<Error>,
) -> (r: Option<usize>)
    requires
        p + 3 <= line@.len(),
    ensures
        ({
            let st = inline_step(
                old(comments)@,
                line@,
                p as int,
                line_no as int,
                anchor_v(last_anchor),
            );
            &&& final(comments)@ == st.0
            &&& errors_v(final(errors)@) == errors_v(old(errors)@) + st.1
            &&& anchor_v(r) == st.2
        }),
{
    let ghost c0 = old(comments)@;
    let ghost e0 = errors_v(errors@);
    let ll: usize = line.len();
    let mut q: usize = p + 3;
    let mut carets: usize = 0;
    while q < line.len() && line[q] == 94
        invariant
            p + 3 <= q <= line@.len(),
            carets == q - (p + 3),
            caret_end(line@, (p + 3) as int) == caret_end(line@, q as int),
        decreases line@.len() - q,
    {
        carets += 1;
        q += 1;
    }
    proof {
        assert(caret_end(line@, q as int) == q);
        assert(caret_end(line@, (p + 3) as int) == q);
    }
    let mut target: usize;
    if carets == 0 && q < line.len() && line[q] == 124 {
        q += 1;
        match last_anchor {
            Some(a) => {
                target = a;
            },
            None => {
                errors.push(
                    Error::InvalidComment { msg: b_msg_no_previous_anchor(), line: line_no },
                );
                proof {
                    assert(errors_v(errors@) =~= e0 + seq![
                        ic(w_msg_no_previous_anchor(), line_no as int),
                    ]);
                }
                return last_anchor;
            },
        }
    } else {
        if carets >= line_no {
            errors.push(
                Error::InvalidComment { msg: b_msg_anchor_out_of_range(), line: line_no },
            );
            proof {
                assert(errors_v(errors@) =~= e0 + seq![
                    ic(w_msg_anchor_out_of_range(), line_no as int),
                ]);
            }
            return last_anchor;
        }
        target = line_no - carets;
    }
    let q2 = skip_ws(line, q);
    let te = token_end(line, q2);
    let tok = subvec(line, q2, te);
    let mut pat_start = q2;
    let mut level = Level::Error;
    match parse_level(tok.as_slice()) {
        Some(l) => {
            level = l;
            pat_start = skip_ws(line, te);
        },
        None => {},
    }
    let text = trim(subvec(line, pat_start, line.len()).as_slice());
    proof {
        assert(text@ == trim_of(line@.subrange(pat_start as int, line@.len() as int)));
    }
    if text.len() == 0 {
        errors.push(Error::InvalidComment { msg: b_msg_missing_pattern(), line: line_no });
        proof {
            assert(errors_v(errors@) =~= e0 + seq![ic(w_msg_missing_pattern(), line_no as int)]);
        }
        return last_anchor;
    }
    match parse_pattern(text.as_slice()) {
        Some(pattern) => {
            let ghost pv = pattern@;
            let ghost rec0 = record_at(c0.revisioned, Seq::empty());
            let empty_key: Vec<Vec<u8>> = Vec::new();
            proof {
                assert(views_of(empty_key@) =~= Seq::<Seq<u8>>::empty());
            }
            let idx = find_or_create(comments, empty_key);
            let ghost t1 = comments@.revisioned;
            let mut entry = comments.revisioned.remove(idx);
            proof {
                assert(comments@.revisioned =~= t1.remove(idx as int));
                assert((views_of(entry.0@), entry.1@) == t1[idx as int]);
                assert(entry.1@ == rec0);
            }
            let ghost em0 = entry.1.error_matches@;
            entry.1.error_matches.push(
                ErrorMatch { pattern, definition_line: line_no, line: target, level },
            );
            proof {
                assert(crate::comments::ems_v(entry.1.error_matches@)
                    =~= crate::comments::ems_v(em0).push(
                    ErrorMatchV {
                        pattern: pv,
                        definition_line: line_no as int,
                        line: target as int,
                        level,
                    },
                ));
            }
            let ghost rec2 = entry.1@;
            comments.revisioned.insert(idx, entry);
            proof {
                assert(comments@.revisioned =~= t1.remove(idx as int).insert(
                    idx as int,
                    (Seq::<Seq<u8>>::empty(), rec2),
                ));
                lemma_upsert_via_update(
                    c0.revisioned,
                    Seq::<Seq<u8>>::empty(),
                    rec2,
                    idx as int,
                    t1,
                );
                assert(comments@ == (CommentsV {
                    revisions: c0.revisions,
                    revisioned: upsert(c0.revisioned, Seq::<Seq<u8>>::empty(), rec2),
                }));
                assert(errors_v(errors@) =~= e0 + Seq::<ErrorV>::empty());
            }
            Some(target)
        },
        None => {
            errors.push(Error::InvalidComment { msg: b_msg_bad_regex(), line: line_no });
            proof {
                assert(errors_v(errors@) =~= e0 + seq![ic(w_msg_bad_regex(), line_no as int)]);
            }
            last_anchor
        },
    }
}

} // verus!
