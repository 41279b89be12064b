//! The diagnostic matcher: reconciles decoded diagnostics with the
//! expectations parsed from the test file, under level-aware completeness
//! rules.
//!
//! The whole reconciliation is mirrored by spec functions, phase by phase,
//! and `check_annotations` is proved to produce exactly the errors those
//! functions describe.

use vstd::prelude::*;

use crate::comments::{
    Comments, RevisionedV, collect_error_matches, collect_error_patterns, collect_modes,
    collect_require_levels, ems_v, for_rev, pats_v,
};
use crate::config::Config;
use crate::data::{
    Error, ErrorMatchV, ErrorV, Level, Message, MessageV, Mode, Pattern, PatternV, errors_v,
    level_rank, messages_v, pattern_matches, table_v,
};
use crate::util::{concat_map, lemma_concat_map_snoc};
use crate::words::{b_msg_multiple_modes, b_msg_require_level_twice, w_msg_multiple_modes,
    w_msg_require_level_twice};

verus! {

/// Index of the first message satisfying `pred`, or `-1`.
pub open spec fn find_first_match(msgs: Seq<MessageV>, pred: spec_fn(MessageV) -> bool) -> int
    decreases msgs.len(),
{
    if msgs.len() == 0 {
        -1
    } else if pred(msgs[0]) {
        0
    } else {
        let r = find_first_match(msgs.drop_first(), pred);
        if r < 0 {
            -1
        } else {
            r + 1
        }
    }
}

/// `find_first_match` returns the smallest matching index, or `-1` when
/// nothing matches.
pub proof fn lemma_find_first_match(msgs: Seq<MessageV>, pred: spec_fn(MessageV) -> bool)
    ensures
        -1 <= find_first_match(msgs, pred) < msgs.len(),
        find_first_match(msgs, pred) >= 0 ==> pred(msgs[find_first_match(msgs, pred)])
            && forall|k: int| 0 <= k < find_first_match(msgs, pred) ==> !pred(#[trigger] msgs[k]),
        find_first_match(msgs, pred) == -1 ==> forall|k: int|
            0 <= k < msgs.len() ==> !pred(#[trigger] msgs[k]),
    decreases msgs.len(),
{
    if msgs.len() > 0 && !pred(msgs[0]) {
        lemma_find_first_match(msgs.drop_first(), pred);
        let r = find_first_match(msgs.drop_first(), pred);
        if r >= 0 {
            assert(msgs[r + 1] == msgs.drop_first()[r]);
            assert forall|k: int| 0 <= k < r + 1 implies !pred(#[trigger] msgs[k]) by {
                if k > 0 {
                    assert(msgs[k] == msgs.drop_first()[k - 1]);
                }
            }
        } else {
            assert forall|k: int| 0 <= k < msgs.len() implies !pred(#[trigger] msgs[k]) by {
                if k > 0 {
                    assert(msgs[k] == msgs.drop_first()[k - 1]);
                }
            }
        }
    }
}

/// The predicate a file-wide pattern imposes on a message.
pub open spec fn pat_pred(p: PatternV) -> spec_fn(MessageV) -> bool {
    |m: MessageV| pattern_matches(p, m.message)
}

/// The predicate a line-anchored expectation imposes on a message.
pub open spec fn pat_level_pred(p: PatternV, lvl: Level) -> spec_fn(MessageV) -> bool {
    |m: MessageV| pattern_matches(p, m.message) && m.level == lvl
}

/// Phase one: each file-wide pattern consumes the first matching message of
/// the unknown-location bucket, or reports `PatternNotFound`.
pub open spec fn match_file_patterns(pats: Seq<(PatternV, int)>, unknown: Seq<MessageV>) -> (
    Seq<MessageV>,
    Seq<ErrorV>,
)
    decreases pats.len(),
{
    if pats.len() == 0 {
        (unknown, Seq::empty())
    } else {
        let idx = find_first_match(unknown, pat_pred(pats[0].0));
        if idx >= 0 {
            match_file_patterns(pats.drop_first(), unknown.remove(idx))
        } else {
            let rest = match_file_patterns(pats.drop_first(), unknown);
            (
                rest.0,
                seq![
                    ErrorV::PatternNotFound {
                        pattern: pats[0].0,
                        definition_line: pats[0].1,
                    },
                ] + rest.1,
            )
        }
    }
}

/// Phase two: each line-anchored expectation consumes the first message of
/// its line's bucket with the right level and text, or reports
/// `PatternNotFound`. Bucket `line - 1` holds source line `line`.
pub open spec fn match_line_patterns(ems: Seq<ErrorMatchV>, table: Seq<Seq<MessageV>>) -> (
    Seq<Seq<MessageV>>,
    Seq<ErrorV>,
)
    decreases ems.len(),
{
    if ems.len() == 0 {
        (table, Seq::empty())
    } else {
        let em = ems[0];
        let b = em.line - 1;
        if 0 <= b < table.len() && find_first_match(table[b], pat_level_pred(em.pattern, em.level))
            >= 0 {
            let idx = find_first_match(table[b], pat_level_pred(em.pattern, em.level));
            match_line_patterns(ems.drop_first(), table.update(b, table[b].remove(idx)))
        } else {
            let rest = match_line_patterns(ems.drop_first(), table);
            (
                rest.0,
                seq![
                    ErrorV::PatternNotFound {
                        pattern: em.pattern,
                        definition_line: em.definition_line,
                    },
                ] + rest.1,
            )
        }
    }
}

/// The less severe of two levels.
pub open spec fn level_min(a: Level, b: Level) -> Level {
    if level_rank(a) <= level_rank(b) {
        a
    } else {
        b
    }
}

/// The least severe level named by any expectation; `Error` when there is
/// none.
pub open spec fn lowest_level(ems: Seq<ErrorMatchV>) -> Level
    decreases ems.len(),
{
    if ems.len() == 0 {
        Level::Error
    } else {
        level_min(ems[0].level, lowest_level(ems.drop_first()))
    }
}

/// The messages of at least the required severity.
pub open spec fn keep_at_least(msgs: Seq<MessageV>, req: Level) -> Seq<MessageV> {
    concat_map(
        msgs,
        |m: MessageV|
            if level_rank(m.level) >= level_rank(req) {
                seq![m]
            } else {
                Seq::empty()
            },
    )
}

/// Phase three, per line: each source line whose bucket still holds a
/// message of at least the required severity yields one
/// `ErrorsWithoutPattern`. `base` is the number of lines already passed.
pub open spec fn leftover_line_errors(
    table: Seq<Seq<MessageV>>,
    path: Seq<u8>,
    req: Level,
    base: int,
) -> Seq<ErrorV>
    decreases table.len(),
{
    if table.len() == 0 {
        Seq::empty()
    } else {
        let kept = keep_at_least(table[0], req);
        let head: Seq<ErrorV> = if kept.len() > 0 {
            seq![ErrorV::ErrorsWithoutPattern { msgs: kept, path: Some((path, base + 1)) }]
        } else {
            Seq::empty()
        };
        head + leftover_line_errors(table.drop_first(), path, req, base + 1)
    }
}

/// Appending one line on the right extends the leftover errors on the right.
pub proof fn lemma_leftover_snoc(
    table: Seq<Seq<MessageV>>,
    x: Seq<MessageV>,
    path: Seq<u8>,
    req: Level,
    base: int,
)
    ensures
        leftover_line_errors(table.push(x), path, req, base) == leftover_line_errors(
            table,
            path,
            req,
            base,
        ) + ({
            let kept = keep_at_least(x, req);
            if kept.len() > 0 {
                seq![
                    ErrorV::ErrorsWithoutPattern {
                        msgs: kept,
                        path: Some((path, base + table.len() + 1)),
                    },
                ]
            } else {
                Seq::<ErrorV>::empty()
            }
        }),
    decreases table.len(),
{
    let tail = ({
        let kept = keep_at_least(x, req);
        if kept.len() > 0 {
            seq![
                ErrorV::ErrorsWithoutPattern {
                    msgs: kept,
                    path: Some((path, base + table.len() + 1)),
                },
            ]
        } else {
            Seq::<ErrorV>::empty()
        }
    });
    if table.len() == 0 {
        assert(table.push(x).drop_first() =~= Seq::<Seq<MessageV>>::empty());
        assert(table.push(x)[0] == x);
        assert(leftover_line_errors(Seq::<Seq<MessageV>>::empty(), path, req, base + 1)
            == Seq::<ErrorV>::empty());
        assert(leftover_line_errors(table, path, req, base) == Seq::<ErrorV>::empty());
        assert(leftover_line_errors(table.push(x), path, req, base) =~= leftover_line_errors(
            table,
            path,
            req,
            base,
        ) + tail);
    } else {
        assert(table.push(x).drop_first() =~= table.drop_first().push(x));
        assert(table.push(x)[0] == table[0]);
        lemma_leftover_snoc(table.drop_first(), x, path, req, base + 1);
        let head: Seq<ErrorV> = ({
            let kept = keep_at_least(table[0], req);
            if kept.len() > 0 {
                seq![ErrorV::ErrorsWithoutPattern { msgs: kept, path: Some((path, base + 1)) }]
            } else {
                Seq::<ErrorV>::empty()
            }
        });
        assert(leftover_line_errors(table.push(x), path, req, base) == head
            + leftover_line_errors(table.drop_first().push(x), path, req, base + 1));
        assert(leftover_line_errors(table, path, req, base) == head + leftover_line_errors(
            table.drop_first(),
            path,
            req,
            base + 1,
        ));
        assert(leftover_line_errors(table.push(x), path, req, base) =~= leftover_line_errors(
            table,
            path,
            req,
            base,
        ) + tail);
    }
}

/// The mode overrides of the applicable records, in order.
pub open spec fn mode_entries(rvs: Seq<RevisionedV>) -> Seq<(Mode, int)> {
    concat_map(
        rvs,
        |rv: RevisionedV|
            match rv.mode {
                Some(v) => seq![v],
                None => Seq::<(Mode, int)>::empty(),
            },
    )
}

/// The required-level settings of the applicable records, in order.
pub open spec fn require_level_entries(rvs: Seq<RevisionedV>) -> Seq<Level> {
    concat_map(
        rvs,
        |rv: RevisionedV|
            match rv.require_annotations_for_level {
                Some(v) => seq![v],
                None => Seq::<Level>::empty(),
            },
    )
}

/// The mode a revision runs under: the first override, else the configured
/// mode.
pub open spec fn effective_mode(config_mode: Mode, rvs: Seq<RevisionedV>) -> Mode {
    if mode_entries(rvs).len() > 0 {
        mode_entries(rvs)[0].0
    } else {
        config_mode
    }
}

/// One `InvalidComment` per mode override beyond the first.
pub open spec fn mode_dup_errors(rvs: Seq<RevisionedV>) -> Seq<ErrorV> {
    if mode_entries(rvs).len() == 0 {
        Seq::empty()
    } else {
        mode_entries(rvs).drop_first().map_values(
            |e: (Mode, int)| ErrorV::InvalidComment { msg: w_msg_multiple_modes(), line: e.1 },
        )
    }
}

/// Every error `check_annotations` reports, in order: unmatched file-wide
/// patterns, unmatched line-anchored patterns, duplicate required-level
/// settings, unmatched diagnostics outside the file, unmatched diagnostics
/// per line, duplicate mode overrides, and the mode/expectation conflicts.
#[verifier::opaque]
pub open spec fn check_annotations_spec(
    table: Seq<Seq<MessageV>>,
    unknown: Seq<MessageV>,
    path: Seq<u8>,
    config_mode: Mode,
    rvs: Seq<RevisionedV>,
) -> Seq<ErrorV> {
    let pats = concat_map(rvs, |rv: RevisionedV| rv.error_patterns);
    let ems = concat_map(rvs, |rv: RevisionedV| rv.error_matches);
    let p1 = match_file_patterns(pats, unknown);
    let p2 = match_line_patterns(ems, table);
    let reqs = require_level_entries(rvs);
    let req = if reqs.len() > 0 {
        reqs[0]
    } else {
        lowest_level(ems)
    };
    let req_dups = if reqs.len() == 0 {
        Seq::<ErrorV>::empty()
    } else {
        reqs.drop_first().map_values(
            |l: Level| ErrorV::InvalidComment { msg: w_msg_require_level_twice(), line: 0 },
        )
    };
    let kept_unknown = keep_at_least(p1.0, req);
    let unknown_errs: Seq<ErrorV> = if kept_unknown.len() > 0 {
        seq![ErrorV::ErrorsWithoutPattern { msgs: kept_unknown, path: None }]
    } else {
        Seq::empty()
    };
    let line_errs = leftover_line_errors(p2.0, path, req, 0);
    let mode = effective_mode(config_mode, rvs);
    let seen = pats.len() > 0 || ems.len() > 0;
    let mode_errs: Seq<ErrorV> = if (mode == Mode::Pass || mode == Mode::Panic) && seen {
        seq![ErrorV::PatternFoundInPassTest]
    } else if mode == (Mode::Fail { require_patterns: true }) && !seen {
        seq![ErrorV::NoPatternsFound]
    } else {
        Seq::empty()
    };
    p1.1 + p2.1 + req_dups + unknown_errs + line_errs + mode_dup_errors(rvs) + mode_errs
}

/// Find the first message of the bucket that a file-wide pattern matches.
fn find_matching_message(p: &Pattern, msgs: &Vec<Message>) -> (r: Option<usize>)
    ensures
        match r {
            Some(i) => find_first_match(messages_v(msgs@), pat_pred(p@)) == i as int,
            None => find_first_match(messages_v(msgs@), pat_pred(p@)) == -1,
        },
{
    let ghost mv = messages_v(msgs@);
    proof {
        lemma_find_first_match(mv, pat_pred(p@));
    }
    let mut i: usize = 0;
    while i < msgs.len()
        invariant
            i <= msgs@.len(),
            mv == messages_v(msgs@),
            mv.len() == msgs@.len(),
            -1 <= find_first_match(mv, pat_pred(p@)) < mv.len(),
            find_first_match(mv, pat_pred(p@)) >= 0 ==> pat_pred(p@)(
                mv[find_first_match(mv, pat_pred(p@))],
            ) && forall|k: int|
                0 <= k < find_first_match(mv, pat_pred(p@)) ==> !pat_pred(p@)(#[trigger] mv[k]),
            find_first_match(mv, pat_pred(p@)) == -1 ==> forall|k: int|
                0 <= k < mv.len() ==> !pat_pred(p@)(#[trigger] mv[k]),
            forall|k: int| 0 <= k < i ==> !pat_pred(p@)(#[trigger] mv[k]),
        decreases msgs@.len() - i,
    {
        if p.matches(msgs[i].message.as_slice()) {
            proof {
                assert(pat_pred(p@)(mv[i as int]));
            }
            return Some(i);
        }
        i += 1;
    }
    None
}

/// Find the first message of the bucket that a line-anchored expectation
/// matches, by text and level.
fn find_matching_message_level(p: &Pattern, lvl: Level, msgs: &Vec<Message>) -> (r: Option<usize>)
    ensures
        match r {
            Some(i) => find_first_match(messages_v(msgs@), pat_level_pred(p@, lvl)) == i as int,
            None => find_first_match(messages_v(msgs@), pat_level_pred(p@, lvl)) == -1,
        },
{
    let ghost mv = messages_v(msgs@);
    let ghost pred = pat_level_pred(p@, lvl);
    proof {
        lemma_find_first_match(mv, pred);
    }
    let mut i: usize = 0;
    while i < msgs.len()
        invariant
            i <= msgs@.len(),
            mv == messages_v(msgs@),
            pred == pat_level_pred(p@, lvl),
            mv.len() == msgs@.len(),
            -1 <= find_first_match(mv, pred) < mv.len(),
            find_first_match(mv, pred) >= 0 ==> pred(mv[find_first_match(mv, pred)]) && forall|
                k: int,
            |
                0 <= k < find_first_match(mv, pred) ==> !pred(#[trigger] mv[k]),
            find_first_match(mv, pred) == -1 ==> forall|k: int|
                0 <= k < mv.len() ==> !pred(#[trigger] mv[k]),
            forall|k: int| 0 <= k < i ==> !pred(#[trigger] mv[k]),
        decreases msgs@.len() - i,
    {
        let level_hit = msgs[i].level == lvl;
        if level_hit && p.matches(msgs[i].message.as_slice()) {
            proof {
                assert(pred(mv[i as int]));
            }
            return Some(i);
        }
        proof {
            assert(!pred(mv[i as int]));
        }
        i += 1;
    }
    None
}

/// Copy a bucket, leaving out the message at `idx`.
fn remove_message_at(msgs: &Vec<Message>, idx: usize) -> (r: Vec<Message>)
    requires
        idx < msgs@.len(),
    ensures
        messages_v(r@) == messages_v(msgs@).remove(idx as int),
{
    let mut out: Vec<Message> = Vec::new();
    let mut i: usize = 0;
    while i < msgs.len()
        invariant
            i <= msgs@.len(),
            idx < msgs@.len(),
            i <= idx ==> messages_v(out@) == messages_v(msgs@).take(i as int),
            i > idx ==> messages_v(out@) == messages_v(msgs@).take(idx as int) + messages_v(
                msgs@,
            ).subrange(idx + 1, i as int),
        decreases msgs@.len() - i,
    {
        if i != idx {
            let ghost prev = out@;
            out.push(msgs[i].duplicate());
            proof {
                assert(messages_v(out@) =~= messages_v(prev).push(messages_v(msgs@)[i as int]));
                if i < idx {
                    assert(messages_v(msgs@).take(i + 1) =~= messages_v(msgs@).take(
                        i as int,
                    ).push(messages_v(msgs@)[i as int]));
                    assert(messages_v(out@) =~= messages_v(msgs@).take(i + 1));
                } else {
                    assert(messages_v(msgs@).subrange(idx + 1, i + 1) =~= messages_v(
                        msgs@,
                    ).subrange(idx + 1, i as int).push(messages_v(msgs@)[i as int]));
                    assert(messages_v(out@) =~= messages_v(msgs@).take(idx as int) + messages_v(
                        msgs@,
                    ).subrange(idx + 1, i + 1));
                }
            }
        } else {
            proof {
                assert(messages_v(msgs@).subrange(idx + 1, idx + 1) =~= Seq::<MessageV>::empty());
                assert(messages_v(out@) =~= messages_v(msgs@).take(idx as int) + messages_v(
                    msgs@,
                ).subrange(idx + 1, idx + 1));
            }
        }
        i += 1;
    }
    proof {
        assert(messages_v(msgs@).remove(idx as int) =~= messages_v(msgs@).take(idx as int)
            + messages_v(msgs@).subrange(idx + 1, msgs@.len() as int));
    }
    out
}

/// Keep the messages of at least the required severity, as fresh copies.
fn keep_messages(msgs: &Vec<Message>, req: Level) -> (r: Vec<Message>)
    ensures
        messages_v(r@) == keep_at_least(messages_v(msgs@), req),
{
    let ghost mv = messages_v(msgs@);
    let ghost g = |m: MessageV|
        if level_rank(m.level) >= level_rank(req) {
            seq![m]
        } else {
            Seq::<MessageV>::empty()
        };
    let mut out: Vec<Message> = Vec::new();
    let mut i: usize = 0;
    proof {
        assert(mv.take(0) =~= Seq::empty());
        assert(messages_v(out@) =~= concat_map(mv.take(0), g));
    }
    while i < msgs.len()
        invariant
            i <= msgs@.len(),
            mv == messages_v(msgs@),
            mv.len() == msgs@.len(),
            g == (|m: MessageV|
                if level_rank(m.level) >= level_rank(req) {
                    seq![m]
                } else {
                    Seq::<MessageV>::empty()
                }),
            messages_v(out@) == concat_map(mv.take(i as int), g),
        decreases msgs@.len() - i,
    {
        proof {
            assert(mv.take(i + 1) =~= mv.take(i as int).push(mv[i as int]));
            lemma_concat_map_snoc(mv.take(i as int), mv[i as int], g);
        }
        let keep = msgs[i].level.at_least(req);
        if keep {
            let ghost prev = out@;
            out.push(msgs[i].duplicate());
            proof {
                assert(messages_v(out@) =~= messages_v(prev).push(mv[i as int]));
                assert(concat_map(mv.take(i as int), g).push(mv[i as int]) =~= concat_map(
                    mv.take(i as int),
                    g,
                ) + g(mv[i as int]));
            }
        } else {
            proof {
                assert(concat_map(mv.take(i as int), g) + g(mv[i as int]) =~= concat_map(
                    mv.take(i as int),
                    g,
                ));
            }
        }
        i += 1;
    }
    proof {
        assert(mv.take(mv.len() as int) =~= mv);
    }
    out
}

/// The least severe level among the collected expectations.
fn lowest_level_of(ems: &Vec<crate::data::ErrorMatch>) -> (r: Level)
    ensures
        r == lowest_level(ems_v(ems@)),
{
    let ghost ev = ems_v(ems@);
    let mut acc = Level::Error;
    let mut i: usize = 0;
    proof {
        assert(ev.skip(0) =~= ev);
        assert(level_min(Level::Error, lowest_level(ev)) == lowest_level(ev));
    }
    while i < ems.len()
        invariant
            i <= ems@.len(),
            ev == ems_v(ems@),
            ev.len() == ems@.len(),
            lowest_level(ev) == level_min(acc, lowest_level(ev.skip(i as int))),
        decreases ems@.len() - i,
    {
        proof {
            assert(ev.skip(i as int)[0] == ev[i as int]);
            assert(ev.skip(i as int).drop_first() =~= ev.skip(i + 1));
        }
        acc = acc.min_with(ems[i].level);
        i += 1;
    }
    proof {
        assert(ev.skip(ev.len() as int) =~= Seq::<ErrorMatchV>::empty());
    }
    acc
}

/// Phase one of the reconciliation: run every file-wide pattern against
/// the unknown-location bucket, consuming matches and reporting the rest.
#[verifier::rlimit(60)]
#[verifier::spinoff_prover]
fn run_file_patterns(pats: &Vec<(Pattern, usize)>, unknown: &mut Vec<Message>, errors: &mut Vec<Error>)
    ensures
        messages_v(final(unknown)@) == match_file_patterns(
            pats_v(pats@),
            messages_v(old(unknown)@),
        ).0,
        errors_v(final(errors)@) == errors_v(old(errors)@) + match_file_patterns(
            pats_v(pats@),
            messages_v(old(unknown)@),
        ).1,
{
    let ghost patsv = pats_v(pats@);
    let ghost uv0 = messages_v(old(unknown)@);
    let ghost mut eacc: Seq<ErrorV> = Seq::empty();
    let mut i: usize = 0;
    proof {
        assert(patsv.skip(0) =~= patsv);
        assert(errors_v(errors@) + eacc =~= errors_v(errors@));
        assert(eacc + match_file_patterns(patsv, uv0).1 =~= match_file_patterns(patsv, uv0).1);
    }
    while i < pats.len()
        invariant
            i <= pats@.len(),
            patsv == pats_v(pats@),
            patsv.len() == pats@.len(),
            errors_v(errors@) == errors_v(old(errors)@) + eacc,
            match_file_patterns(patsv, uv0).0 == match_file_patterns(
                patsv.skip(i as int),
                messages_v(unknown@),
            ).0,
            match_file_patterns(patsv, uv0).1 == eacc + match_file_patterns(
                patsv.skip(i as int),
                messages_v(unknown@),
            ).1,
        decreases pats@.len() - i,
    {
        let ghost tail = patsv.skip(i as int);
        let ghost uv = messages_v(unknown@);
        proof {
            assert(tail[0] == patsv[i as int]);
            assert(tail.drop_first() =~= patsv.skip(i + 1));
            lemma_find_first_match(uv, pat_pred(patsv[i as int].0));
        }
        let found = find_matching_message(&pats[i].0, unknown);
        match found {
            Some(idx) => {
                let removed = unknown.remove(idx);
                proof {
                    assert(messages_v(unknown@) =~= uv.remove(idx as int));
                }
            },
            None => {
                let ghost preverr = errors@;
                errors.push(
                    Error::PatternNotFound {
                        pattern: pats[i].0.duplicate(),
                        definition_line: pats[i].1,
                    },
                );
                proof {
                    let ev = ErrorV::PatternNotFound {
                        pattern: patsv[i as int].0,
                        definition_line: patsv[i as int].1,
                    };
                    assert(errors_v(errors@) =~= errors_v(preverr).push(ev));
                    assert(errors_v(preverr).push(ev) =~= errors_v(old(errors)@) + eacc.push(ev));
                    assert(eacc.push(ev) + match_file_patterns(patsv.skip(i + 1), uv).1 =~= eacc + (
                    seq![ev] + match_file_patterns(patsv.skip(i + 1), uv).1));
                    eacc = eacc.push(ev);
                }
            },
        }
        i += 1;
    }
    proof {
        assert(patsv.skip(patsv.len() as int) =~= Seq::<(PatternV, int)>::empty());
    }
}

/// Phase two of the reconciliation: run every line-anchored expectation
/// against its line's bucket, consuming matches and reporting the rest.
#[verifier::rlimit(60)]
#[verifier::spinoff_prover]
fn run_line_patterns(
    ems: &Vec<crate::data::ErrorMatch>,
    table: &mut Vec<Vec<Message>>,
    errors: &mut Vec<Error>,
)
    ensures
        table_v(final(table)@) == match_line_patterns(ems_v(ems@), table_v(old(table)@)).0,
        errors_v(final(errors)@) == errors_v(old(errors)@) + match_line_patterns(
            ems_v(ems@),
            table_v(old(table)@),
        ).1,
{
    let ghost emsv = ems_v(ems@);
    let ghost tv0 = table_v(old(table)@);
    let ghost mut eacc: Seq<ErrorV> = Seq::empty();
    let mut j: usize = 0;
    proof {
        assert(emsv.skip(0) =~= emsv);
        assert(errors_v(errors@) + eacc =~= errors_v(errors@));
        assert(eacc + match_line_patterns(emsv, tv0).1 =~= match_line_patterns(emsv, tv0).1);
    }
    while j < ems.len()
        invariant
            j <= ems@.len(),
            emsv == ems_v(ems@),
            emsv.len() == ems@.len(),
            errors_v(errors@) == errors_v(old(errors)@) + eacc,
            match_line_patterns(emsv, tv0).0 == match_line_patterns(
                emsv.skip(j as int),
                table_v(table@),
            ).0,
            match_line_patterns(emsv, tv0).1 == eacc + match_line_patterns(
                emsv.skip(j as int),
                table_v(table@),
            ).1,
        decreases ems@.len() - j,
    {
        let ghost tail = emsv.skip(j as int);
        let ghost tv = table_v(table@);
        proof {
            assert(tail[0] == emsv[j as int]);
            assert(tail.drop_first() =~= emsv.skip(j + 1));
        }
        let em_line = ems[j].line;
        let mut handled = false;
        if em_line >= 1 && em_line - 1 < table.len() {
            let b = em_line - 1;
            proof {
                assert(tv[b as int] == messages_v(table@[b as int]@));
            }
            let found = find_matching_message_level(&ems[j].pattern, ems[j].level, &table[b]);
            match found {
                Some(idx) => {
                    proof {
                        lemma_find_first_match(
                            tv[b as int],
                            pat_level_pred(emsv[j as int].pattern, emsv[j as int].level),
                        );
                    }
                    let newb = remove_message_at(&table[b], idx);
                    table.set(b, newb);
                    proof {
                        assert(table_v(table@) =~= tv.update(
                            b as int,
                            tv[b as int].remove(idx as int),
                        ));
                    }
                    handled = true;
                },
                None => {},
            }
        }
        if !handled {
            let ghost preverr = errors@;
            errors.push(
                Error::PatternNotFound {
                    pattern: ems[j].pattern.duplicate(),
                    definition_line: ems[j].definition_line,
                },
            );
            proof {
                let ev = ErrorV::PatternNotFound {
                    pattern: emsv[j as int].pattern,
                    definition_line: emsv[j as int].definition_line,
                };
                if emsv[j as int].line - 1 >= 0 && emsv[j as int].line - 1 < tv.len() {
                    lemma_find_first_match(
                        tv[emsv[j as int].line - 1],
                        pat_level_pred(emsv[j as int].pattern, emsv[j as int].level),
                    );
                }
                assert(errors_v(errors@) =~= errors_v(preverr).push(ev));
                assert(errors_v(preverr).push(ev) =~= errors_v(old(errors)@) + eacc.push(ev));
                assert(eacc.push(ev) + match_line_patterns(emsv.skip(j + 1), tv).1 =~= eacc + (
                seq![ev] + match_line_patterns(emsv.skip(j + 1), tv).1));
                eacc = eacc.push(ev);
            }
        }
        j += 1;
    }
    proof {
        assert(emsv.skip(emsv.len() as int) =~= Seq::<ErrorMatchV>::empty());
    }
}

/// Report each required-level setting beyond the first as an
/// `InvalidComment`.
#[verifier::spinoff_prover]
fn report_require_level_dups(req_levels: &Vec<Level>, errors: &mut Vec<Error>)
    ensures
        errors_v(final(errors)@) == errors_v(old(errors)@) + (if req_levels@.len() == 0 {
            Seq::<ErrorV>::empty()
        } else {
            req_levels@.drop_first().map_values(
                |l: Level| ErrorV::InvalidComment { msg: w_msg_require_level_twice(), line: 0 },
            )
        }),
{
    let ghost reqsv = req_levels@;
    if req_levels.len() == 0 {
        proof {
            assert(errors_v(errors@) =~= errors_v(old(errors)@) + Seq::<ErrorV>::empty());
        }
        return ;
    }
    let mut k: usize = 1;
    proof {
        assert(reqsv.subrange(1, 1).map_values(
            |l: Level| ErrorV::InvalidComment { msg: w_msg_require_level_twice(), line: 0 },
        ) =~= Seq::<ErrorV>::empty());
        assert(errors_v(errors@) =~= errors_v(old(errors)@) + reqsv.subrange(1, 1).map_values(
            |l: Level| ErrorV::InvalidComment { msg: w_msg_require_level_twice(), line: 0 },
        ));
    }
    while k < req_levels.len()
        invariant
            1 <= k <= req_levels@.len(),
            reqsv == req_levels@,
            errors_v(errors@) == errors_v(old(errors)@) + reqsv.subrange(1, k as int).map_values(
                |l: Level| ErrorV::InvalidComment { msg: w_msg_require_level_twice(), line: 0 },
            ),
        decreases req_levels@.len() - k,
    {
        let ghost preverr = errors@;
        errors.push(Error::InvalidComment { msg: b_msg_require_level_twice(), line: 0 });
        proof {
            let ev = ErrorV::InvalidComment { msg: w_msg_require_level_twice(), line: 0 };
            assert(errors_v(errors@) =~= errors_v(preverr).push(ev));
            assert(reqsv.subrange(1, k + 1) =~= reqsv.subrange(1, k as int).push(
                reqsv[k as int],
            ));
            assert(reqsv.subrange(1, k + 1).map_values(
                |l: Level| ErrorV::InvalidComment { msg: w_msg_require_level_twice(), line: 0 },
            ) =~= reqsv.subrange(1, k as int).map_values(
                |l: Level| ErrorV::InvalidComment { msg: w_msg_require_level_twice(), line: 0 },
            ).push(ev));
            assert(errors_v(errors@) =~= errors_v(old(errors)@) + reqsv.subrange(
                1,
                k + 1,
            ).map_values(
                |l: Level| ErrorV::InvalidComment { msg: w_msg_require_level_twice(), line: 0 },
            ));
        }
        k += 1;
    }
    proof {
        assert(reqsv.subrange(1, reqsv.len() as int) =~= reqsv.drop_first());
    }
}

/// Report each source line whose bucket still holds a message of at least
/// the required severity.
#[verifier::rlimit(60)]
#[verifier::spinoff_prover]
fn report_leftover_lines(
    table: &Vec<Vec<Message>>,
    path: &[u8],
    required: Level,
    errors: &mut Vec<Error>,
)
    ensures
        errors_v(final(errors)@) == errors_v(old(errors)@) + leftover_line_errors(
            table_v(table@),
            path@,
            required,
            0,
        ),
{
    let ghost t2 = table_v(table@);
    let mut li: usize = 0;
    let ghost mut lacc: Seq<ErrorV> = Seq::empty();
    proof {
        assert(t2.take(0) =~= Seq::<Seq<MessageV>>::empty());
        assert(errors_v(errors@) + lacc =~= errors_v(errors@));
    }
    while li < table.len()
        invariant
            li <= table@.len(),
            t2 == table_v(table@),
            t2.len() == table@.len(),
            lacc == leftover_line_errors(t2.take(li as int), path@, required, 0),
            errors_v(errors@) == errors_v(old(errors)@) + lacc,
        decreases table@.len() - li,
    {
        proof {
            assert(t2.take(li + 1) =~= t2.take(li as int).push(t2[li as int]));
            lemma_leftover_snoc(t2.take(li as int), t2[li as int], path@, required, 0);
            assert(t2[li as int] == messages_v(table@[li as int]@));
        }
        let kept = keep_messages(&table[li], required);
        if kept.len() > 0 {
            let ghost preverr = errors@;
            let line_no = li + 1;
            let path_copy = crate::util::subvec(path, 0, path.len());
            proof {
                assert(path_copy@ =~= path@);
            }
            errors.push(
                Error::ErrorsWithoutPattern { msgs: kept, path: Some((path_copy, line_no)) },
            );
            proof {
                let ev = ErrorV::ErrorsWithoutPattern {
                    msgs: keep_at_least(t2[li as int], required),
                    path: Some((path@, li + 1)),
                };
                assert(errors_v(errors@) =~= errors_v(preverr).push(ev));
                lacc = lacc.push(ev);
                assert(lacc =~= leftover_line_errors(t2.take(li + 1), path@, required, 0));
                assert(errors_v(errors@) =~= errors_v(old(errors)@) + lacc);
            }
        } else {
            proof {
                assert(keep_at_least(t2[li as int], required).len() == 0);
                assert(leftover_line_errors(t2.take(li + 1), path@, required, 0) =~= lacc);
            }
        }
        li += 1;
    }
    proof {
        assert(t2.take(t2.len() as int) =~= t2);
    }
}

/// Seven error groups appended one after the other equal their
/// concatenation appended at once.
proof fn lemma_chain7<T>(
    e0: Seq<T>,
    a: Seq<T>,
    b: Seq<T>,
    c: Seq<T>,
    d: Seq<T>,
    e: Seq<T>,
    f: Seq<T>,
    g: Seq<T>,
    t1: Seq<T>,
    t2: Seq<T>,
    t3: Seq<T>,
    t4: Seq<T>,
    t5: Seq<T>,
    t6: Seq<T>,
    t7: Seq<T>,
)
    requires
        t1 == e0 + a,
        t2 == t1 + b,
        t3 == t2 + c,
        t4 == t3 + d,
        t5 == t4 + e,
        t6 == t5 + f,
        t7 == t6 + g,
    ensures
        t7 == e0 + (a + b + c + d + e + f + g),
{
    assert(t7 =~= e0 + (a + b + c + d + e + f + g));
}

/// `check_annotations_spec` unfolded: its result is the concatenation of the
/// seven error groups.
proof fn lemma_spec_unfold(
    tv0: Seq<Seq<MessageV>>,
    uv0: Seq<MessageV>,
    path: Seq<u8>,
    config_mode: Mode,
    rvs: Seq<RevisionedV>,
    required: Level,
    a: Seq<ErrorV>,
    b: Seq<ErrorV>,
    c: Seq<ErrorV>,
    d: Seq<ErrorV>,
    e: Seq<ErrorV>,
    f: Seq<ErrorV>,
    g: Seq<ErrorV>,
)
    requires
        a == match_file_patterns(concat_map(rvs, |rv: RevisionedV| rv.error_patterns), uv0).1,
        b == match_line_patterns(concat_map(rvs, |rv: RevisionedV| rv.error_matches), tv0).1,
        required == (if require_level_entries(rvs).len() > 0 {
            require_level_entries(rvs)[0]
        } else {
            lowest_level(concat_map(rvs, |rv: RevisionedV| rv.error_matches))
        }),
        c == (if require_level_entries(rvs).len() == 0 {
            Seq::<ErrorV>::empty()
        } else {
            require_level_entries(rvs).drop_first().map_values(
                |l: Level| ErrorV::InvalidComment { msg: w_msg_require_level_twice(), line: 0 },
            )
        }),
        d == ({
            let ku = keep_at_least(
                match_file_patterns(
                    concat_map(rvs, |rv: RevisionedV| rv.error_patterns),
                    uv0,
                ).0,
                required,
            );
            if ku.len() > 0 {
                seq![ErrorV::ErrorsWithoutPattern { msgs: ku, path: None }]
            } else {
                Seq::<ErrorV>::empty()
            }
        }),
        e == leftover_line_errors(
            match_line_patterns(concat_map(rvs, |rv: RevisionedV| rv.error_matches), tv0).0,
            path,
            required,
            0,
        ),
        f == mode_dup_errors(rvs),
        g == ({
            let m = effective_mode(config_mode, rvs);
            let seen = concat_map(rvs, |rv: RevisionedV| rv.error_patterns).len() > 0
                || concat_map(rvs, |rv: RevisionedV| rv.error_matches).len() > 0;
            if (m == Mode::Pass || m == Mode::Panic) && seen {
                seq![ErrorV::PatternFoundInPassTest]
            } else if m == (Mode::Fail { require_patterns: true }) && !seen {
                seq![ErrorV::NoPatternsFound]
            } else {
                Seq::<ErrorV>::empty()
            }
        }),
    ensures
        check_annotations_spec(tv0, uv0, path, config_mode, rvs) == a + b + c + d + e + f + g,
{
    reveal(check_annotations_spec);
}

/// Correlate the decoded diagnostics with the annotations of one revision,
/// appending one error per finding, exactly as `check_annotations_spec`
/// describes.
#[verifier::rlimit(100)]
#[verifier::spinoff_prover]
pub fn check_annotations(
    messages: Vec<Vec<Message>>,
    messages_from_unknown_file_or_line: Vec<Message>,
    path: &[u8],
    errors: &mut Vec<Error>,
    config: &Config,
    revision: &[u8],
    comments: &Comments,
)
    ensures
        errors_v(final(errors)@) == errors_v(old(errors)@) + check_annotations_spec(
            table_v(messages@),
            messages_v(messages_from_unknown_file_or_line@),
            path@,
            config@.mode,
            for_rev(comments@.revisioned, revision@),
        ),
{
    let ghost rvs = for_rev(comments@.revisioned, revision@);
    let ghost tv0 = table_v(messages@);
    let ghost uv0 = messages_v(messages_from_unknown_file_or_line@);
    let revs = comments.for_revision(revision);
    let pats = collect_error_patterns(&revs);
    let ems = collect_error_matches(&revs);
    let ghost patsv = pats_v(pats@);
    let ghost emsv = ems_v(ems@);
    let seen = pats.len() > 0 || ems.len() > 0;
    let ghost phase1 = match_file_patterns(patsv, uv0);
    let ghost phase2 = match_line_patterns(emsv, tv0);

    let mut unknown = messages_from_unknown_file_or_line;
    run_file_patterns(&pats, &mut unknown, errors);
    let ghost e1 = errors_v(errors@);

    let mut table = messages;
    run_line_patterns(&ems, &mut table, errors);
    let ghost e2 = errors_v(errors@);

    let req_levels = collect_require_levels(&revs);
    let lowest = lowest_level_of(&ems);
    let required = if req_levels.len() > 0 {
        req_levels[0]
    } else {
        lowest
    };
    let ghost reqsv = require_level_entries(rvs);
    proof {
        assert(reqsv == req_levels@);
    }
    report_require_level_dups(&req_levels, errors);
    let ghost req_dups: Seq<ErrorV> = if reqsv.len() == 0 {
        Seq::<ErrorV>::empty()
    } else {
        reqsv.drop_first().map_values(
            |l: Level| ErrorV::InvalidComment { msg: w_msg_require_level_twice(), line: 0 },
        )
    };
    let ghost e3 = errors_v(errors@);

    let kept_unknown = keep_messages(&unknown, required);
    let ghost kept_unknown_v = keep_at_least(phase1.0, required);
    let ghost unknown_errs: Seq<ErrorV> = if kept_unknown_v.len() > 0 {
        seq![ErrorV::ErrorsWithoutPattern { msgs: kept_unknown_v, path: None }]
    } else {
        Seq::<ErrorV>::empty()
    };
    if kept_unknown.len() > 0 {
        let ghost preverr = errors@;
        errors.push(Error::ErrorsWithoutPattern { msgs: kept_unknown, path: None });
        proof {
            assert(errors_v(errors@) =~= errors_v(preverr).push(
                ErrorV::ErrorsWithoutPattern { msgs: kept_unknown_v, path: None },
            ));
        }
    }
    let ghost e4 = errors_v(errors@);
    proof {
        assert(e4 =~= e3 + unknown_errs);
    }

    report_leftover_lines(&table, path, required, errors);
    let ghost line_errs = leftover_line_errors(phase2.0, path@, required, 0);
    let ghost e5 = errors_v(errors@);

    let ghost err_before_mode = errors_v(errors@);
    let mode = revision_mode(config, comments, revision, errors);
    let ghost e6 = errors_v(errors@);

    let is_pass_like = match mode {
        Mode::Pass => true,
        Mode::Panic => true,
        _ => false,
    };
    let requires_patterns = match mode {
        Mode::Fail { require_patterns } => require_patterns,
        _ => false,
    };
    let ghost mode_errs: Seq<ErrorV> = if (effective_mode(config@.mode, rvs) == Mode::Pass
        || effective_mode(config@.mode, rvs) == Mode::Panic) && (patsv.len() > 0 || emsv.len()
        > 0) {
        seq![ErrorV::PatternFoundInPassTest]
    } else if effective_mode(config@.mode, rvs) == (Mode::Fail { require_patterns: true }) && !(
    patsv.len() > 0 || emsv.len() > 0) {
        seq![ErrorV::NoPatternsFound]
    } else {
        Seq::<ErrorV>::empty()
    };
    if is_pass_like && seen {
        let ghost preverr = errors@;
        errors.push(Error::PatternFoundInPassTest);
        proof {
            assert(errors_v(errors@) =~= errors_v(preverr).push(ErrorV::PatternFoundInPassTest));
            assert(errors_v(errors@) =~= e6 + mode_errs);
        }
    } else if requires_patterns && !seen {
        let ghost preverr = errors@;
        errors.push(Error::NoPatternsFound);
        proof {
            assert(errors_v(errors@) =~= errors_v(preverr).push(ErrorV::NoPatternsFound));
            assert(errors_v(errors@) =~= e6 + mode_errs);
        }
    } else {
        proof {
            assert(errors_v(errors@) =~= e6 + mode_errs);
        }
    }
    proof {
        let e0 = errors_v(old(errors)@);
        lemma_chain7(
            e0,
            phase1.1,
            phase2.1,
            req_dups,
            unknown_errs,
            line_errs,
            mode_dup_errors(rvs),
            mode_errs,
            e1,
            e2,
            e3,
            e4,
            e5,
            e6,
            errors_v(errors@),
        );
        lemma_spec_unfold(
            tv0,
            uv0,
            path@,
            config@.mode,
            rvs,
            required,
            phase1.1,
            phase2.1,
            req_dups,
            unknown_errs,
            line_errs,
            mode_dup_errors(rvs),
            mode_errs,
        );
    }
}

/// The mode this revision runs under; a duplicate override is reported as an
/// `InvalidComment` carrying its line.
pub fn revision_mode(
    config: &Config,
    comments: &Comments,
    revision: &[u8],
    errors: &mut Vec<Error>,
) -> (r: Mode)
    ensures
        r == effective_mode(config@.mode, for_rev(comments@.revisioned, revision@)),
        errors_v(final(errors)@) == errors_v(old(errors)@) + mode_dup_errors(
            for_rev(comments@.revisioned, revision@),
        ),
{
    let revs = comments.for_revision(revision);
    let modes = collect_modes(&revs);
    let ghost rvs = for_rev(comments@.revisioned, revision@);
    let ghost entries = mode_entries(rvs);
    proof {
        assert(entries == modes@.map_values(|e: (Mode, usize)| (e.0, e.1 as int)));
    }
    let mode = if modes.len() == 0 {
        config.mode
    } else {
        modes[0].0
    };
    let mut k: usize = 1;
    proof {
        if entries.len() > 0 {
            assert(errors_v(errors@) + entries.subrange(1, 1).map_values(
                |e: (Mode, int)| ErrorV::InvalidComment { msg: w_msg_multiple_modes(), line: e.1 },
            ) =~= errors_v(errors@));
        }
    }
    while k < modes.len()
        invariant
            1 <= k <= modes@.len() || (modes@.len() == 0 && k == 1),
            entries == mode_entries(rvs),
            entries == modes@.map_values(|e: (Mode, usize)| (e.0, e.1 as int)),
            entries.len() == modes@.len(),
            modes@.len() > 0 ==> errors_v(errors@) == errors_v(old(errors)@) + entries.subrange(
                1,
                k as int,
            ).map_values(
                |e: (Mode, int)| ErrorV::InvalidComment { msg: w_msg_multiple_modes(), line: e.1 },
            ),
            modes@.len() == 0 ==> errors_v(errors@) == errors_v(old(errors)@),
        decreases modes@.len() - k,
    {
        let ghost prev = errors@;
        errors.push(
            Error::InvalidComment { msg: b_msg_multiple_modes(), line: modes[k].1 },
        );
        proof {
            assert(errors_v(errors@) =~= errors_v(prev).push(
                ErrorV::InvalidComment { msg: w_msg_multiple_modes(), line: entries[k as int].1 },
            ));
            assert(entries.subrange(1, k + 1) =~= entries.subrange(1, k as int).push(
                entries[k as int],
            ));
            assert(errors_v(errors@) =~= errors_v(old(errors)@) + entries.subrange(
                1,
                k + 1,
            ).map_values(
                |e: (Mode, int)| ErrorV::InvalidComment { msg: w_msg_multiple_modes(), line: e.1 },
            ));
        }
        k += 1;
    }
    proof {
        if modes@.len() > 0 {
            assert(entries.subrange(1, entries.len() as int) =~= entries.drop_first());
        } else {
            assert(mode_dup_errors(rvs) == Seq::<ErrorV>::empty());
        }
        assert(errors_v(errors@) =~= errors_v(old(errors)@) + mode_dup_errors(rvs));
    }
    mode
}

/// When no per-line leftover error is reported, every line's bucket holds
/// only messages below the required level.
pub proof fn lemma_leftover_all_below(table: Seq<Seq<MessageV>>, path: Seq<u8>, req: Level, base: int)
    requires
        leftover_line_errors(table, path, req, base).len() == 0,
    ensures
        forall|l: int| 0 <= l < table.len() ==> keep_at_least(#[trigger] table[l], req).len() == 0,
    decreases table.len(),
{
    if table.len() > 0 {
        lemma_leftover_all_below(table.drop_first(), path, req, base + 1);
        assert forall|l: int| 0 <= l < table.len() implies keep_at_least(
            #[trigger] table[l],
            req,
        ).len() == 0 by {
            if l > 0 {
                assert(table[l] == table.drop_first()[l - 1]);
            }
        }
    }
}

/// Revision isolation: the errors reported for one revision depend only on
/// the records that apply to that revision, the decoded diagnostics, and the
/// configured mode — never on sibling revisions' records.
pub proof fn lemma_revision_isolation(
    table: Seq<Seq<MessageV>>,
    unknown: Seq<MessageV>,
    path: Seq<u8>,
    config_mode: Mode,
    c1: crate::comments::CommentsV,
    c2: crate::comments::CommentsV,
    rev: Seq<u8>,
)
    requires
        for_rev(c1.revisioned, rev) == for_rev(c2.revisioned, rev),
    ensures
        check_annotations_spec(table, unknown, path, config_mode, for_rev(c1.revisioned, rev))
            == check_annotations_spec(
            table,
            unknown,
            path,
            config_mode,
            for_rev(c2.revisioned, rev),
        ),
{
}

/// Completeness soundness: when `check_annotations` reports no errors for a
/// revision run in mode `Fail` with required patterns, every decoded
/// diagnostic at or above the required annotation level was consumed by some
/// annotation — none is left in the unknown bucket or in any line's bucket.
pub proof fn lemma_completeness_sound(
    table: Seq<Seq<MessageV>>,
    unknown: Seq<MessageV>,
    path: Seq<u8>,
    config_mode: Mode,
    rvs: Seq<RevisionedV>,
)
    requires
        effective_mode(config_mode, rvs) == (Mode::Fail { require_patterns: true }),
        check_annotations_spec(table, unknown, path, config_mode, rvs).len() == 0,
    ensures
        ({
            let pats = concat_map(rvs, |rv: RevisionedV| rv.error_patterns);
            let ems = concat_map(rvs, |rv: RevisionedV| rv.error_matches);
            let reqs = require_level_entries(rvs);
            let req = if reqs.len() > 0 {
                reqs[0]
            } else {
                lowest_level(ems)
            };
            &&& keep_at_least(match_file_patterns(pats, unknown).0, req).len() == 0
            &&& forall|l: int|
                0 <= l < match_line_patterns(ems, table).0.len() ==> keep_at_least(
                    #[trigger] match_line_patterns(ems, table).0[l],
                    req,
                ).len() == 0
        }),
{
    reveal(check_annotations_spec);
    let pats = concat_map(rvs, |rv: RevisionedV| rv.error_patterns);
    let ems = concat_map(rvs, |rv: RevisionedV| rv.error_matches);
    let p1 = match_file_patterns(pats, unknown);
    let p2 = match_line_patterns(ems, table);
    let reqs = require_level_entries(rvs);
    let req = if reqs.len() > 0 {
        reqs[0]
    } else {
        lowest_level(ems)
    };
    let kept_unknown = keep_at_least(p1.0, req);
    assert(leftover_line_errors(p2.0, path, req, 0).len() == 0);
    lemma_leftover_all_below(p2.0, path, req, 0);
    assert(kept_unknown.len() == 0);
}

} // verus!
