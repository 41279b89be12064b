//! End-to-end checks of the library: annotation parsing, diagnostic
//! matching, golden-file handling, command building and the filter engine.

use ui_test::cmd::{aux_crate_name, build_command, extern_args_for_aux, join_paths};
use ui_test::comments::Comments;
use ui_test::config::Config;
use ui_test::data::{Error, Level, Message, Mode, OutputConflictHandling, Pattern};
use ui_test::decoder::{process, DecodedItem, RawChild, RawDiagnostic};
use ui_test::filters::{normalize, replace_all_exact};
use ui_test::matcher::check_annotations;
use ui_test::output::{check_output, get_pointer_width, output_path, revised, GoldenAction};
use ui_test::runner::{summarize, test_file_conditions, TestResult, TestRun};
use ui_test::rustfixer::run_rustfix;

fn ready_config() -> Config {
    let mut config = Config::stock();
    config.fill_host_and_target(b"x86_64-unknown-linux-gnu".to_vec());
    config
}

fn msg(level: Level, text: &[u8]) -> Message {
    Message {
        level,
        message: text.to_vec(),
    }
}

#[test]
fn single_line_substring_match() {
    let content = b"let x: u8 = 256; //~ ERROR literal out of range";
    let comments = Comments::parse(content).unwrap();
    let config = ready_config();
    let messages = vec![vec![msg(Level::Error, b"literal out of range for u8")]];
    let mut errors = Vec::new();
    check_annotations(
        messages,
        Vec::new(),
        b"tests/ui/int.rs",
        &mut errors,
        &config,
        b"",
        &comments,
    );
    assert_eq!(errors, Vec::new());
}

#[test]
fn level_mismatch_reports_both_sides() {
    let content = b"let x: u8 = 256; //~ WARN literal out of range";
    let comments = Comments::parse(content).unwrap();
    let config = ready_config();
    let messages = vec![vec![msg(Level::Error, b"literal out of range for u8")]];
    let mut errors = Vec::new();
    check_annotations(
        messages,
        Vec::new(),
        b"tests/ui/int.rs",
        &mut errors,
        &config,
        b"",
        &comments,
    );
    assert_eq!(
        errors,
        vec![
            Error::PatternNotFound {
                pattern: Pattern::SubString(b"literal out of range".to_vec()),
                definition_line: 1,
            },
            Error::ErrorsWithoutPattern {
                msgs: vec![msg(Level::Error, b"literal out of range for u8")],
                path: Some((b"tests/ui/int.rs".to_vec(), 1)),
            },
        ]
    );
}

#[test]
fn pass_mode_with_annotation_is_reported() {
    let content = b"//@ check-pass\nfoo(); //~ NOTE something";
    let comments = Comments::parse(content).unwrap();
    let config = ready_config();
    let messages = vec![vec![], vec![msg(Level::Note, b"something")]];
    let mut errors = Vec::new();
    check_annotations(
        messages,
        Vec::new(),
        b"tests/ui/pass.rs",
        &mut errors,
        &config,
        b"",
        &comments,
    );
    assert_eq!(errors, vec![Error::PatternFoundInPassTest]);
}

#[test]
fn bless_round_trip() {
    let comments = Comments::parse(b"").unwrap();
    let mut config = ready_config();
    config.output_conflict_handling = OutputConflictHandling::Bless;
    let mut errors = Vec::new();
    let (gpath, action) = check_output(
        b"foo\n",
        b"tests/ui/out.rs",
        &mut errors,
        b"stderr",
        &config.stderr_filters,
        &config,
        &comments,
        b"",
        None,
        None,
    );
    assert_eq!(gpath, b"tests/ui/out.stderr".to_vec());
    assert_eq!(action, GoldenAction::Write(b"foo\n".to_vec()));
    assert!(errors.is_empty());

    // Second run under `Error` against what blessing wrote: no difference.
    config.output_conflict_handling = OutputConflictHandling::Error;
    let golden = b"foo\n".to_vec();
    let mut errors2 = Vec::new();
    let (_, action2) = check_output(
        b"foo\n",
        b"tests/ui/out.rs",
        &mut errors2,
        b"stderr",
        &config.stderr_filters,
        &config,
        &comments,
        b"",
        Some(&golden),
        None,
    );
    assert!(errors2.is_empty());
    assert_eq!(action2, GoldenAction::Keep);
}

#[test]
fn bless_empty_output_deletes() {
    let comments = Comments::parse(b"").unwrap();
    let mut config = ready_config();
    config.output_conflict_handling = OutputConflictHandling::Bless;
    let mut errors = Vec::new();
    let (_, action) = check_output(
        b"",
        b"tests/ui/out.rs",
        &mut errors,
        b"stderr",
        &Vec::new(),
        &config,
        &comments,
        b"",
        None,
        None,
    );
    assert_eq!(action, GoldenAction::Delete);
}

#[test]
fn output_differs_is_reported() {
    let comments = Comments::parse(b"").unwrap();
    let config = ready_config();
    let golden = b"expected\n".to_vec();
    let mut errors = Vec::new();
    let (gpath, action) = check_output(
        b"actual\n",
        b"tests/ui/out.rs",
        &mut errors,
        b"stderr",
        &Vec::new(),
        &config,
        &comments,
        b"",
        Some(&golden),
        None,
    );
    assert_eq!(action, GoldenAction::Keep);
    assert_eq!(
        errors,
        vec![Error::OutputDiffers {
            path: gpath,
            actual: b"actual\n".to_vec(),
            expected: b"expected\n".to_vec(),
        }]
    );
}

#[test]
fn bitwidth_routing() {
    let comments = Comments::parse(b"//@ stderr-per-bitwidth").unwrap();
    let p64 = output_path(
        b"tests/ui/foo.rs",
        &comments,
        b"stderr",
        b"x86_64-unknown-linux-gnu",
        b"",
    );
    assert_eq!(p64, b"tests/ui/foo.64bit.stderr".to_vec());
    let p32 = output_path(
        b"tests/ui/foo.rs",
        &comments,
        b"stderr",
        b"i686-unknown-linux-gnu",
        b"",
    );
    assert_eq!(p32, b"tests/ui/foo.32bit.stderr".to_vec());
}

#[test]
fn pointer_width_of_triples() {
    assert_eq!(get_pointer_width(b"x86_64-unknown-linux-gnu"), 64);
    assert_eq!(get_pointer_width(b"i686-unknown-linux-gnu"), 32);
    assert_eq!(get_pointer_width(b"avr-unknown-gnu-atmega328"), 16);
    assert_eq!(get_pointer_width(b"s390x-unknown-linux-gnu"), 64);
    assert_eq!(get_pointer_width(b"x86_64-unknown-linux-gnux32"), 32);
}

#[test]
fn auxiliary_crate_naming() {
    assert_eq!(aux_crate_name(b"helper-a.rs"), b"helper_a".to_vec());
    let args = extern_args_for_aux(
        b"helper-a.rs",
        b"out/tests/ui/main",
        &vec![b"libhelper_a.rlib".to_vec()],
    );
    assert_eq!(
        args,
        vec![
            b"--extern".to_vec(),
            b"helper_a=out/tests/ui/main/libhelper_a.rlib".to_vec(),
        ]
    );
}

#[test]
fn exact_replacement_engine() {
    assert_eq!(replace_all_exact(b"a\\b\\c", b"\\", b"/"), b"a/b/c".to_vec());
    // Non-overlapping, left to right; a replacement can create a new
    // occurrence that this pass does not touch again.
    assert_eq!(replace_all_exact(b"aabb", b"ab", b""), b"ab".to_vec());
    // Replacing again does change it: the filter engine is only a fixed
    // point when no needle survives in the output.
    assert_eq!(replace_all_exact(b"ab", b"ab", b""), b"".to_vec());
    // Empty needle changes nothing.
    assert_eq!(replace_all_exact(b"abc", b"", b"x"), b"abc".to_vec());
}

#[test]
fn normalize_applies_regex_and_dir_filters() {
    let mut config = ready_config();
    assert!(config.stderr_filter(b"[0-9]+", b"N"));
    let comments = Comments::parse(b"").unwrap();
    let out = normalize(
        b"tests/ui",
        b"error at tests/ui/foo.rs:17",
        None,
        &config.stderr_filters,
        &comments,
        b"",
    );
    assert_eq!(out, b"error at $DIR/foo.rs:N".to_vec());
}

#[test]
fn normalize_rejects_bad_regex() {
    let mut config = ready_config();
    assert!(!config.stderr_filter(b"[", b"N"));
    assert!(config.stderr_filters.len() == 1); // only the stock filter
}

#[test]
fn ignore_condition_wins() {
    let comments = Comments::parse(b"//@ ignore-64bit").unwrap();
    let config = ready_config();
    assert!(!test_file_conditions(&comments, &config, b""));
    let comments2 = Comments::parse(b"//@ ignore-16bit").unwrap();
    assert!(test_file_conditions(&comments2, &config, b""));
}

#[test]
fn only_condition_selects() {
    let config = ready_config();
    let on_target = Comments::parse(b"//@ only-linux").unwrap();
    assert!(test_file_conditions(&on_target, &config, b""));
    let off_target = Comments::parse(b"//@ only-windows").unwrap();
    assert!(!test_file_conditions(&off_target, &config, b""));
}

#[test]
fn revision_scoped_flags_reach_only_their_revision() {
    let content = b"//@ revisions: a b\n//@[a] compile-flags: -O";
    let comments = Comments::parse(content).unwrap();
    let config = ready_config();
    let mut errors = Vec::new();
    let cmd_a = build_command(b"t/f.rs", &config, b"a", &comments, None, &mut errors);
    assert_eq!(
        cmd_a.args,
        vec![
            b"--error-format=json".to_vec(),
            b"t/f.rs".to_vec(),
            b"--cfg=a".to_vec(),
            b"-O".to_vec(),
            b"--edition".to_vec(),
            b"2021".to_vec(),
        ]
    );
    let cmd_b = build_command(b"t/f.rs", &config, b"b", &comments, None, &mut errors);
    assert_eq!(
        cmd_b.args,
        vec![
            b"--error-format=json".to_vec(),
            b"t/f.rs".to_vec(),
            b"--cfg=b".to_vec(),
            b"--edition".to_vec(),
            b"2021".to_vec(),
        ]
    );
    assert!(errors.is_empty());
    assert_eq!(cmd_a.program, b"rustc".to_vec());
}

#[test]
fn duplicate_edition_is_reported() {
    let err = Comments::parse(b"//@ edition: 2015\n//@ edition: 2018").unwrap_err();
    assert_eq!(err.len(), 1);
    assert!(matches!(err[0], Error::InvalidComment { line: 2, .. }));

    let comments = Comments::parse(b"//@ edition: 2015").unwrap();
    let config = ready_config();
    let mut errors = Vec::new();
    let cmd = build_command(b"t/f.rs", &config, b"", &comments, None, &mut errors);
    assert!(cmd.args.contains(&b"2015".to_vec()));
    assert!(!cmd.args.contains(&b"2021".to_vec()));
    assert!(errors.is_empty());
}

#[test]
fn exit_status_judgement() {
    assert_eq!(Mode::Pass.ok(Some(0)), Vec::new());
    assert_eq!(
        Mode::Pass.ok(Some(1)),
        vec![Error::ExitStatus {
            mode: Mode::Pass,
            status: Some(1),
            expected: 0,
        }]
    );
    assert_eq!(Mode::Panic.ok(Some(101)), Vec::new());
    assert_eq!(Mode::Yolo.ok(Some(77)), Vec::new());
    assert_eq!(
        Mode::Fail {
            require_patterns: true
        }
        .ok(None),
        vec![Error::ExitStatus {
            mode: Mode::Fail {
                require_patterns: true
            },
            status: None,
            expected: 1,
        }]
    );
}

#[test]
fn missing_patterns_in_fail_test() {
    let comments = Comments::parse(b"fn main() {}").unwrap();
    let config = ready_config();
    let mut errors = Vec::new();
    check_annotations(
        vec![],
        Vec::new(),
        b"t/f.rs",
        &mut errors,
        &config,
        b"",
        &comments,
    );
    assert_eq!(errors, vec![Error::NoPatternsFound]);
}

#[test]
fn file_wide_pattern_consumes_unknown_bucket() {
    let content = b"//@ error-pattern: linker failed";
    let comments = Comments::parse(content).unwrap();
    let config = ready_config();
    let unknown = vec![msg(Level::Error, b"the linker failed loudly")];
    let mut errors = Vec::new();
    check_annotations(
        vec![],
        unknown,
        b"t/f.rs",
        &mut errors,
        &config,
        b"",
        &comments,
    );
    assert_eq!(errors, Vec::new());
}

#[test]
fn regex_annotation_matches() {
    let content = b"boom(); //~ ERROR /b.*m/";
    let comments = Comments::parse(content).unwrap();
    let config = ready_config();
    let messages = vec![vec![msg(Level::Error, b"boom happened")]];
    let mut errors = Vec::new();
    check_annotations(
        messages,
        Vec::new(),
        b"t/f.rs",
        &mut errors,
        &config,
        b"",
        &comments,
    );
    assert_eq!(errors, Vec::new());
}

#[test]
fn caret_anchors_shift_lines() {
    let content = b"bad();\n//~^ ERROR oh no";
    let comments = Comments::parse(content).unwrap();
    let config = ready_config();
    // The diagnostic sits on line 1, the annotation on line 2 anchors one up.
    let messages = vec![vec![msg(Level::Error, b"oh no")]];
    let mut errors = Vec::new();
    check_annotations(
        messages,
        Vec::new(),
        b"t/f.rs",
        &mut errors,
        &config,
        b"",
        &comments,
    );
    assert_eq!(errors, Vec::new());
}

#[test]
fn invalid_comments_are_collected() {
    let err = Comments::parse(b"//@ frobnicate: yes").unwrap_err();
    assert_eq!(err.len(), 1);
    assert!(matches!(err[0], Error::InvalidComment { line: 1, .. }));

    let err2 = Comments::parse(b"x(); //~ ERROR").unwrap_err();
    assert_eq!(err2.len(), 1);
    assert!(matches!(err2[0], Error::InvalidComment { line: 1, .. }));

    let err3 = Comments::parse(b"//@ revisions: a\n//@ revisions: b").unwrap_err();
    assert!(matches!(err3[0], Error::InvalidComment { line: 2, .. }));
}

#[test]
fn decoder_places_messages() {
    let items = vec![
        DecodedItem::Text(b"warning: something\n".to_vec()),
        DecodedItem::Diagnostic(RawDiagnostic {
            level: Level::Error,
            message: b"boom".to_vec(),
            line_starts: vec![2],
            rendered: Some(b"error: boom\n".to_vec()),
            children: vec![RawChild {
                level: Level::Note,
                message: b"because".to_vec(),
                line_starts: vec![],
            }],
        }),
    ];
    let diagnostics = process(&items);
    assert_eq!(diagnostics.messages.len(), 2);
    assert!(diagnostics.messages[0].is_empty());
    assert_eq!(diagnostics.messages[1], vec![msg(Level::Error, b"boom")]);
    assert_eq!(
        diagnostics.messages_from_unknown_file_or_line,
        vec![msg(Level::Note, b"because")]
    );
    assert_eq!(
        diagnostics.rendered,
        b"warning: something\nerror: boom\n".to_vec()
    );
}

#[test]
fn revision_isolation_at_runtime() {
    // Two files agreeing on revision `a` but differing on `b` produce the
    // same findings for `a`.
    let c1 = Comments::parse(b"//@ revisions: a b\n//@[a] check-pass\n//@[b] panic").unwrap();
    let c2 =
        Comments::parse(b"//@ revisions: a b\n//@[a] check-pass\n//@[b] compile-flags: -O").unwrap();
    let config = ready_config();
    let mut e1 = Vec::new();
    let mut e2 = Vec::new();
    check_annotations(vec![], Vec::new(), b"t/f.rs", &mut e1, &config, b"a", &c1);
    check_annotations(vec![], Vec::new(), b"t/f.rs", &mut e2, &config, b"a", &c2);
    assert_eq!(e1, e2);
}

#[test]
fn summarize_counts_and_exit_code() {
    let runs = vec![
        TestRun {
            result: TestResult::Passed,
            path: b"a.rs".to_vec(),
            revision: Vec::new(),
        },
        TestRun {
            result: TestResult::Ignored,
            path: b"b.rs".to_vec(),
            revision: Vec::new(),
        },
        TestRun {
            result: TestResult::Filtered,
            path: b"c.rs".to_vec(),
            revision: Vec::new(),
        },
    ];
    let (totals, code) = summarize(&runs);
    assert_eq!(
        (totals.succeeded, totals.ignored, totals.filtered, totals.failed),
        (1, 1, 1, 0)
    );
    assert_eq!(code, 0);
}

#[test]
fn rustfix_rerun_without_suggestions_keeps_source() {
    let comments = Comments::parse(b"").unwrap();
    let mut config = ready_config();
    config.output_conflict_handling = OutputConflictHandling::Bless;
    let mut errors = Vec::new();
    let out = run_rustfix(
        b"",
        b"fn main() {}\n",
        b"d/a.rs",
        &comments,
        b"",
        &config,
        &Vec::new(),
        None,
        &mut errors,
    )
    .unwrap();
    assert_eq!(out.1, b"d/a.fixed".to_vec());
    assert_eq!(out.2, GoldenAction::Write(b"fn main() {}\n".to_vec()));
    assert_eq!(out.0.program, b"rustc".to_vec());
    assert!(errors.is_empty());
}

#[test]
fn rustfix_rejects_garbage_diagnostics() {
    let comments = Comments::parse(b"").unwrap();
    let config = ready_config();
    let mut errors = Vec::new();
    let out = run_rustfix(
        b"this is not json",
        b"fn main() {}\n",
        b"d/a.rs",
        &comments,
        b"",
        &config,
        &Vec::new(),
        None,
        &mut errors,
    );
    assert!(out.is_none());
    assert_eq!(errors.len(), 1);
    assert!(matches!(errors[0], Error::Bug(_)));
}

#[test]
fn revised_names() {
    assert_eq!(revised(b"", b"stderr"), b"stderr".to_vec());
    assert_eq!(revised(b"a", b"stderr"), b"a.stderr".to_vec());
}

#[test]
fn join_and_link() {
    assert_eq!(join_paths(b"", b"x.rs"), b"x.rs".to_vec());
    assert_eq!(join_paths(b"out", b"x.rs"), b"out/x.rs".to_vec());

    let mut config = ready_config();
    config.link_dependencies(
        &vec![(b"dep".to_vec(), vec![b"libdep.rlib".to_vec()])],
        &vec![b"target/debug/deps".to_vec()],
    );
    assert_eq!(
        &config.args[1..],
        &[
            b"--extern".to_vec(),
            b"dep=libdep.rlib".to_vec(),
            b"-L".to_vec(),
            b"target/debug/deps".to_vec(),
        ]
    );
}

#[test]
fn pattern_kinds() {
    let sub = Pattern::SubString(b"needle".to_vec());
    assert!(sub.matches(b"hay needle stack"));
    assert!(!sub.matches(b"hay stack"));
    match Comments::parse(b"x //~ ERROR /[/").unwrap_err().as_slice() {
        [Error::InvalidComment { line: 1, .. }] => {}
        other => panic!("unexpected findings: {other:?}"),
    }
}

#[test]
fn matching_consumes_first_occurrence_only() {
    let content = b"dup(); //~ ERROR duplicate\n//~^ ERROR duplicate";
    let comments = Comments::parse(content).unwrap();
    let config = ready_config();
    // Two identical diagnostics on line 1; both annotations anchor there.
    let messages = vec![vec![
        msg(Level::Error, b"duplicate thing"),
        msg(Level::Error, b"duplicate thing"),
    ]];
    let mut errors = Vec::new();
    check_annotations(
        messages,
        Vec::new(),
        b"t/f.rs",
        &mut errors,
        &config,
        b"",
        &comments,
    );
    assert_eq!(errors, Vec::new());
}

#[test]
fn pipe_anchor_reuses_previous_line() {
    let content = b"bad();\n//~^ ERROR first\n//~| ERROR second";
    let comments = Comments::parse(content).unwrap();
    let config = ready_config();
    // Both annotations anchor to line 1.
    let messages = vec![vec![
        msg(Level::Error, b"first issue"),
        msg(Level::Error, b"second issue"),
    ]];
    let mut errors = Vec::new();
    check_annotations(
        messages,
        Vec::new(),
        b"t/f.rs",
        &mut errors,
        &config,
        b"",
        &comments,
    );
    assert_eq!(errors, Vec::new());
}

#[test]
fn pipe_anchor_without_previous_is_invalid() {
    let err = Comments::parse(b"//~| ERROR nothing before").unwrap_err();
    assert_eq!(err.len(), 1);
    assert!(matches!(err[0], Error::InvalidComment { line: 1, .. }));
}

#[test]
fn caret_above_first_line_is_invalid() {
    let err = Comments::parse(b"//~^^ ERROR too far up").unwrap_err();
    assert_eq!(err.len(), 1);
    assert!(matches!(err[0], Error::InvalidComment { line: 1, .. }));
}

#[test]
fn level_tokens_are_case_insensitive() {
    let content = b"x(); //~ error lowercase works";
    let comments = Comments::parse(content).unwrap();
    let config = ready_config();
    let messages = vec![vec![msg(Level::Error, b"lowercase works indeed")]];
    let mut errors = Vec::new();
    check_annotations(
        messages,
        Vec::new(),
        b"t/f.rs",
        &mut errors,
        &config,
        b"",
        &comments,
    );
    assert_eq!(errors, Vec::new());
}

#[test]
fn missing_level_defaults_to_error() {
    let content = b"x(); //~ some problem";
    let comments = Comments::parse(content).unwrap();
    let config = ready_config();
    let messages = vec![vec![msg(Level::Error, b"some problem here")]];
    let mut errors = Vec::new();
    check_annotations(
        messages,
        Vec::new(),
        b"t/f.rs",
        &mut errors,
        &config,
        b"",
        &comments,
    );
    assert_eq!(errors, Vec::new());
}

#[test]
fn env_vars_and_normalize_directives() {
    let content =
        b"//@ rustc-env: RUST_BACKTRACE=1 OTHER=two\n//@ normalize-stderr-test: \"[0-9]+\" -> \"N\"";
    let comments = Comments::parse(content).unwrap();
    let config = ready_config();
    let mut errors = Vec::new();
    let cmd = build_command(b"t/f.rs", &config, b"", &comments, None, &mut errors);
    assert!(cmd
        .envs
        .contains(&(b"RUST_BACKTRACE".to_vec(), Some(b"1".to_vec()))));
    assert!(cmd.envs.contains(&(b"OTHER".to_vec(), Some(b"two".to_vec()))));

    // The per-revision filter applies after the configured ones.
    let out = normalize(
        b"t",
        b"error 123",
        None,
        &config.stderr_filters,
        &comments,
        b"",
    );
    assert_eq!(out, b"error N".to_vec());
}

#[test]
fn aux_build_directive_carries_kind() {
    let comments = Comments::parse(b"//@ aux-build: helper-a.rs crate-type=dylib").unwrap();
    let revs = comments.for_revision(b"");
    assert_eq!(revs.len(), 1);
    assert_eq!(
        revs[0].aux_builds,
        vec![(b"helper-a.rs".to_vec(), b"dylib".to_vec())]
    );
    let defaulted = Comments::parse(b"//@ aux-build: helper.rs").unwrap();
    let revs2 = defaulted.for_revision(b"");
    assert_eq!(
        revs2[0].aux_builds,
        vec![(b"helper.rs".to_vec(), b"lib".to_vec())]
    );
}

#[test]
fn host_conditions() {
    let config = ready_config();
    let on_host = Comments::parse(b"//@ only-on-host").unwrap();
    assert!(test_file_conditions(&on_host, &config, b""));
    let host_sub = Comments::parse(b"//@ ignore-host-linux").unwrap();
    assert!(!test_file_conditions(&host_sub, &config, b""));
    let host_other = Comments::parse(b"//@ ignore-host-windows").unwrap();
    assert!(test_file_conditions(&host_other, &config, b""));
}

#[test]
fn revisions_expand_and_scope_ignores() {
    let comments = Comments::parse(b"//@ revisions: fast slow\n//@[slow] ignore-64bit").unwrap();
    let revisions = ui_test::runner::expand_revisions(&comments);
    assert_eq!(revisions, vec![b"fast".to_vec(), b"slow".to_vec()]);
    let config = ready_config();
    assert!(test_file_conditions(&comments, &config, b"fast"));
    assert!(!test_file_conditions(&comments, &config, b"slow"));
}

#[test]
fn needs_asm_support_is_honored() {
    let comments = Comments::parse(b"//@ needs-asm-support").unwrap();
    let mut config = Config::stock();
    config.fill_host_and_target(b"sparc-unknown-linux-gnu".to_vec());
    assert!(!test_file_conditions(&comments, &config, b""));
    let config_x86 = ready_config();
    assert!(test_file_conditions(&comments, &config_x86, b""));
}
