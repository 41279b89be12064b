//! The run-wide configuration: which program to run, with which arguments
//! and environment, where the tests live, and how output conflicts are
//! handled.

use vstd::prelude::*;

use crate::data::{Filter, Match, MatchV, Mode, OutputConflictHandling};
use crate::rx::{RegexPattern, regex_valid};
use crate::util::{contains_seq, views_of};
use crate::words::{
    b_aarch64, b_arm, b_build, b_cargo, b_ed2021, b_error_format_json, b_riscv32, b_riscv64,
    b_rustc, b_x86, b_x86_64, w_aarch64, w_arm, w_build, w_cargo, w_ed2021, w_error_format_json,
    w_riscv32, w_riscv64, w_rustc, w_x86, w_x86_64,
};

verus! {

/// The program that builds the test dependencies (a `cargo`-like tool).
#[derive(Debug, PartialEq, Eq)]
pub struct DependencyBuilder {
    /// Path of the builder binary.
    pub program: Vec<u8>,
    /// Arguments handed to it.
    pub args: Vec<Vec<u8>>,
    /// Environment set for it.
    pub envs: Vec<(Vec<u8>, Vec<u8>)>,
}

/// Mathematical view of a `DependencyBuilder`.
pub struct DependencyBuilderV {
    pub program: Seq<u8>,
    pub args: Seq<Seq<u8>>,
    pub envs: Seq<(Seq<u8>, Seq<u8>)>,
}

impl View for DependencyBuilder {
    type V = DependencyBuilderV;

    open spec fn view(&self) -> DependencyBuilderV {
        DependencyBuilderV {
            program: self.program@,
            args: views_of(self.args@),
            envs: crate::comments::pairs_v(self.envs@),
        }
    }
}

impl DependencyBuilder {
    /// The stock builder: a program named `cargo`, asked to `build`.
    ///
    /// An embedding that wants the builder named by its environment swaps
    /// the program in afterwards.
    pub fn stock() -> (r: DependencyBuilder)
        ensures
            r@.program == w_cargo(),
            r@.args == seq![w_build()],
            r@.envs == Seq::<(Seq<u8>, Seq<u8>)>::empty(),
    {
        let mut args: Vec<Vec<u8>> = Vec::new();
        args.push(b_build());
        let r = DependencyBuilder { program: b_cargo(), args, envs: Vec::new() };
        proof {
            assert(r@.args =~= seq![w_build()]);
            assert(r@.envs =~= Seq::<(Seq<u8>, Seq<u8>)>::empty());
        }
        r
    }
}

impl Default for DependencyBuilder {
    /// Same as `stock`.
    fn default() -> (r: DependencyBuilder)
        ensures
            r@.program == w_cargo(),
            r@.args == seq![w_build()],
            r@.envs == Seq::<(Seq<u8>, Seq<u8>)>::empty(),
    {
        DependencyBuilder::stock()
    }
}

/// Central data structure holding everything needed to run the tests.
#[derive(Debug, PartialEq, Eq)]
pub struct Config {
    /// Arguments passed to the program under test, before the file name.
    pub args: Vec<Vec<u8>>,
    /// Environment overlay; `None` as the value removes the variable.
    pub envs: Vec<(Vec<u8>, Option<Vec<u8>>)>,
    /// Arguments passed after the file-local flags.
    pub trailing_args: Vec<Vec<u8>>,
    /// Host triple; detected by the embedding when absent.
    pub host: Option<Vec<u8>>,
    /// Target triple; defaults to the host.
    pub target: Option<Vec<u8>>,
    /// Filters applied to stderr before comparing it.
    pub stderr_filters: Filter,
    /// Filters applied to stdout before comparing it.
    pub stdout_filters: Filter,
    /// Directory the test walk starts in.
    pub root_dir: Vec<u8>,
    /// Default mode for all tests.
    pub mode: Mode,
    /// The program under test.
    pub program: Vec<u8>,
    /// What to do when output differs from the golden file.
    pub output_conflict_handling: OutputConflictHandling,
    /// Only run tests whose path contains one of these substrings.
    pub path_filter: Vec<Vec<u8>>,
    /// Manifest describing dependencies available to the tests.
    pub dependencies_crate_manifest_path: Option<Vec<u8>>,
    /// The tool that builds those dependencies.
    pub dependency_builder: DependencyBuilder,
    /// Print one character per test instead of one line.
    pub quiet: bool,
    /// Worker count; at least one.
    pub num_test_threads: usize,
    /// Where build artifacts are written.
    pub out_dir: Option<Vec<u8>>,
    /// Default language edition.
    pub edition: Option<Vec<u8>>,
}

/// Mathematical view of a `Config`.
pub struct ConfigV {
    pub args: Seq<Seq<u8>>,
    pub envs: Seq<(Seq<u8>, Option<Seq<u8>>)>,
    pub trailing_args: Seq<Seq<u8>>,
    pub host: Option<Seq<u8>>,
    pub target: Option<Seq<u8>>,
    pub stderr_filters: Seq<(MatchV, Seq<u8>)>,
    pub stdout_filters: Seq<(MatchV, Seq<u8>)>,
    pub root_dir: Seq<u8>,
    pub mode: Mode,
    pub program: Seq<u8>,
    pub output_conflict_handling: OutputConflictHandling,
    pub path_filter: Seq<Seq<u8>>,
    pub dependencies_crate_manifest_path: Option<Seq<u8>>,
    pub dependency_builder: DependencyBuilderV,
    pub quiet: bool,
    pub num_test_threads: int,
    pub out_dir: Option<Seq<u8>>,
    pub edition: Option<Seq<u8>>,
}

/// The view of an optional byte vector.
pub open spec fn opt_v(o: Option<Vec<u8>>) -> Option<Seq<u8>> {
    match o {
        Some(v) => Some(v@),
        None => None,
    }
}

/// The views of an environment overlay.
pub open spec fn env_overlay_v(s: Seq<(Vec<u8>, Option<Vec<u8>>)>) -> Seq<
    (Seq<u8>, Option<Seq<u8>>),
> {
    s.map_values(|p: (Vec<u8>, Option<Vec<u8>>)| (p.0@, opt_v(p.1)))
}

impl View for Config {
    type V = ConfigV;

    open spec fn view(&self) -> ConfigV {
        ConfigV {
            args: views_of(self.args@),
            envs: env_overlay_v(self.envs@),
            trailing_args: views_of(self.trailing_args@),
            host: opt_v(self.host),
            target: opt_v(self.target),
            stderr_filters: crate::comments::filter_v(self.stderr_filters@),
            stdout_filters: crate::comments::filter_v(self.stdout_filters@),
            root_dir: self.root_dir@,
            mode: self.mode,
            program: self.program@,
            output_conflict_handling: self.output_conflict_handling,
            path_filter: views_of(self.path_filter@),
            dependencies_crate_manifest_path: opt_v(self.dependencies_crate_manifest_path),
            dependency_builder: self.dependency_builder@,
            quiet: self.quiet,
            num_test_threads: self.num_test_threads as int,
            out_dir: opt_v(self.out_dir),
            edition: opt_v(self.edition),
        }
    }
}

impl Config {
    /// The stock configuration: run `rustc` with JSON diagnostics on every
    /// file under the root, expecting failure with patterns, one worker,
    /// backslashes in stderr normalized to slashes, edition 2021.
    pub fn stock() -> (r: Config)
        ensures
            r@.args == seq![w_error_format_json()],
            r@.envs == Seq::<(Seq<u8>, Option<Seq<u8>>)>::empty(),
            r@.trailing_args == Seq::<Seq<u8>>::empty(),
            r@.host is None,
            r@.target is None,
            r@.stderr_filters == seq![(MatchV::Exact(seq![92u8]), seq![47u8])],
            r@.stdout_filters == Seq::<(MatchV, Seq<u8>)>::empty(),
            r@.root_dir == Seq::<u8>::empty(),
            r@.mode == (Mode::Fail { require_patterns: true }),
            r@.program == w_rustc(),
            r@.output_conflict_handling == OutputConflictHandling::Error,
            r@.path_filter == Seq::<Seq<u8>>::empty(),
            r@.dependencies_crate_manifest_path is None,
            r@.dependency_builder.program == w_cargo(),
            r@.dependency_builder.args == seq![w_build()],
            r@.quiet == false,
            r@.num_test_threads == 1,
            r@.out_dir is None,
            r@.edition == Some(w_ed2021()),
    {
        let mut args: Vec<Vec<u8>> = Vec::new();
        args.push(b_error_format_json());
        let mut backslash: Vec<u8> = Vec::new();
        backslash.push(92);
        let mut slash: Vec<u8> = Vec::new();
        slash.push(47);
        let mut stderr_filters: Filter = Vec::new();
        stderr_filters.push((Match::Exact(backslash), slash));
        let r = Config {
            args,
            envs: Vec::new(),
            trailing_args: Vec::new(),
            host: None,
            target: None,
            stderr_filters,
            stdout_filters: Vec::new(),
            root_dir: Vec::new(),
            mode: Mode::Fail { require_patterns: true },
            program: b_rustc(),
            output_conflict_handling: OutputConflictHandling::Error,
            path_filter: Vec::new(),
            dependencies_crate_manifest_path: None,
            dependency_builder: DependencyBuilder::stock(),
            quiet: false,
            num_test_threads: 1,
            out_dir: None,
            edition: Some(b_ed2021()),
        };
        proof {
            assert(r@.args =~= seq![w_error_format_json()]);
            assert(r@.envs =~= Seq::<(Seq<u8>, Option<Seq<u8>>)>::empty());
            assert(r@.trailing_args =~= Seq::<Seq<u8>>::empty());
            assert(r@.stderr_filters =~= seq![(MatchV::Exact(seq![92u8]), seq![47u8])]);
            assert(r@.stdout_filters =~= Seq::<(MatchV, Seq<u8>)>::empty());
            assert(r@.path_filter =~= Seq::<Seq<u8>>::empty());
        }
        r
    }

    /// Append a stderr filter that replaces a path with `replacement`.
    ///
    /// `path` must already be in canonical form; its parent directory is the
    /// needle, as paths in diagnostics name files under a directory.
    pub fn path_stderr_filter(&mut self, path: &[u8], replacement: &[u8])
        ensures
            final(self)@ == (ConfigV {
                stderr_filters: old(self)@.stderr_filters.push(
                    (
                        MatchV::Exact(
                            crate::filters::path_needle(crate::util::parent_of(path@)),
                        ),
                        replacement@,
                    ),
                ),
                ..old(self)@
            }),
    {
        let parent = crate::util::parent_dir(path);
        let needle = Match::from_path(parent.as_slice());
        let repl = crate::util::subvec(replacement, 0, replacement.len());
        proof {
            assert(repl@ =~= replacement@);
        }
        self.stderr_filters.push((needle, repl));
        proof {
            assert(self@.stderr_filters =~= old(self)@.stderr_filters.push(
                (
                    MatchV::Exact(crate::filters::path_needle(crate::util::parent_of(path@))),
                    replacement@,
                ),
            ));
        }
    }

    /// Append a stderr filter from a regex pattern; `false` when the pattern
    /// does not compile, leaving the configuration unchanged.
    pub fn stderr_filter(&mut self, pattern: &[u8], replacement: &[u8]) -> (ok: bool)
        ensures
            ok == regex_valid(pattern@),
            ok ==> final(self)@ == (ConfigV {
                stderr_filters: old(self)@.stderr_filters.push(
                    (MatchV::Regex(pattern@), replacement@),
                ),
                ..old(self)@
            }),
            !ok ==> final(self)@ == old(self)@,
    {
        let pat = crate::util::subvec(pattern, 0, pattern.len());
        proof {
            assert(pat@ =~= pattern@);
        }
        match RegexPattern::new(pat) {
            Some(re) => {
                let repl = crate::util::subvec(replacement, 0, replacement.len());
                proof {
                    assert(repl@ =~= replacement@);
                }
                self.stderr_filters.push((Match::Regex(re), repl));
                proof {
                    assert(self@.stderr_filters =~= old(self)@.stderr_filters.push(
                        (MatchV::Regex(pattern@), replacement@),
                    ));
                }
                true
            },
            None => false,
        }
    }

    /// Append a stdout filter from a regex pattern; `false` when the pattern
    /// does not compile, leaving the configuration unchanged.
    pub fn stdout_filter(&mut self, pattern: &[u8], replacement: &[u8]) -> (ok: bool)
        ensures
            ok == regex_valid(pattern@),
            ok ==> final(self)@ == (ConfigV {
                stdout_filters: old(self)@.stdout_filters.push(
                    (MatchV::Regex(pattern@), replacement@),
                ),
                ..old(self)@
            }),
            !ok ==> final(self)@ == old(self)@,
    {
        let pat = crate::util::subvec(pattern, 0, pattern.len());
        proof {
            assert(pat@ =~= pattern@);
        }
        match RegexPattern::new(pat) {
            Some(re) => {
                let repl = crate::util::subvec(replacement, 0, replacement.len());
                proof {
                    assert(repl@ =~= replacement@);
                }
                self.stdout_filters.push((Match::Regex(re), repl));
                proof {
                    assert(self@.stdout_filters =~= old(self)@.stdout_filters.push(
                        (MatchV::Regex(pattern@), replacement@),
                    ));
                }
                true
            },
            None => false,
        }
    }

    /// Fill in the host (as detected by the embedding) when unset, and let
    /// the target default to the host.
    pub fn fill_host_and_target(&mut self, detected_host: Vec<u8>)
        ensures
            final(self)@ == (ConfigV {
                host: Some(
                    match old(self)@.host {
                        Some(h) => h,
                        None => detected_host@,
                    },
                ),
                target: Some(
                    match old(self)@.target {
                        Some(t) => t,
                        None => match old(self)@.host {
                            Some(h) => h,
                            None => detected_host@,
                        },
                    },
                ),
                ..old(self)@
            }),
    {
        if self.host.is_none() {
            self.host = Some(detected_host);
        }
        if self.target.is_none() {
            match &self.host {
                Some(h) => {
                    self.target = Some(crate::util::clone_bytes(h));
                },
                None => {
                    proof {
                        assert(false);
                    }
                },
            }
        }
    }

    /// Whether the target supports inline assembly.
    pub fn has_asm_support(&self) -> (r: bool)
        requires
            self@.target is Some,
        ensures
            r == target_has_asm(self@.target->Some_0),
    {
        match &self.target {
            Some(t) => {
                let ts = t.as_slice();
                crate::util::contains_bytes(ts, b_x86().as_slice()) || crate::util::contains_bytes(
                    ts,
                    b_x86_64().as_slice(),
                ) || crate::util::contains_bytes(ts, b_arm().as_slice())
                    || crate::util::contains_bytes(ts, b_aarch64().as_slice())
                    || crate::util::contains_bytes(ts, b_riscv32().as_slice())
                    || crate::util::contains_bytes(ts, b_riscv64().as_slice())
            },
            None => {
                proof {
                    assert(false);
                }
                false
            },
        }
    }
}

impl Default for Config {
    /// Same as `stock`.
    fn default() -> (r: Config)
        ensures
            r@.args == seq![w_error_format_json()],
            r@.envs == Seq::<(Seq<u8>, Option<Seq<u8>>)>::empty(),
            r@.trailing_args == Seq::<Seq<u8>>::empty(),
            r@.host is None,
            r@.target is None,
            r@.stderr_filters == seq![(MatchV::Exact(seq![92u8]), seq![47u8])],
            r@.stdout_filters == Seq::<(MatchV, Seq<u8>)>::empty(),
            r@.root_dir == Seq::<u8>::empty(),
            r@.mode == (Mode::Fail { require_patterns: true }),
            r@.program == w_rustc(),
            r@.output_conflict_handling == OutputConflictHandling::Error,
            r@.path_filter == Seq::<Seq<u8>>::empty(),
            r@.dependencies_crate_manifest_path is None,
            r@.dependency_builder.program == w_cargo(),
            r@.dependency_builder.args == seq![w_build()],
            r@.quiet == false,
            r@.num_test_threads == 1,
            r@.out_dir is None,
            r@.edition == Some(w_ed2021()),
    {
        Config::stock()
    }
}

/// The `--extern name=artifact` argument pairs for prebuilt dependencies.
pub open spec fn extern_link_args(deps: Seq<(Seq<u8>, Seq<Seq<u8>>)>) -> Seq<Seq<u8>> {
    crate::util::concat_map(
        deps,
        |d: (Seq<u8>, Seq<Seq<u8>>)|
            crate::util::concat_map(
                d.1,
                |a: Seq<u8>| seq![crate::words::w_extern_flag(), d.0 + crate::words::w_eq_sign() + a],
            ),
    )
}

/// The `-L path` argument pairs for dependency search directories.
pub open spec fn import_link_args(paths: Seq<Seq<u8>>) -> Seq<Seq<u8>> {
    crate::util::concat_map(paths, |p: Seq<u8>| seq![crate::words::w_l_flag(), p])
}

/// The views of the prebuilt-dependency list.
pub open spec fn deps_v(deps: Seq<(Vec<u8>, Vec<Vec<u8>>)>) -> Seq<(Seq<u8>, Seq<Seq<u8>>)> {
    deps.map_values(|d: (Vec<u8>, Vec<Vec<u8>>)| (d.0@, views_of(d.1@)))
}

impl Config {
    /// Append the `--extern` and `-L` arguments that make prebuilt
    /// dependencies visible to every test. The embedding runs the
    /// dependency builder and hands the artifact names and search
    /// directories in.
    pub fn link_dependencies(
        &mut self,
        dependencies: &Vec<(Vec<u8>, Vec<Vec<u8>>)>,
        import_paths: &Vec<Vec<u8>>,
    )
        ensures
            final(self)@ == (ConfigV {
                args: old(self)@.args + extern_link_args(deps_v(dependencies@))
                    + import_link_args(views_of(import_paths@)),
                ..old(self)@
            }),
    {
        let ghost dv = deps_v(dependencies@);
        let ghost g = |d: (Seq<u8>, Seq<Seq<u8>>)|
            crate::util::concat_map(
                d.1,
                |a: Seq<u8>| seq![crate::words::w_extern_flag(), d.0 + crate::words::w_eq_sign() + a],
            );
        let mut i: usize = 0;
        proof {
            assert(dv.take(0) =~= Seq::<(Seq<u8>, Seq<Seq<u8>>)>::empty());
            assert(views_of(self.args@) =~= old(self)@.args + crate::util::concat_map(
                dv.take(0),
                g,
            ));
        }
        while i < dependencies.len()
            invariant
                i <= dependencies@.len(),
                dv == deps_v(dependencies@),
                dv.len() == dependencies@.len(),
                g == (|d: (Seq<u8>, Seq<Seq<u8>>)|
                    crate::util::concat_map(
                        d.1,
                        |a: Seq<u8>| seq![crate::words::w_extern_flag(), d.0 + crate::words::w_eq_sign() + a],
                    )),
                views_of(self.args@) == old(self)@.args + crate::util::concat_map(
                    dv.take(i as int),
                    g,
                ),
                self.envs == old(self).envs,
                self.trailing_args == old(self).trailing_args,
                self.host == old(self).host,
                self.target == old(self).target,
                self.stderr_filters == old(self).stderr_filters,
                self.stdout_filters == old(self).stdout_filters,
                self.root_dir == old(self).root_dir,
                self.mode == old(self).mode,
                self.program == old(self).program,
                self.output_conflict_handling == old(self).output_conflict_handling,
                self.path_filter == old(self).path_filter,
                self.dependencies_crate_manifest_path == old(
                    self,
                ).dependencies_crate_manifest_path,
                self.dependency_builder == old(self).dependency_builder,
                self.quiet == old(self).quiet,
                self.num_test_threads == old(self).num_test_threads,
                self.out_dir == old(self).out_dir,
                self.edition == old(self).edition,
            decreases dependencies@.len() - i,
        {
            let dep = &dependencies[i];
            let ghost h = |a: Seq<u8>| seq![crate::words::w_extern_flag(), dv[i as int].0 + crate::words::w_eq_sign() + a];
            let ghost av = views_of(dep.1@);
            let mut j: usize = 0;
            proof {
                assert(dv[i as int] == (dep.0@, views_of(dep.1@)));
                assert(av.take(0) =~= Seq::<Seq<u8>>::empty());
                assert(crate::util::concat_map(av.take(0), h) =~= Seq::<Seq<u8>>::empty());
                assert(views_of(self.args@) =~= old(self)@.args + crate::util::concat_map(
                    dv.take(i as int),
                    g,
                ) + crate::util::concat_map(av.take(0), h));
            }
            while j < dep.1.len()
                invariant
                    j <= dep.1@.len(),
                    i < dependencies@.len(),
                    dv == deps_v(dependencies@),
                    dv.len() == dependencies@.len(),
                    av == views_of(dep.1@),
                    av.len() == dep.1@.len(),
                    dv[i as int] == (dep.0@, av),
                    h == (|a: Seq<u8>| seq![crate::words::w_extern_flag(), dv[i as int].0 + crate::words::w_eq_sign() + a]),
                    g == (|d: (Seq<u8>, Seq<Seq<u8>>)|
                        crate::util::concat_map(
                            d.1,
                            |a: Seq<u8>| seq![crate::words::w_extern_flag(), d.0 + crate::words::w_eq_sign() + a],
                        )),
                    views_of(self.args@) == old(self)@.args + crate::util::concat_map(
                        dv.take(i as int),
                        g,
                    ) + crate::util::concat_map(av.take(j as int), h),
                    self.envs == old(self).envs,
                    self.trailing_args == old(self).trailing_args,
                    self.host == old(self).host,
                    self.target == old(self).target,
                    self.stderr_filters == old(self).stderr_filters,
                    self.stdout_filters == old(self).stdout_filters,
                    self.root_dir == old(self).root_dir,
                    self.mode == old(self).mode,
                    self.program == old(self).program,
                    self.output_conflict_handling == old(self).output_conflict_handling,
                    self.path_filter == old(self).path_filter,
                    self.dependencies_crate_manifest_path == old(
                        self,
                    ).dependencies_crate_manifest_path,
                    self.dependency_builder == old(self).dependency_builder,
                    self.quiet == old(self).quiet,
                    self.num_test_threads == old(self).num_test_threads,
                    self.out_dir == old(self).out_dir,
                    self.edition == old(self).edition,
                decreases dep.1@.len() - j,
            {
                let mut pair = crate::util::clone_bytes(&dep.0);
                crate::util::push_all(&mut pair, crate::words::b_eq_sign().as_slice());
                crate::util::push_all(&mut pair, dep.1[j].as_slice());
                let ghost base = self.args@;
                self.args.push(crate::words::b_extern_flag());
                self.args.push(pair);
                proof {
                    assert(pair@ =~= dv[i as int].0 + crate::words::w_eq_sign() + av[j as int]);
                    assert(views_of(self.args@) =~= views_of(base).push(
                        crate::words::w_extern_flag(),
                    ).push(dv[i as int].0 + crate::words::w_eq_sign() + av[j as int]));
                    crate::util::lemma_concat_map_snoc(av.take(j as int), av[j as int], h);
                    assert(av.take(j + 1) =~= av.take(j as int).push(av[j as int]));
                    assert(crate::util::concat_map(av.take(j as int), h) + h(av[j as int])
                        =~= crate::util::concat_map(av.take(j as int), h).push(
                        crate::words::w_extern_flag(),
                    ).push(dv[i as int].0 + crate::words::w_eq_sign() + av[j as int]));
                    assert(views_of(self.args@) =~= old(self)@.args + crate::util::concat_map(
                        dv.take(i as int),
                        g,
                    ) + crate::util::concat_map(av.take(j + 1), h));
                }
                j += 1;
            }
            proof {
                assert(av.take(av.len() as int) =~= av);
                assert(crate::util::concat_map(av, h) =~= g(dv[i as int]));
                crate::util::lemma_concat_map_snoc(dv.take(i as int), dv[i as int], g);
                assert(dv.take(i + 1) =~= dv.take(i as int).push(dv[i as int]));
                assert(views_of(self.args@) =~= old(self)@.args + crate::util::concat_map(
                    dv.take(i + 1),
                    g,
                ));
            }
            i += 1;
        }
        proof {
            assert(dv.take(dv.len() as int) =~= dv);
        }

        let ghost pv = views_of(import_paths@);
        let ghost q = |p: Seq<u8>| seq![crate::words::w_l_flag(), p];
        let mut k: usize = 0;
        proof {
            assert(pv.take(0) =~= Seq::<Seq<u8>>::empty());
            assert(views_of(self.args@) =~= old(self)@.args + extern_link_args(dv)
                + crate::util::concat_map(pv.take(0), q));
        }
        while k < import_paths.len()
            invariant
                k <= import_paths@.len(),
                dv == deps_v(dependencies@),
                pv == views_of(import_paths@),
                pv.len() == import_paths@.len(),
                q == (|p: Seq<u8>| seq![crate::words::w_l_flag(), p]),
                views_of(self.args@) == old(self)@.args + extern_link_args(dv)
                    + crate::util::concat_map(pv.take(k as int), q),
                self.envs == old(self).envs,
                self.trailing_args == old(self).trailing_args,
                self.host == old(self).host,
                self.target == old(self).target,
                self.stderr_filters == old(self).stderr_filters,
                self.stdout_filters == old(self).stdout_filters,
                self.root_dir == old(self).root_dir,
                self.mode == old(self).mode,
                self.program == old(self).program,
                self.output_conflict_handling == old(self).output_conflict_handling,
                self.path_filter == old(self).path_filter,
                self.dependencies_crate_manifest_path == old(
                    self,
                ).dependencies_crate_manifest_path,
                self.dependency_builder == old(self).dependency_builder,
                self.quiet == old(self).quiet,
                self.num_test_threads == old(self).num_test_threads,
                self.out_dir == old(self).out_dir,
                self.edition == old(self).edition,
            decreases import_paths@.len() - k,
        {
            let ghost base = self.args@;
            self.args.push(crate::words::b_l_flag());
            self.args.push(crate::util::clone_bytes(&import_paths[k]));
            proof {
                assert(views_of(self.args@) =~= views_of(base).push(crate::words::w_l_flag()).push(
                    pv[k as int],
                ));
                crate::util::lemma_concat_map_snoc(pv.take(k as int), pv[k as int], q);
                assert(pv.take(k + 1) =~= pv.take(k as int).push(pv[k as int]));
                assert(crate::util::concat_map(pv.take(k as int), q) + q(pv[k as int])
                    =~= crate::util::concat_map(pv.take(k as int), q).push(
                    crate::words::w_l_flag(),
                ).push(pv[k as int]));
                assert(views_of(self.args@) =~= old(self)@.args + extern_link_args(dv)
                    + crate::util::concat_map(pv.take(k + 1), q));
            }
            k += 1;
        }
        proof {
            assert(pv.take(pv.len() as int) =~= pv);
        }
    }
}

/// Whether a target triple names an architecture with inline-assembly
/// support.
pub open spec fn target_has_asm(target: Seq<u8>) -> bool {
    ||| contains_seq(target, w_x86())
    ||| contains_seq(target, w_x86_64())
    ||| contains_seq(target, w_arm())
    ||| contains_seq(target, w_aarch64())
    ||| contains_seq(target, w_riscv32())
    ||| contains_seq(target, w_riscv64())
}

} // verus!
