//! The command builder: assembles the full invocation of the program under
//! test from the configuration, the file's directives and the revision, as
//! plain data that the embedding turns into a real process.

use vstd::prelude::*;

use crate::comments::{
    Comments, RevisionedV, collect_compile_flags, collect_editions, collect_env_vars, for_rev,
    pairs_v,
};
use crate::config::{Config, ConfigV, env_overlay_v};
use crate::data::{Error, ErrorV, errors_v};
use crate::util::{
    clone_bytes, concat_map, last_index_of, push_all, rfind_byte, subvec, views_of,
};
use crate::words::{
    b_cfg_eq, b_crate_type_flag, b_edition_flag, b_emit_link, b_eq_sign, b_extern_flag,
    b_msg_edition_twice, b_out_dir_flag, w_cfg_eq, w_crate_type_flag, w_edition_flag, w_emit_link,
    w_eq_sign, w_extern_flag, w_msg_edition_twice, w_out_dir_flag,
};

verus! {

/// A fully assembled invocation: program, arguments, environment overlay.
#[derive(Debug, PartialEq, Eq)]
pub struct CommandSpec {
    pub program: Vec<u8>,
    pub args: Vec<Vec<u8>>,
    /// `None` as a value removes the variable from the environment.
    pub envs: Vec<(Vec<u8>, Option<Vec<u8>>)>,
}

/// Mathematical view of a `CommandSpec`.
pub struct CommandSpecV {
    pub program: Seq<u8>,
    pub args: Seq<Seq<u8>>,
    pub envs: Seq<(Seq<u8>, Option<Seq<u8>>)>,
}

impl View for CommandSpec {
    type V = CommandSpecV;

    open spec fn view(&self) -> CommandSpecV {
        CommandSpecV {
            program: self.program@,
            args: views_of(self.args@),
            envs: env_overlay_v(self.envs@),
        }
    }
}

/// Append clones of all entries of `src` to `dst`.
pub fn push_all_vecs(dst: &mut Vec<Vec<u8>>, src: &Vec<Vec<u8>>)
    ensures
        views_of(final(dst)@) == views_of(old(dst)@) + views_of(src@),
{
    let mut i: usize = 0;
    proof {
        assert(views_of(src@).take(0) =~= Seq::<Seq<u8>>::empty());
        assert(views_of(dst@) =~= views_of(old(dst)@) + views_of(src@).take(0));
    }
    while i < src.len()
        invariant
            i <= src@.len(),
            views_of(src@).len() == src@.len(),
            views_of(dst@) == views_of(old(dst)@) + views_of(src@).take(i as int),
        decreases src@.len() - i,
    {
        let ghost prev = dst@;
        dst.push(clone_bytes(&src[i]));
        proof {
            assert(views_of(dst@) =~= views_of(prev).push(views_of(src@)[i as int]));
            assert(views_of(src@).take(i + 1) =~= views_of(src@).take(i as int).push(
                views_of(src@)[i as int],
            ));
            assert(views_of(dst@) =~= views_of(old(dst)@) + views_of(src@).take(i + 1));
        }
        i += 1;
    }
    proof {
        assert(views_of(src@).take(src@.len() as int) =~= views_of(src@));
    }
}

/// The edition overrides of the applicable records, in order.
pub open spec fn edition_entries(rvs: Seq<RevisionedV>) -> Seq<(Seq<u8>, int)> {
    concat_map(
        rvs,
        |rv: RevisionedV|
            match rv.edition {
                Some(v) => seq![v],
                None => Seq::<(Seq<u8>, int)>::empty(),
            },
    )
}

/// The edition a revision is built with: the first override, else the
/// configured default.
pub open spec fn chosen_edition(config: ConfigV, rvs: Seq<RevisionedV>) -> Option<Seq<u8>> {
    if edition_entries(rvs).len() > 0 {
        Some(edition_entries(rvs)[0].0)
    } else {
        config.edition
    }
}

/// One `InvalidComment` per edition override beyond the first.
pub open spec fn edition_dup_errors(rvs: Seq<RevisionedV>) -> Seq<ErrorV> {
    if edition_entries(rvs).len() == 0 {
        Seq::empty()
    } else {
        edition_entries(rvs).drop_first().map_values(
            |e: (Seq<u8>, int)| ErrorV::InvalidComment { msg: w_msg_edition_twice(), line: e.1 },
        )
    }
}

/// The argument list of the main invocation, in order: the output directory,
/// the configured arguments, the file, the revision's `--cfg`, the file's
/// own flags, the chosen edition, and the configured trailing arguments.
pub open spec fn build_command_args(
    path: Seq<u8>,
    config: ConfigV,
    revision: Seq<u8>,
    rvs: Seq<RevisionedV>,
    out_dir: Option<Seq<u8>>,
) -> Seq<Seq<u8>> {
    (match out_dir {
        Some(o) => seq![w_out_dir_flag(), o],
        None => Seq::<Seq<u8>>::empty(),
    }) + config.args + seq![path] + (if revision.len() == 0 {
        Seq::<Seq<u8>>::empty()
    } else {
        seq![w_cfg_eq() + revision]
    }) + concat_map(rvs, |rv: RevisionedV| rv.compile_flags) + (match chosen_edition(config, rvs) {
        Some(e) => seq![w_edition_flag(), e],
        None => Seq::<Seq<u8>>::empty(),
    }) + config.trailing_args
}

/// The environment overlay of the main invocation: the configured overlay,
/// then the file's variables.
pub open spec fn build_command_envs(config: ConfigV, rvs: Seq<RevisionedV>) -> Seq<
    (Seq<u8>, Option<Seq<u8>>),
> {
    config.envs + concat_map(rvs, |rv: RevisionedV| rv.env_vars).map_values(
        |p: (Seq<u8>, Seq<u8>)| (p.0, Some(p.1)),
    )
}

/// Assemble the invocation for one revision of one file. A duplicate
/// `edition` directive is reported as an `InvalidComment`.
#[verifier::rlimit(60)]
pub fn build_command(
    path: &[u8],
    config: &Config,
    revision: &[u8],
    comments: &Comments,
    out_dir: Option<&Vec<u8>>,
    errors: &mut Vec<Error>,
) -> (r: CommandSpec)
    ensures
        r@.program == config@.program,
        r@.args == build_command_args(
            path@,
            config@,
            revision@,
            for_rev(comments@.revisioned, revision@),
            match out_dir {
                Some(o) => Some(o@),
                None => None,
            },
        ),
        r@.envs == build_command_envs(config@, for_rev(comments@.revisioned, revision@)),
        errors_v(final(errors)@) == errors_v(old(errors)@) + edition_dup_errors(
            for_rev(comments@.revisioned, revision@),
        ),
{
    let ghost rvs = for_rev(comments@.revisioned, revision@);
    let revs = comments.for_revision(revision);

    let mut args: Vec<Vec<u8>> = Vec::new();
    let ghost seg_out: Seq<Seq<u8>> = match out_dir {
        Some(o) => seq![w_out_dir_flag(), o@],
        None => Seq::<Seq<u8>>::empty(),
    };
    match out_dir {
        Some(o) => {
            args.push(b_out_dir_flag());
            let ghost args_0 = args@;
            args.push(clone_bytes(o));
            proof {
                assert(views_of(args@) =~= views_of(args_0).push(o@));
            }
        },
        None => {},
    }
    proof {
        assert(views_of(args@) =~= seg_out);
    }

    push_all_vecs(&mut args, &config.args);
    proof {
        assert(views_of(args@) =~= seg_out + config@.args);
    }

    let pcopy = subvec(path, 0, path.len());
    proof {
        assert(pcopy@ =~= path@);
    }
    let ghost args_a = args@;
    args.push(pcopy);
    proof {
        assert(views_of(args@) =~= views_of(args_a).push(path@));
        assert(views_of(args@) =~= seg_out + config@.args + seq![path@]);
    }

    let ghost seg_cfg: Seq<Seq<u8>> = if revision@.len() == 0 {
        Seq::<Seq<u8>>::empty()
    } else {
        seq![w_cfg_eq() + revision@]
    };
    if revision.len() > 0 {
        let mut cfg = b_cfg_eq();
        push_all(&mut cfg, revision);
        let ghost args_b = args@;
        args.push(cfg);
        proof {
            assert(views_of(args@) =~= views_of(args_b).push(w_cfg_eq() + revision@));
        }
    }
    proof {
        assert(views_of(args@) =~= seg_out + config@.args + seq![path@] + seg_cfg);
    }

    let flags = collect_compile_flags(&revs);
    push_all_vecs(&mut args, &flags);
    let ghost seg_flags = concat_map(rvs, |rv: RevisionedV| rv.compile_flags);
    proof {
        assert(views_of(args@) =~= seg_out + config@.args + seq![path@] + seg_cfg + seg_flags);
    }

    let editions = collect_editions(&revs);
    let ghost eds = edition_entries(rvs);
    proof {
        assert(eds == editions@.map_values(|e: (Vec<u8>, usize)| (e.0@, e.1 as int)));
    }
    let edition: Option<Vec<u8>> = if editions.len() > 0 {
        let mut k: usize = 1;
        proof {
            assert(eds.subrange(1, 1).map_values(
                |e: (Seq<u8>, int)| ErrorV::InvalidComment { msg: w_msg_edition_twice(), line: e.1 },
            ) =~= Seq::<ErrorV>::empty());
            assert(errors_v(errors@) =~= errors_v(old(errors)@) + eds.subrange(1, 1).map_values(
                |e: (Seq<u8>, int)| ErrorV::InvalidComment { msg: w_msg_edition_twice(), line: e.1 },
            ));
        }
        while k < editions.len()
            invariant
                1 <= k <= editions@.len(),
                eds == edition_entries(rvs),
                eds == editions@.map_values(|e: (Vec<u8>, usize)| (e.0@, e.1 as int)),
                eds.len() == editions@.len(),
                errors_v(errors@) == errors_v(old(errors)@) + eds.subrange(1, k as int).map_values(
                    |e: (Seq<u8>, int)| ErrorV::InvalidComment {
                        msg: w_msg_edition_twice(),
                        line: e.1,
                    },
                ),
            decreases editions@.len() - k,
        {
            let ghost preverr = errors@;
            errors.push(Error::InvalidComment { msg: b_msg_edition_twice(), line: editions[k].1 });
            proof {
                let ev = ErrorV::InvalidComment {
                    msg: w_msg_edition_twice(),
                    line: eds[k as int].1,
                };
                assert(errors_v(errors@) =~= errors_v(preverr).push(ev));
                assert(eds.subrange(1, k + 1) =~= eds.subrange(1, k as int).push(eds[k as int]));
                assert(eds.subrange(1, k + 1).map_values(
                    |e: (Seq<u8>, int)| ErrorV::InvalidComment {
                        msg: w_msg_edition_twice(),
                        line: e.1,
                    },
                ) =~= eds.subrange(1, k as int).map_values(
                    |e: (Seq<u8>, int)| ErrorV::InvalidComment {
                        msg: w_msg_edition_twice(),
                        line: e.1,
                    },
                ).push(ev));
                assert(errors_v(errors@) =~= errors_v(old(errors)@) + eds.subrange(
                    1,
                    k + 1,
                ).map_values(
                    |e: (Seq<u8>, int)| ErrorV::InvalidComment {
                        msg: w_msg_edition_twice(),
                        line: e.1,
                    },
                ));
            }
            k += 1;
        }
        proof {
            assert(eds.subrange(1, eds.len() as int) =~= eds.drop_first());
        }
        Some(clone_bytes(&editions[0].0))
    } else {
        proof {
            assert(edition_dup_errors(rvs) == Seq::<ErrorV>::empty());
            assert(errors_v(errors@) =~= errors_v(old(errors)@) + edition_dup_errors(rvs));
        }
        match &config.edition {
            Some(e) => Some(clone_bytes(e)),
            None => None,
        }
    };
    let ghost seg_ed: Seq<Seq<u8>> = match chosen_edition(config@, rvs) {
        Some(e) => seq![w_edition_flag(), e],
        None => Seq::<Seq<u8>>::empty(),
    };
    match edition {
        Some(e) => {
            let ghost args_c = args@;
            args.push(b_edition_flag());
            let ghost args_d = args@;
            args.push(e);
            proof {
                assert(views_of(args_d) =~= views_of(args_c).push(w_edition_flag()));
                assert(views_of(args@) =~= views_of(args_d).push(
                    chosen_edition(config@, rvs)->Some_0,
                ));
            }
        },
        None => {},
    }
    proof {
        assert(views_of(args@) =~= seg_out + config@.args + seq![path@] + seg_cfg + seg_flags
            + seg_ed);
    }

    push_all_vecs(&mut args, &config.trailing_args);
    proof {
        assert(views_of(args@) =~= seg_out + config@.args + seq![path@] + seg_cfg + seg_flags
            + seg_ed + config@.trailing_args);
        assert(views_of(args@) =~= build_command_args(
            path@,
            config@,
            revision@,
            rvs,
            match out_dir {
                Some(o) => Some(o@),
                None => None,
            },
        ));
    }

    let mut envs: Vec<(Vec<u8>, Option<Vec<u8>>)> = Vec::new();
    let mut i: usize = 0;
    proof {
        assert(env_overlay_v(envs@) =~= env_overlay_v(config.envs@).take(0));
    }
    while i < config.envs.len()
        invariant
            i <= config.envs@.len(),
            env_overlay_v(envs@) == env_overlay_v(config.envs@).take(i as int),
            env_overlay_v(config.envs@).len() == config.envs@.len(),
        decreases config.envs@.len() - i,
    {
        let entry = &config.envs[i];
        let val = match &entry.1 {
            Some(v) => Some(clone_bytes(v)),
            None => None,
        };
        let ghost prev = envs@;
        envs.push((clone_bytes(&entry.0), val));
        proof {
            assert(env_overlay_v(envs@) =~= env_overlay_v(prev).push(
                env_overlay_v(config.envs@)[i as int],
            ));
            assert(env_overlay_v(config.envs@).take(i + 1) =~= env_overlay_v(
                config.envs@,
            ).take(i as int).push(env_overlay_v(config.envs@)[i as int]));
        }
        i += 1;
    }
    proof {
        assert(env_overlay_v(config.envs@).take(config.envs@.len() as int) =~= env_overlay_v(
            config.envs@,
        ));
        assert(env_overlay_v(envs@) =~= config@.envs);
    }

    let vars = collect_env_vars(&revs);
    let ghost varsv = concat_map(rvs, |rv: RevisionedV| rv.env_vars);
    let mut j: usize = 0;
    proof {
        assert(varsv == pairs_v(vars@));
        assert(env_overlay_v(envs@) =~= config@.envs + varsv.take(0).map_values(
            |p: (Seq<u8>, Seq<u8>)| (p.0, Some(p.1)),
        ));
    }
    while j < vars.len()
        invariant
            j <= vars@.len(),
            varsv == pairs_v(vars@),
            varsv.len() == vars@.len(),
            env_overlay_v(envs@) == config@.envs + varsv.take(j as int).map_values(
                |p: (Seq<u8>, Seq<u8>)| (p.0, Some(p.1)),
            ),
        decreases vars@.len() - j,
    {
        let entry = &vars[j];
        let ghost prev = envs@;
        envs.push((clone_bytes(&entry.0), Some(clone_bytes(&entry.1))));
        proof {
            assert(env_overlay_v(envs@) =~= env_overlay_v(prev).push(
                (varsv[j as int].0, Some(varsv[j as int].1)),
            ));
            assert(varsv.take(j + 1) =~= varsv.take(j as int).push(varsv[j as int]));
            assert(varsv.take(j + 1).map_values(|p: (Seq<u8>, Seq<u8>)| (p.0, Some(p.1)))
                =~= varsv.take(j as int).map_values(|p: (Seq<u8>, Seq<u8>)| (p.0, Some(p.1))).push(
                (varsv[j as int].0, Some(varsv[j as int].1)),
            ));
            assert(env_overlay_v(envs@) =~= config@.envs + varsv.take(j + 1).map_values(
                |p: (Seq<u8>, Seq<u8>)| (p.0, Some(p.1)),
            ));
        }
        j += 1;
    }
    proof {
        assert(varsv.take(varsv.len() as int) =~= varsv);
        assert(env_overlay_v(envs@) =~= build_command_envs(config@, rvs));
    }

    CommandSpec { program: clone_bytes(&config.program), args, envs }
}

/// Where the file name of a `/`-separated path begins.
pub open spec fn name_start(p: Seq<u8>) -> int {
    last_index_of(p, 47) + 1
}

/// Where the stem of a `/`-separated path ends: before the last `.` of the
/// file name, unless that `.` leads the name or there is none.
pub open spec fn stem_end(p: Seq<u8>) -> int {
    let d = last_index_of(p.skip(name_start(p)), 46);
    if d > 0 {
        name_start(p) + d
    } else {
        p.len() as int
    }
}

/// A path without its extension.
pub open spec fn without_ext(p: Seq<u8>) -> Seq<u8> {
    p.take(stem_end(p))
}

/// The file stem of a path: the name without directory and extension.
pub open spec fn file_stem(p: Seq<u8>) -> Seq<u8> {
    p.subrange(name_start(p), stem_end(p))
}

/// Compute the end of a path's stem.
fn stem_end_index(path: &[u8]) -> (r: usize)
    ensures
        r as int == stem_end(path@),
        name_start(path@) <= r <= path@.len(),
{
    let plen: usize = path.len();
    let start: usize = match rfind_byte(path, 47) {
        Some(i) => {
            proof {
                assert(i < plen);
            }
            i + 1
        },
        None => 0,
    };
    let name = subvec(path, start, path.len());
    proof {
        assert(name@ =~= path@.skip(start as int));
    }
    match rfind_byte(name.as_slice(), 46) {
        Some(d) => {
            if d > 0 {
                proof {
                    assert(d < name@.len());
                }
                start + d
            } else {
                path.len()
            }
        },
        None => path.len(),
    }
}

/// Strip a path's extension.
pub fn without_extension(path: &[u8]) -> (r: Vec<u8>)
    ensures
        r@ == without_ext(path@),
{
    let end = stem_end_index(path);
    subvec(path, 0, end)
}

/// Two path pieces joined with `/`; an empty base gives the piece itself.
pub open spec fn path_join(a: Seq<u8>, b: Seq<u8>) -> Seq<u8> {
    if a.len() == 0 {
        b
    } else {
        a + seq![47u8] + b
    }
}

/// Join two path pieces.
pub fn join_paths(a: &[u8], b: &[u8]) -> (r: Vec<u8>)
    ensures
        r@ == path_join(a@, b@),
{
    if a.len() == 0 {
        subvec(b, 0, b.len())
    } else {
        let mut out = subvec(a, 0, a.len());
        out.push(47);
        push_all(&mut out, b);
        proof {
            assert(out@ =~= a@ + seq![47u8] + b@);
        }
        out
    }
}

/// The directory auxiliary artifacts of this test are built into: the
/// configured output directory (or nothing) joined with the test path minus
/// its extension, so that parallel tests never collide.
pub open spec fn aux_out_dir_spec(out_dir: Option<Seq<u8>>, path: Seq<u8>) -> Seq<u8> {
    path_join(
        match out_dir {
            Some(o) => o,
            None => Seq::empty(),
        },
        without_ext(path),
    )
}

/// Compute the auxiliary output directory of one test.
pub fn aux_out_dir(out_dir: Option<&Vec<u8>>, path: &[u8]) -> (r: Vec<u8>)
    ensures
        r@ == aux_out_dir_spec(
            match out_dir {
                Some(o) => Some(o@),
                None => None,
            },
            path@,
        ),
{
    let stem = without_extension(path);
    match out_dir {
        Some(o) => join_paths(o.as_slice(), stem.as_slice()),
        None => {
            let empty: Vec<u8> = Vec::new();
            join_paths(empty.as_slice(), stem.as_slice())
        },
    }
}

/// Every `-` becomes `_`, as crate names demand.
pub open spec fn dash_underscore(s: Seq<u8>) -> Seq<u8> {
    s.map_values(
        |b: u8|
            if b == 45 {
                95u8
            } else {
                b
            },
    )
}

/// The crate name of an auxiliary file: its stem with `-` turned into `_`.
pub fn aux_crate_name(aux: &[u8]) -> (r: Vec<u8>)
    ensures
        r@ == dash_underscore(file_stem(aux@)),
{
    let plen: usize = aux.len();
    let start: usize = match rfind_byte(aux, 47) {
        Some(i) => {
            proof {
                assert(i < plen);
            }
            i + 1
        },
        None => 0,
    };
    let end = stem_end_index(aux);
    proof {
        assert(start as int == name_start(aux@));
    }
    let mut out: Vec<u8> = Vec::new();
    let mut i: usize = start;
    while i < end
        invariant
            start <= i <= end,
            end as int == stem_end(aux@),
            start as int == name_start(aux@),
            end <= aux@.len(),
            out@ == aux@.subrange(start as int, i as int).map_values(
                |b: u8|
                    if b == 45 {
                        95u8
                    } else {
                        b
                    },
            ),
        decreases end - i,
    {
        let b = aux[i];
        if b == 45 {
            out.push(95);
        } else {
            out.push(b);
        }
        proof {
            assert(aux@.subrange(start as int, i + 1) =~= aux@.subrange(
                start as int,
                i as int,
            ).push(aux@[i as int]));
            assert(out@ =~= aux@.subrange(start as int, i + 1).map_values(
                |b: u8|
                    if b == 45 {
                        95u8
                    } else {
                        b
                    },
            ));
        }
        i += 1;
    }
    proof {
        assert(out@ =~= dash_underscore(file_stem(aux@)));
    }
    out
}

/// The `--extern` arguments that thread one auxiliary build's artifacts into
/// the main invocation: for each artifact file name, `--extern` and
/// `name=dir/file`, where `name` is the auxiliary's crate name.
pub open spec fn extern_args_spec(aux: Seq<u8>, out_dir: Seq<u8>, files: Seq<Seq<u8>>) -> Seq<
    Seq<u8>,
> {
    concat_map(
        files,
        |f: Seq<u8>| seq![w_extern_flag(), dash_underscore(file_stem(aux)) + w_eq_sign() + path_join(out_dir, f)],
    )
}

/// Build the `--extern` arguments for one auxiliary build.
pub fn extern_args_for_aux(aux: &[u8], out_dir: &[u8], files: &Vec<Vec<u8>>) -> (r: Vec<Vec<u8>>)
    ensures
        views_of(r@) == extern_args_spec(aux@, out_dir@, views_of(files@)),
{
    let ghost fv = views_of(files@);
    let ghost g = |f: Seq<u8>| seq![w_extern_flag(), dash_underscore(file_stem(aux@)) + w_eq_sign() + path_join(out_dir@, f)];
    let name = aux_crate_name(aux);
    let mut out: Vec<Vec<u8>> = Vec::new();
    let mut i: usize = 0;
    proof {
        assert(fv.take(0) =~= Seq::<Seq<u8>>::empty());
        assert(views_of(out@) =~= concat_map(fv.take(0), g));
    }
    while i < files.len()
        invariant
            i <= files@.len(),
            fv == views_of(files@),
            fv.len() == files@.len(),
            name@ == dash_underscore(file_stem(aux@)),
            g == (|f: Seq<u8>| seq![w_extern_flag(), dash_underscore(file_stem(aux@)) + w_eq_sign() + path_join(out_dir@, f)]),
            views_of(out@) == concat_map(fv.take(i as int), g),
        decreases files@.len() - i,
    {
        proof {
            assert(fv.take(i + 1) =~= fv.take(i as int).push(fv[i as int]));
            crate::util::lemma_concat_map_snoc(fv.take(i as int), fv[i as int], g);
        }
        let ghost prev = out@;
        out.push(b_extern_flag());
        let full = join_paths(out_dir, files[i].as_slice());
        let mut spec_arg = clone_bytes(&name);
        push_all(&mut spec_arg, b_eq_sign().as_slice());
        push_all(&mut spec_arg, full.as_slice());
        let ghost prev2 = out@;
        out.push(spec_arg);
        proof {
            assert(views_of(out@) =~= views_of(prev).push(w_extern_flag()).push(
                dash_underscore(file_stem(aux@)) + w_eq_sign() + path_join(out_dir@, fv[i as int]),
            ));
            assert(concat_map(fv.take(i as int), g) + g(fv[i as int]) =~= concat_map(
                fv.take(i as int),
                g,
            ).push(w_extern_flag()).push(
                dash_underscore(file_stem(aux@)) + w_eq_sign() + path_join(out_dir@, fv[i as int]),
            ));
            assert(views_of(out@) =~= concat_map(fv.take(i + 1), g));
        }
        i += 1;
    }
    proof {
        assert(fv.take(fv.len() as int) =~= fv);
    }
    out
}

impl CommandSpec {
    /// Turn an invocation into an auxiliary build: emit a linked artifact of
    /// the given crate kind.
    pub fn make_aux_build(&mut self, kind: &[u8])
        ensures
            final(self)@.program == old(self)@.program,
            final(self)@.envs == old(self)@.envs,
            final(self)@.args == old(self)@.args + seq![
                w_crate_type_flag(),
                kind@,
                w_emit_link(),
            ],
    {
        self.args.push(b_crate_type_flag());
        let kcopy = subvec(kind, 0, kind.len());
        proof {
            assert(kcopy@ =~= kind@);
        }
        let ghost a1 = self.args@;
        self.args.push(kcopy);
        let ghost a2 = self.args@;
        self.args.push(b_emit_link());
        proof {
            assert(views_of(a1) =~= views_of(old(self).args@).push(w_crate_type_flag()));
            assert(views_of(a2) =~= views_of(a1).push(kind@));
            assert(views_of(self.args@) =~= views_of(a2).push(w_emit_link()));
            assert(views_of(self.args@) =~= views_of(old(self).args@) + seq![
                w_crate_type_flag(),
                kind@,
                w_emit_link(),
            ]);
        }
    }

    /// Append extra arguments.
    pub fn push_args(&mut self, extra: &Vec<Vec<u8>>)
        ensures
            final(self)@.program == old(self)@.program,
            final(self)@.envs == old(self)@.envs,
            final(self)@.args == old(self)@.args + views_of(extra@),
    {
        push_all_vecs(&mut self.args, extra);
    }
}

} // verus!
