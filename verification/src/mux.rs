//! The process launcher.
//!
//! Invoked under another executable's name, the multiplexer resolves
//! that executable within a toolchain and re-executes it with an
//! environment that keeps nested invocations on the same toolchain.
//! This module builds the invocation — program, arguments and
//! environment entries — as plain values; spawning is left to the
//! surrounding binary.

use vstd::prelude::*;

use crate::config::{Config, Context};
use crate::resolve::{
    resolves_core_lib, resolves_executable, resolves_home, start_name, try_get_core_lib,
    try_get_executable, try_get_toolchain_home, FsState, ResolveError,
};
use crate::strutil::{find_last_char, str_eq};

verus! {

/// The last `/`-separated component of a path.
pub open spec fn last_component(s: Seq<char>) -> Seq<char> {
    match s.index_of_last('/') {
        None => s,
        Some(i) => s.skip(i + 1),
    }
}

/// The file stem of a path: the last component with the extension after
/// its last dot removed.  A dot at the start of the component marks a
/// hidden file, not an extension.  A path without a proper last
/// component has no stem.
pub open spec fn spec_file_stem(s: Seq<char>) -> Option<Seq<char>> {
    let f = last_component(s);
    if f.len() == 0 || f == "."@ || f == ".."@ {
        None
    } else {
        match f.index_of_last('.') {
            Some(p) => if p > 0 {
                Some(f.take(p))
            } else {
                Some(f)
            },
            None => Some(f),
        }
    }
}

/// The executable name that the program was invoked under: the file
/// stem of its first argument.
pub fn extract_arg0_executable_name(arg0: &str) -> (r: Option<String>)
    ensures
        match r {
            Some(n) => spec_file_stem(arg0@) == Some(n@),
            None => spec_file_stem(arg0@) is None,
        },
{
    let n = arg0.unicode_len();
    let fname = match find_last_char(arg0, '/') {
        Some(i) => {
            proof {
                arg0@.index_of_last_ensures('/');
                if arg0@.index_of_last('/') is None {
                    assert(arg0@[i as int] == '/');
                }
                match arg0@.index_of_last('/') {
                    Some(k) => {
                        if k < i as int {
                            assert(arg0@[i as int] != '/');
                        }
                        if k > i as int {
                            assert(arg0@[k] != '/');
                        }
                    },
                    None => {},
                }
                assert(arg0@.subrange(i + 1, n as int) =~= arg0@.skip(i + 1));
            }
            arg0.substring_char(i + 1, n)
        },
        None => {
            proof {
                arg0@.index_of_last_ensures('/');
            }
            arg0
        },
    };
    proof {
        reveal_strlit(".");
        reveal_strlit("..");
    }
    let m = fname.unicode_len();
    if m == 0 || str_eq(fname, ".") || str_eq(fname, "..") {
        return None;
    }
    match find_last_char(fname, '.') {
        Some(p) => {
            proof {
                fname@.index_of_last_ensures('.');
                if fname@.index_of_last('.') is None {
                    assert(fname@[p as int] == '.');
                }
                match fname@.index_of_last('.') {
                    Some(k) => {
                        if k < p as int {
                            assert(fname@[p as int] != '.');
                        }
                        if k > p as int {
                            assert(fname@[k] != '.');
                        }
                    },
                    None => {},
                }
            }
            if p > 0 {
                let stem = fname.substring_char(0, p);
                proof {
                    assert(fname@.subrange(0, p as int) =~= fname@.take(p as int));
                }
                Some(stem.to_owned())
            } else {
                Some(fname.to_owned())
            }
        },
        None => {
            proof {
                fname@.index_of_last_ensures('.');
            }
            Some(fname.to_owned())
        },
    }
}

/// The toolchain named by a leading `+toolchain` argument, if present.
pub fn toolchain_arg(argv: &Vec<String>) -> (r: Option<String>)
    ensures
        match r {
            Some(t) => argv@.len() > 0 && argv@[0]@.len() > 0 && argv@[0]@[0] == '+' && t@
                == argv@[0]@.skip(1),
            None => argv@.len() == 0 || argv@[0]@.len() == 0 || argv@[0]@[0] != '+',
        },
{
    if argv.len() == 0 {
        return None;
    }
    let first = &argv[0];
    let s = first.as_str();
    let n = s.unicode_len();
    if n == 0 {
        return None;
    }
    if s.get_char(0) == '+' {
        let rest = s.substring_char(1, n);
        proof {
            assert(s@.subrange(1, n as int) =~= s@.skip(1));
        }
        Some(rest.to_owned())
    } else {
        None
    }
}

/// The exit code the launcher propagates: the child's own code, or a
/// fixed fallback when the child was ended by a signal.
pub fn exit_code_for(code: Option<i32>) -> (r: i32)
    ensures
        match code {
            Some(c) => r == c,
            None => r == 1,
        },
{
    match code {
        Some(c) => c,
        None => 1,
    }
}

/// A child-process invocation: the program to run, its arguments, and
/// the environment entries to set on it.
pub struct Invocation {
    pub program: String,
    pub args: Vec<String>,
    pub env: Vec<(String, String)>,
}

/// The environment entries a launched child receives: the home
/// directory, the active toolchain when one was requested, the resolved
/// toolchain home, and — unless the caller's environment already sets
/// it — the resolved support-library root.
pub open spec fn env_entries_ok(
    cfg: Config,
    ctx: Context,
    fsv: Set<Seq<char>>,
    toolchain: Option<&str>,
    core_override_present: bool,
    v: Seq<(String, String)>,
) -> bool {
    let k: int = if toolchain is Some {
        1
    } else {
        0
    };
    let m: int = if core_override_present {
        0
    } else {
        1
    };
    &&& v.len() == 2 + k + m
    &&& v[0].0@ == "LUNIK_HOME"@ && v[0].1@ == ctx.home@
    &&& (toolchain matches Some(t) ==> v[1].0@ == "LUNIK_TOOLCHAIN"@ && v[1].1@ == t@)
    &&& v[1 + k].0@ == "MOON_HOME"@ && resolves_home(
        cfg,
        ctx,
        start_name(cfg, toolchain),
        Ok(v[1 + k].1),
    )
    &&& (!core_override_present ==> v[2 + k].0@ == "MOON_CORE_OVERRIDE"@ && resolves_core_lib(
        cfg,
        ctx,
        fsv,
        start_name(cfg, toolchain),
        Ok(v[2 + k].1),
    ))
}

/// Builds the environment entries for a child process.  The caller
/// reports whether its own environment already carries the
/// support-library override; if so, that setting is respected and no
/// entry is added for it.
pub fn configure_cmd_environment(
    cfg: &Config,
    ctx: &Context,
    fs: &FsState,
    toolchain: Option<&str>,
    core_override_present: bool,
) -> (r: Result<Vec<(String, String)>, ResolveError>)
    ensures
        match r {
            Ok(v) => env_entries_ok(*cfg, *ctx, fs@, toolchain, core_override_present, v@),
            Err(e) => resolves_home(*cfg, *ctx, start_name(*cfg, toolchain), Err(e))
                || resolves_core_lib(*cfg, *ctx, fs@, start_name(*cfg, toolchain), Err(e)),
        },
{
    let moon_home = match try_get_toolchain_home(cfg, ctx, toolchain) {
        Ok(h) => h,
        Err(e) => {
            return Err(e);
        },
    };
    let mut v: Vec<(String, String)> = Vec::new();
    v.push(("LUNIK_HOME".to_owned(), ctx.home.clone()));
    match toolchain {
        Some(t) => {
            v.push(("LUNIK_TOOLCHAIN".to_owned(), t.to_owned()));
        },
        None => {},
    }
    v.push(("MOON_HOME".to_owned(), moon_home));
    if !core_override_present {
        let core = match try_get_core_lib(cfg, ctx, fs, toolchain) {
            Ok(c) => c,
            Err(e) => {
                return Err(e);
            },
        };
        v.push(("MOON_CORE_OVERRIDE".to_owned(), core));
    }
    Ok(v)
}

/// Builds the full invocation of an executable within a toolchain: the
/// resolved program path, the given arguments, and the child
/// environment.
pub fn executable_entry(
    cfg: &Config,
    ctx: &Context,
    fs: &FsState,
    toolchain: Option<&str>,
    executable_name: &str,
    args: Vec<String>,
    core_override_present: bool,
) -> (r: Result<Invocation, ResolveError>)
    ensures
        match r {
            Ok(inv) => {
                &&& resolves_executable(
                    *cfg,
                    *ctx,
                    fs@,
                    start_name(*cfg, toolchain),
                    executable_name@,
                    Ok(inv.program),
                )
                &&& env_entries_ok(
                    *cfg,
                    *ctx,
                    fs@,
                    toolchain,
                    core_override_present,
                    inv.env@,
                )
                &&& inv.args@ == args@
            },
            Err(e) => resolves_executable(
                *cfg,
                *ctx,
                fs@,
                start_name(*cfg, toolchain),
                executable_name@,
                Err(e),
            ) || resolves_home(*cfg, *ctx, start_name(*cfg, toolchain), Err(e))
                || resolves_core_lib(*cfg, *ctx, fs@, start_name(*cfg, toolchain), Err(e)),
        },
{
    let program = match try_get_executable(cfg, ctx, fs, toolchain, executable_name) {
        Ok(p) => p,
        Err(e) => {
            return Err(e);
        },
    };
    let env = match configure_cmd_environment(cfg, ctx, fs, toolchain, core_override_present) {
        Ok(v) => v,
        Err(e) => {
            return Err(e);
        },
    };
    Ok(Invocation { program, args, env })
}

/// Builds the invocation that compiles a freshly installed channel's
/// support library: the channel's own build tool, run in bundling mode
/// over the library directory.
pub fn run_bundle_core(
    cfg: &Config,
    ctx: &Context,
    fs: &FsState,
    channel_name: &str,
    core_dir: &str,
    core_override_present: bool,
) -> (r: Result<Invocation, ResolveError>)
    ensures
        match r {
            Ok(inv) => {
                &&& resolves_executable(
                    *cfg,
                    *ctx,
                    fs@,
                    channel_name@,
                    "moon"@,
                    Ok(inv.program),
                )
                &&& env_entries_ok(
                    *cfg,
                    *ctx,
                    fs@,
                    Some(channel_name),
                    core_override_present,
                    inv.env@,
                )
                &&& inv.args@.len() == 4
                &&& inv.args@[0]@ == "bundle"@
                &&& inv.args@[1]@ == "--all"@
                &&& inv.args@[2]@ == "--source-dir"@
                &&& inv.args@[3]@ == core_dir@
            },
            Err(e) => resolves_executable(*cfg, *ctx, fs@, channel_name@, "moon"@, Err(e))
                || resolves_home(*cfg, *ctx, channel_name@, Err(e)) || resolves_core_lib(
                *cfg,
                *ctx,
                fs@,
                channel_name@,
                Err(e),
            ),
        },
{
    let mut args: Vec<String> = Vec::new();
    args.push("bundle".to_owned());
    args.push("--all".to_owned());
    args.push("--source-dir".to_owned());
    args.push(core_dir.to_owned());
    executable_entry(cfg, ctx, fs, Some(channel_name), "moon", args, core_override_present)
}

} // verus!
