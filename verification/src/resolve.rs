//! The toolchain resolver.
//!
//! Given a starting toolchain name and a resource request, the resolver
//! walks the configuration's fallback chain until an entry satisfies the
//! request.  Names that are not configured directly are reinterpreted as
//! channel descriptors and looked up under their canonical form.  The
//! walk carries a visited set, so a cycle among fallback pointers is
//! reported as an error instead of looping forever.
//!
//! Whether a file exists on disk is not something this module can see;
//! resolution over the real filesystem therefore takes the set of
//! existing candidate paths as an explicit argument, and the surrounding
//! binary gathers that set by probing the candidate paths the walk
//! produces.

use vstd::prelude::*;

use crate::channel::{
    lemma_parse_default_host, lemma_parse_render_roundtrip, spec_parse_err, Channel, ParseError,
};
use crate::config::{
    joined, spec_toolchain_path, toolchain_path, Config, Context, Platform, ToolchainInfo,
};
use crate::strutil::{ends_with, has_suffix, seq_views, vec_contains_str};

verus! {

/// The canonical form of a toolchain name read as a channel descriptor:
/// the name itself when it carries an explicit host, the name with the
/// default host appended when it does not, and nothing when the name is
/// no valid channel descriptor.
pub open spec fn spec_canonical(s: Seq<char>, dos: Seq<char>, darch: Seq<char>) -> Option<
    Seq<char>,
> {
    if spec_parse_err(s) is Some {
        None
    } else if s.index_of_first('-') is Some {
        Some(s)
    } else {
        Some(s + "-"@ + dos + "-"@ + darch)
    }
}

/// The configured toolchain entry that a requested name denotes: the
/// name itself when configured directly, else its canonical channel
/// form when that is configured, else nothing.
pub open spec fn spec_resolved_name(
    cfg: Config,
    dos: Seq<char>,
    darch: Seq<char>,
    name: Seq<char>,
) -> Option<Seq<char>> {
    if cfg.toolchain@.contains_key(name) {
        Some(name)
    } else {
        match spec_canonical(name, dos, darch) {
            Some(cn) => if cfg.toolchain@.contains_key(cn) {
                Some(cn)
            } else {
                None
            },
            None => None,
        }
    }
}

/// Looks a toolchain name up, reinterpreting it as a channel descriptor
/// when it is not configured directly.
fn lookup_toolchain(cfg: &Config, ctx: &Context, name: &str) -> (r: Option<String>)
    ensures
        match r {
            Some(n) => spec_resolved_name(*cfg, ctx.host.os@, ctx.host.arch@, name@) == Some(n@)
                && cfg.toolchain@.contains_key(n@),
            None => spec_resolved_name(*cfg, ctx.host.os@, ctx.host.arch@, name@) is None,
        },
{
    if cfg.toolchain.contains_key(name) {
        Some(name.to_owned())
    } else {
        match Channel::parse(name, &ctx.host) {
            Err(_) => None,
            Ok(ch) => {
                let canon = ch.to_string();
                proof {
                    if name@.index_of_first('-') is Some {
                        lemma_parse_render_roundtrip(name@, ch, ctx.host.os@, ctx.host.arch@);
                    } else {
                        lemma_parse_default_host(name@, ch, ctx.host.os@, ctx.host.arch@);
                    }
                }
                if cfg.toolchain.contains_key(canon.as_str()) {
                    Some(canon)
                } else {
                    None
                }
            },
        }
    }
}

/// The name under which a requested toolchain would be recorded: the
/// name itself when it is configured directly, else the canonical form
/// of the channel descriptor it spells.
pub fn real_toolchain_name(cfg: &Config, ctx: &Context, toolchain_name: &str) -> (r: Result<
    String,
    ParseError,
>)
    ensures
        match r {
            Ok(n) => {
                if cfg.toolchain@.contains_key(toolchain_name@) {
                    n@ == toolchain_name@
                } else {
                    spec_canonical(toolchain_name@, ctx.host.os@, ctx.host.arch@) == Some(n@)
                }
            },
            Err(e) => !cfg.toolchain@.contains_key(toolchain_name@) && spec_parse_err(
                toolchain_name@,
            ) == Some(e),
        },
{
    if cfg.toolchain.contains_key(toolchain_name) {
        Ok(toolchain_name.to_owned())
    } else {
        match Channel::parse(toolchain_name, &ctx.host) {
            Err(e) => Err(e),
            Ok(ch) => {
                let canon = ch.to_string();
                proof {
                    if toolchain_name@.index_of_first('-') is Some {
                        lemma_parse_render_roundtrip(
                            toolchain_name@,
                            ch,
                            ctx.host.os@,
                            ctx.host.arch@,
                        );
                    } else {
                        lemma_parse_default_host(
                            toolchain_name@,
                            ch,
                            ctx.host.os@,
                            ctx.host.arch@,
                        );
                    }
                }
                Ok(canon)
            },
        }
    }
}

/// How a fallback-chain walk ended.
#[derive(Debug)]
pub enum ChainEnd {
    /// The chain ended at an entry without a fallback.
    End,
    /// A name along the chain resolved to no configured toolchain.
    Missing { name: String },
    /// A fallback pointed back at an entry already visited.
    Cycle { name: String },
}

/// The pointwise conditions of a fallback chain starting at `start`:
/// the first entry is what `start` resolves to, every entry is
/// configured, every later entry is what the previous entry's fallback
/// resolves to, and no entry repeats.
pub open spec fn chain_links(
    cfg: Config,
    dos: Seq<char>,
    darch: Seq<char>,
    start: Seq<char>,
    names: Seq<Seq<char>>,
) -> bool {
    &&& names.len() > 0 ==> spec_resolved_name(cfg, dos, darch, start) == Some(names[0])
    &&& forall|i: int|
        #![trigger names[i]]
        0 <= i < names.len() ==> cfg.toolchain@.contains_key(names[i])
    &&& forall|i: int|
        #![trigger names[i]]
        0 < i < names.len() ==> (cfg.toolchain@[names[i - 1]].fallback matches Some(fb)
            && spec_resolved_name(cfg, dos, darch, fb@) == Some(names[i]))
    &&& names.no_duplicates()
}

/// The name the walk looks up next after visiting `names`.
pub open spec fn pending_name(cfg: Config, start: Seq<char>, names: Seq<Seq<char>>) -> Seq<char> {
    if names.len() == 0 {
        start
    } else {
        match cfg.toolchain@[names.last()].fallback {
            Some(fb) => fb@,
            None => start,
        }
    }
}

/// A complete fallback-chain walk from `start`, ending as `term` says.
pub open spec fn is_chain(
    cfg: Config,
    dos: Seq<char>,
    darch: Seq<char>,
    start: Seq<char>,
    names: Seq<Seq<char>>,
    term: ChainEnd,
) -> bool {
    &&& chain_links(cfg, dos, darch, start, names)
    &&& match term {
        ChainEnd::End => names.len() > 0 && cfg.toolchain@[names.last()].fallback is None,
        ChainEnd::Missing { name } => {
            &&& names.len() > 0 ==> cfg.toolchain@[names.last()].fallback is Some
            &&& name@ == pending_name(cfg, start, names)
            &&& spec_resolved_name(cfg, dos, darch, name@) is None
        },
        ChainEnd::Cycle { name } => {
            &&& names.len() > 0 ==> cfg.toolchain@[names.last()].fallback is Some
            &&& spec_resolved_name(cfg, dos, darch, pending_name(cfg, start, names)) == Some(
                name@,
            )
            &&& names.contains(name@)
        },
    }
}

/// Walks the fallback chain from `start` to its end, collecting the
/// resolved toolchain names in order.
#[verifier::rlimit(60)]
pub fn walk_chain(cfg: &Config, ctx: &Context, start: &str) -> (r: (Vec<String>, ChainEnd))
    ensures
        is_chain(*cfg, ctx.host.os@, ctx.host.arch@, start@, seq_views(r.0@), r.1),
{
    let ghost dos = ctx.host.os@;
    let ghost darch = ctx.host.arch@;
    let mut names: Vec<String> = Vec::new();
    let mut cur: String = start.to_owned();
    proof {
        cfg.toolchain.lemma_keys();
    }
    loop
        invariant
            chain_links(*cfg, dos, darch, start@, seq_views(names@)),
            cur@ == pending_name(*cfg, start@, seq_views(names@)),
            seq_views(names@).len() > 0 ==> cfg.toolchain@[seq_views(names@).last()].fallback
                is Some,
            seq_views(names@).len() <= cfg.toolchain@.dom().len(),
            cfg.toolchain@.dom().finite(),
            dos == ctx.host.os@,
            darch == ctx.host.arch@,
        decreases cfg.toolchain@.dom().len() - seq_views(names@).len(),
    {
        match lookup_toolchain(cfg, ctx, cur.as_str()) {
            None => {
                return (names, ChainEnd::Missing { name: cur });
            },
            Some(rn) => {
                if vec_contains_str(&names, rn.as_str()) {
                    return (names, ChainEnd::Cycle { name: rn });
                }
                let info = match cfg.toolchain.get(rn.as_str()) {
                    Some(info) => info,
                    None => {
                        proof {
                            assert(cfg.toolchain@.contains_key(rn@));
                        }
                        return (names, ChainEnd::End);
                    },
                };
                let ghost old_views = seq_views(names@);
                let has_fallback = info.fallback.is_some();
                let next = match &info.fallback {
                    Some(fb) => fb.clone(),
                    None => String::new(),
                };
                names.push(rn);
                proof {
                    let nv = seq_views(names@);
                    assert(nv =~= old_views.push(nv.last()));
                    assert(forall|j: int| 0 <= j < old_views.len() ==> nv[j] == old_views[j]);
                    nv.unique_seq_to_set();
                    assert(nv.to_set().subset_of(cfg.toolchain@.dom())) by {
                        assert forall|k: Seq<char>| nv.to_set().contains(k) implies cfg.toolchain@.dom().contains(
                            k,
                        ) by {
                            let j = choose|j: int| 0 <= j < nv.len() && nv[j] == k;
                            assert(cfg.toolchain@.contains_key(nv[j]));
                        }
                    }
                    vstd::set_lib::lemma_len_subset(nv.to_set(), cfg.toolchain@.dom());
                }
                if !has_fallback {
                    return (names, ChainEnd::End);
                }
                cur = next;
            },
        }
    }
}

/// The shape of a walk terminator: its kind together with the character
/// sequence of the name it carries.
pub enum TermShape {
    End,
    Missing(Seq<char>),
    Cycle(Seq<char>),
}

/// The shape of a terminator value.
pub open spec fn term_shape(t: ChainEnd) -> TermShape {
    match t {
        ChainEnd::End => TermShape::End,
        ChainEnd::Missing { name } => TermShape::Missing(name@),
        ChainEnd::Cycle { name } => TermShape::Cycle(name@),
    }
}

proof fn lemma_chain_prefix(
    cfg: Config,
    dos: Seq<char>,
    darch: Seq<char>,
    start: Seq<char>,
    names1: Seq<Seq<char>>,
    names2: Seq<Seq<char>>,
    i: int,
)
    requires
        chain_links(cfg, dos, darch, start, names1),
        chain_links(cfg, dos, darch, start, names2),
        0 <= i < names1.len(),
        i < names2.len(),
    ensures
        names1[i] == names2[i],
    decreases i,
{
    if i > 0 {
        lemma_chain_prefix(cfg, dos, darch, start, names1, names2, i - 1);
    }
}

proof fn lemma_chain_bound(
    cfg: Config,
    dos: Seq<char>,
    darch: Seq<char>,
    start: Seq<char>,
    names1: Seq<Seq<char>>,
    term1: ChainEnd,
    names2: Seq<Seq<char>>,
)
    requires
        is_chain(cfg, dos, darch, start, names1, term1),
        chain_links(cfg, dos, darch, start, names2),
    ensures
        names2.len() <= names1.len(),
{
    if names1.len() < names2.len() {
        let l = names1.len() as int;
        assert forall|i: int| 0 <= i < l implies names1[i] == names2[i] by {
            lemma_chain_prefix(cfg, dos, darch, start, names1, names2, i);
        }
        if l == 0 {
            match term1 {
                ChainEnd::End => {},
                ChainEnd::Missing { name } => {
                    assert(spec_resolved_name(cfg, dos, darch, start) == Some(names2[0]));
                },
                ChainEnd::Cycle { name } => {
                    assert(!names1.contains(name@));
                },
            }
        } else {
            assert(names2[l - 1] == names1[l - 1]);
            assert(names1.last() == names1[l - 1]);
            match term1 {
                ChainEnd::End => {
                    assert(cfg.toolchain@[names2[l - 1]].fallback is Some);
                },
                ChainEnd::Missing { name } => {
                    assert(cfg.toolchain@[names2[l - 1]].fallback matches Some(fb)
                        && spec_resolved_name(cfg, dos, darch, fb@) == Some(names2[l]));
                },
                ChainEnd::Cycle { name } => {
                    assert(cfg.toolchain@[names2[l - 1]].fallback matches Some(fb)
                        && spec_resolved_name(cfg, dos, darch, fb@) == Some(names2[l]));
                    assert(names2[l] == name@);
                    let j = choose|j: int| 0 <= j < names1.len() && names1[j] == name@;
                    assert(names2[j] == names2[l]);
                },
            }
        }
    }
}

/// Law: a configuration determines its fallback chain: any two complete
/// walks from the same start visit the same entries and end the same way.
pub proof fn lemma_chain_unique(
    cfg: Config,
    dos: Seq<char>,
    darch: Seq<char>,
    start: Seq<char>,
    names1: Seq<Seq<char>>,
    term1: ChainEnd,
    names2: Seq<Seq<char>>,
    term2: ChainEnd,
)
    requires
        is_chain(cfg, dos, darch, start, names1, term1),
        is_chain(cfg, dos, darch, start, names2, term2),
    ensures
        names1 == names2,
        term_shape(term1) == term_shape(term2),
{
    lemma_chain_bound(cfg, dos, darch, start, names1, term1, names2);
    lemma_chain_bound(cfg, dos, darch, start, names2, term2, names1);
    assert forall|i: int| 0 <= i < names1.len() implies names1[i] == names2[i] by {
        lemma_chain_prefix(cfg, dos, darch, start, names1, names2, i);
    }
    assert(names1 =~= names2);
    let p = pending_name(cfg, start, names1);
    match term1 {
        ChainEnd::End => {},
        ChainEnd::Missing { name } => {},
        ChainEnd::Cycle { name } => {
            match term2 {
                ChainEnd::End => {},
                ChainEnd::Missing { name: n2 } => {},
                ChainEnd::Cycle { name: n2 } => {
                    assert(spec_resolved_name(cfg, dos, darch, p) == Some(name@));
                    assert(spec_resolved_name(cfg, dos, darch, p) == Some(n2@));
                },
            }
        },
    }
}

/// Errors of toolchain resolution.
#[derive(Debug)]
pub enum ResolveError {
    /// A name along the fallback chain names no configured toolchain.
    ToolchainNotFound { requested: String, missing: String },
    /// The chain was exhausted without finding the executable.
    ExecutableNotFound { requested: String, executable: String, probed: String },
    /// The chain was exhausted without finding the support library.
    CoreLibNotFound { requested: String, probed: String },
    /// The fallback pointers form a cycle.
    FallbackCycle { requested: String, at: String },
    /// No toolchain along the chain has a home path.
    NoToolchainHome { requested: String },
}

/// The set of paths that exist on disk, as far as the caller probed them.
pub struct FsState {
    existing: Vec<String>,
}

impl View for FsState {
    type V = Set<Seq<char>>;

    closed spec fn view(&self) -> Set<Seq<char>> {
        seq_views(self.existing@).to_set()
    }
}

impl FsState {
    /// A state in which no path exists.
    pub fn new() -> (r: Self)
        ensures
            r@ == Set::<Seq<char>>::empty(),
    {
        let r = FsState { existing: Vec::new() };
        proof {
            assert(seq_views(r.existing@) =~= Seq::<Seq<char>>::empty());
            assert(r@ =~= Set::<Seq<char>>::empty());
        }
        r
    }

    /// Records that a path exists.
    pub fn add(self, path: String) -> (r: Self)
        ensures
            r@ == self@.insert(path@),
    {
        let ghost old_views = seq_views(self.existing@);
        let ghost pv = path@;
        let mut existing = self.existing;
        existing.push(path);
        let r = FsState { existing };
        proof {
            let nv = seq_views(r.existing@);
            assert(nv =~= old_views.push(pv));
            assert forall|k: Seq<char>| #[trigger] nv.contains(k) implies (old_views.contains(k)
                || k == pv) by {
                let i = choose|i: int| 0 <= i < nv.len() && nv[i] == k;
                if i < old_views.len() {
                    assert(old_views[i] == k);
                }
            }
            assert forall|k: Seq<char>| #[trigger] old_views.contains(k) implies nv.contains(
                k,
            ) by {
                let i = choose|i: int| 0 <= i < old_views.len() && old_views[i] == k;
                assert(nv[i] == k);
            }
            assert(nv.contains(pv)) by {
                assert(nv[nv.len() - 1] == pv);
            }
            assert(r@ =~= self@.insert(pv));
        }
        r
    }

    /// True when the path was recorded as existing.
    pub fn contains_path(&self, path: &str) -> (r: bool)
        ensures
            r == self@.contains(path@),
    {
        vec_contains_str(&self.existing, path)
    }
}

/// The executable name with the platform's suffix stripped, for looking
/// overrides up and for rebuilding the concrete file name.
pub open spec fn spec_exe_base(platform: Platform, name: Seq<char>) -> Seq<char> {
    if platform is Windows && has_suffix(name, ".exe"@) {
        name.take(name.len() - 4)
    } else {
        name
    }
}

/// Strips the platform's executable suffix from a name.
pub fn strip_exe_suffix<'a>(platform: Platform, name: &'a str) -> (r: &'a str)
    ensures
        r@ == spec_exe_base(platform, name@),
{
    match platform {
        Platform::Unix => name,
        Platform::Windows => {
            proof {
                reveal_strlit(".exe");
            }
            if ends_with(name, ".exe") {
                let n = name.unicode_len();
                let r = name.substring_char(0, n - 4);
                proof {
                    assert(r@ =~= name@.take(name@.len() - 4));
                }
                r
            } else {
                name
            }
        },
    }
}

/// The root directory of a toolchain entry: the configured override, or
/// the path derived from the home directory and the entry's name.
pub open spec fn spec_root_path(info: ToolchainInfo, home: Seq<char>, name: Seq<char>) -> Seq<
    char,
> {
    match info.root_path {
        Some(p) => p@,
        None => spec_toolchain_path(home, name),
    }
}

/// The candidate path of an executable under a toolchain entry: the
/// per-executable override when one is configured, else
/// `<root>/bin/<executable><suffix>`.
pub open spec fn spec_exe_candidate(
    info: ToolchainInfo,
    home: Seq<char>,
    platform: Platform,
    name: Seq<char>,
    exe_base: Seq<char>,
) -> Seq<char> {
    if info.override_@.contains_key(exe_base) {
        info.override_@[exe_base]@
    } else {
        joined(
            joined(spec_root_path(info, home, name), "bin"@),
            exe_base + platform.spec_exe_suffix(),
        )
    }
}

/// The candidate path of the support library under a toolchain entry:
/// the configured override, else `<root>/lib/core`.
pub open spec fn spec_core_candidate(info: ToolchainInfo, home: Seq<char>, name: Seq<char>) -> Seq<
    char,
> {
    match info.core_path {
        Some(p) => p@,
        None => joined(spec_root_path(info, home, name), "lib/core"@),
    }
}

/// The root directory of a toolchain entry.
pub fn get_toolchain_root(ctx: &Context, toolchain_name: &str, toolchain: &ToolchainInfo) -> (r:
    String)
    ensures
        r@ == spec_root_path(*toolchain, ctx.home@, toolchain_name@),
{
    match &toolchain.root_path {
        Some(p) => p.clone(),
        None => toolchain_path(ctx.home.as_str(), toolchain_name),
    }
}

/// The candidate path of an executable under a toolchain entry.  The
/// executable name is expected with the platform suffix already
/// stripped; it is re-added here.
pub fn get_toolchain_executable(
    ctx: &Context,
    toolchain_name: &str,
    toolchain: &ToolchainInfo,
    executable_name: &str,
) -> (r: String)
    ensures
        r@ == spec_exe_candidate(
            *toolchain,
            ctx.home@,
            ctx.platform,
            toolchain_name@,
            executable_name@,
        ),
{
    match toolchain.override_.get(executable_name) {
        Some(p) => p.clone(),
        None => {
            let root = get_toolchain_root(ctx, toolchain_name, toolchain);
            let bin = crate::config::join_path(root.as_str(), "bin");
            let mut file = executable_name.to_owned();
            file.append(ctx.platform.exe_suffix());
            crate::config::join_path(bin.as_str(), file.as_str())
        },
    }
}

/// The candidate path of the support library under a toolchain entry.
pub fn get_toolchain_core_lib(ctx: &Context, toolchain_name: &str, toolchain: &ToolchainInfo) -> (r:
    String)
    ensures
        r@ == spec_core_candidate(*toolchain, ctx.home@, toolchain_name@),
{
    match &toolchain.core_path {
        Some(p) => p.clone(),
        None => {
            let root = get_toolchain_root(ctx, toolchain_name, toolchain);
            crate::config::join_path(root.as_str(), "lib/core")
        },
    }
}

/// The starting toolchain name of a resolution: the explicit request,
/// or the configured default.
pub open spec fn start_name(cfg: Config, toolchain: Option<&str>) -> Seq<char> {
    match toolchain {
        Some(t) => t@,
        None => cfg.default@,
    }
}

/// The executable candidate of the `i`-th chain entry.
pub open spec fn chain_exe_candidate(
    cfg: Config,
    ctx: Context,
    names: Seq<Seq<char>>,
    exe_base: Seq<char>,
    i: int,
) -> Seq<char> {
    spec_exe_candidate(cfg.toolchain@[names[i]], ctx.home@, ctx.platform, names[i], exe_base)
}

/// The support-library candidate of the `i`-th chain entry.
pub open spec fn chain_core_candidate(cfg: Config, ctx: Context, names: Seq<Seq<char>>, i: int) -> Seq<
    char,
> {
    spec_core_candidate(cfg.toolchain@[names[i]], ctx.home@, names[i])
}

/// What executable resolution returns, given the fallback chain: the
/// first candidate along the chain that exists, or the error that the
/// chain's end dictates when none exists.
pub open spec fn exec_outcome(
    cfg: Config,
    ctx: Context,
    fsv: Set<Seq<char>>,
    start: Seq<char>,
    exe: Seq<char>,
    names: Seq<Seq<char>>,
    term: ChainEnd,
    r: Result<String, ResolveError>,
) -> bool {
    let base = spec_exe_base(ctx.platform, exe);
    match r {
        Ok(p) => exists|i: int|
            {
                &&& 0 <= i < names.len()
                &&& p@ == #[trigger] chain_exe_candidate(cfg, ctx, names, base, i)
                &&& fsv.contains(chain_exe_candidate(cfg, ctx, names, base, i))
                &&& forall|j: int|
                    0 <= j < i ==> !fsv.contains(
                        #[trigger] chain_exe_candidate(cfg, ctx, names, base, j),
                    )
            },
        Err(e) => {
            &&& forall|i: int|
                0 <= i < names.len() ==> !fsv.contains(
                    #[trigger] chain_exe_candidate(cfg, ctx, names, base, i),
                )
            &&& match term_shape(term) {
                TermShape::End => e matches ResolveError::ExecutableNotFound {
                    requested,
                    executable,
                    probed,
                } && requested@ == start && executable@ == exe && probed@ == chain_exe_candidate(
                    cfg,
                    ctx,
                    names,
                    base,
                    names.len() - 1,
                ),
                TermShape::Missing(m) => e matches ResolveError::ToolchainNotFound {
                    requested,
                    missing,
                } && requested@ == start && missing@ == m,
                TermShape::Cycle(c) => e matches ResolveError::FallbackCycle { requested, at }
                    && requested@ == start && at@ == c,
            }
        },
    }
}

/// The full contract of executable resolution over a filesystem state.
pub open spec fn resolves_executable(
    cfg: Config,
    ctx: Context,
    fsv: Set<Seq<char>>,
    start: Seq<char>,
    exe: Seq<char>,
    r: Result<String, ResolveError>,
) -> bool {
    forall|names: Seq<Seq<char>>, term: ChainEnd|
        #[trigger] is_chain(cfg, ctx.host.os@, ctx.host.arch@, start, names, term)
            ==> exec_outcome(cfg, ctx, fsv, start, exe, names, term, r)
}

/// Resolves an executable by walking the fallback chain and taking the
/// first candidate path that exists in `fs`.
#[verifier::rlimit(60)]
pub fn try_get_executable(
    cfg: &Config,
    ctx: &Context,
    fs: &FsState,
    toolchain: Option<&str>,
    executable_name: &str,
) -> (r: Result<String, ResolveError>)
    ensures
        resolves_executable(
            *cfg,
            *ctx,
            fs@,
            start_name(*cfg, toolchain),
            executable_name@,
            r,
        ),
{
    let start: &str = match toolchain {
        Some(t) => t,
        None => cfg.default.as_str(),
    };
    let ghost startv = start_name(*cfg, toolchain);
    let ghost dos = ctx.host.os@;
    let ghost darch = ctx.host.arch@;
    let exe_base = strip_exe_suffix(ctx.platform, executable_name);
    let ghost base = spec_exe_base(ctx.platform, executable_name@);
    let (names, term) = walk_chain(cfg, ctx, start);
    let ghost nv = seq_views(names@);
    let n = names.len();
    let mut i: usize = 0;
    let mut last_probed: String = String::new();
    while i < n
        invariant
            0 <= i <= n,
            n == names@.len(),
            nv == seq_views(names@),
            base == spec_exe_base(ctx.platform, executable_name@),
            exe_base@ == base,
            is_chain(*cfg, dos, darch, startv, nv, term),
            dos == ctx.host.os@,
            darch == ctx.host.arch@,
            startv == start_name(*cfg, toolchain),
            forall|j: int|
                0 <= j < i ==> !fs@.contains(#[trigger] chain_exe_candidate(*cfg, *ctx, nv, base, j)),
            i > 0 ==> last_probed@ == chain_exe_candidate(*cfg, *ctx, nv, base, i - 1),
        decreases n - i,
    {
        let name_i = &names[i];
        let info = match cfg.toolchain.get(name_i.as_str()) {
            Some(info) => info,
            None => {
                proof {
                    assert(cfg.toolchain@.contains_key(nv[i as int]));
                }
                return Err(ResolveError::ToolchainNotFound {
                    requested: start.to_owned(),
                    missing: name_i.clone(),
                });
            },
        };
        let cand = get_toolchain_executable(ctx, name_i.as_str(), info, exe_base);
        if fs.contains_path(cand.as_str()) {
            proof {
                assert forall|names2: Seq<Seq<char>>, term2: ChainEnd|
                    #[trigger] is_chain(*cfg, dos, darch, startv, names2, term2) implies exec_outcome(
                    *cfg,
                    *ctx,
                    fs@,
                    startv,
                    executable_name@,
                    names2,
                    term2,
                    Ok(cand),
                ) by {
                    lemma_chain_unique(*cfg, dos, darch, startv, nv, term, names2, term2);
                    assert(0 <= i < names2.len() && cand@ == chain_exe_candidate(
                        *cfg,
                        *ctx,
                        names2,
                        base,
                        i as int,
                    ) && fs@.contains(chain_exe_candidate(*cfg, *ctx, names2, base, i as int))
                        && forall|j: int|
                        0 <= j < i ==> !fs@.contains(
                            #[trigger] chain_exe_candidate(*cfg, *ctx, names2, base, j),
                        ));
                }
            }
            return Ok(cand);
        }
        last_probed = cand;
        i += 1;
    }
    let requested = start.to_owned();
    let err = match term {
        ChainEnd::End => ResolveError::ExecutableNotFound {
            requested,
            executable: executable_name.to_owned(),
            probed: last_probed,
        },
        ChainEnd::Missing { name } => ResolveError::ToolchainNotFound { requested, missing: name },
        ChainEnd::Cycle { name } => ResolveError::FallbackCycle { requested, at: name },
    };
    proof {
        assert forall|names2: Seq<Seq<char>>, term2: ChainEnd|
            #[trigger] is_chain(*cfg, dos, darch, startv, names2, term2) implies exec_outcome(
            *cfg,
            *ctx,
            fs@,
            startv,
            executable_name@,
            names2,
            term2,
            Err(err),
        ) by {
            lemma_chain_unique(*cfg, dos, darch, startv, nv, term, names2, term2);
        }
    }
    Err(err)
}

/// What support-library resolution returns, given the fallback chain.
pub open spec fn core_outcome(
    cfg: Config,
    ctx: Context,
    fsv: Set<Seq<char>>,
    start: Seq<char>,
    names: Seq<Seq<char>>,
    term: ChainEnd,
    r: Result<String, ResolveError>,
) -> bool {
    match r {
        Ok(p) => exists|i: int|
            {
                &&& 0 <= i < names.len()
                &&& p@ == #[trigger] chain_core_candidate(cfg, ctx, names, i)
                &&& fsv.contains(chain_core_candidate(cfg, ctx, names, i))
                &&& forall|j: int|
                    0 <= j < i ==> !fsv.contains(#[trigger] chain_core_candidate(cfg, ctx, names, j))
            },
        Err(e) => {
            &&& forall|i: int|
                0 <= i < names.len() ==> !fsv.contains(
                    #[trigger] chain_core_candidate(cfg, ctx, names, i),
                )
            &&& match term_shape(term) {
                TermShape::End => e matches ResolveError::CoreLibNotFound { requested, probed }
                    && requested@ == start && probed@ == chain_core_candidate(
                    cfg,
                    ctx,
                    names,
                    names.len() - 1,
                ),
                TermShape::Missing(m) => e matches ResolveError::ToolchainNotFound {
                    requested,
                    missing,
                } && requested@ == start && missing@ == m,
                TermShape::Cycle(c) => e matches ResolveError::FallbackCycle { requested, at }
                    && requested@ == start && at@ == c,
            }
        },
    }
}

/// The full contract of support-library resolution over a filesystem state.
pub open spec fn resolves_core_lib(
    cfg: Config,
    ctx: Context,
    fsv: Set<Seq<char>>,
    start: Seq<char>,
    r: Result<String, ResolveError>,
) -> bool {
    forall|names: Seq<Seq<char>>, term: ChainEnd|
        #[trigger] is_chain(cfg, ctx.host.os@, ctx.host.arch@, start, names, term)
            ==> core_outcome(cfg, ctx, fsv, start, names, term, r)
}

/// Resolves the support-library directory by walking the fallback chain
/// and taking the first candidate path that exists in `fs`.
#[verifier::rlimit(60)]
pub fn try_get_core_lib(cfg: &Config, ctx: &Context, fs: &FsState, toolchain: Option<&str>) -> (r:
    Result<String, ResolveError>)
    ensures
        resolves_core_lib(*cfg, *ctx, fs@, start_name(*cfg, toolchain), r),
{
    let start: &str = match toolchain {
        Some(t) => t,
        None => cfg.default.as_str(),
    };
    let ghost startv = start_name(*cfg, toolchain);
    let ghost dos = ctx.host.os@;
    let ghost darch = ctx.host.arch@;
    let (names, term) = walk_chain(cfg, ctx, start);
    let ghost nv = seq_views(names@);
    let n = names.len();
    let mut i: usize = 0;
    let mut last_probed: String = String::new();
    while i < n
        invariant
            0 <= i <= n,
            n == names@.len(),
            nv == seq_views(names@),
            is_chain(*cfg, dos, darch, startv, nv, term),
            dos == ctx.host.os@,
            darch == ctx.host.arch@,
            startv == start_name(*cfg, toolchain),
            forall|j: int|
                0 <= j < i ==> !fs@.contains(#[trigger] chain_core_candidate(*cfg, *ctx, nv, j)),
            i > 0 ==> last_probed@ == chain_core_candidate(*cfg, *ctx, nv, i - 1),
        decreases n - i,
    {
        let name_i = &names[i];
        let info = match cfg.toolchain.get(name_i.as_str()) {
            Some(info) => info,
            None => {
                proof {
                    assert(cfg.toolchain@.contains_key(nv[i as int]));
                }
                return Err(ResolveError::ToolchainNotFound {
                    requested: start.to_owned(),
                    missing: name_i.clone(),
                });
            },
        };
        let cand = get_toolchain_core_lib(ctx, name_i.as_str(), info);
        if fs.contains_path(cand.as_str()) {
            proof {
                assert forall|names2: Seq<Seq<char>>, term2: ChainEnd|
                    #[trigger] is_chain(*cfg, dos, darch, startv, names2, term2) implies core_outcome(
                    *cfg,
                    *ctx,
                    fs@,
                    startv,
                    names2,
                    term2,
                    Ok(cand),
                ) by {
                    lemma_chain_unique(*cfg, dos, darch, startv, nv, term, names2, term2);
                    assert(0 <= i < names2.len() && cand@ == chain_core_candidate(
                        *cfg,
                        *ctx,
                        names2,
                        i as int,
                    ) && fs@.contains(chain_core_candidate(*cfg, *ctx, names2, i as int)) && forall|
                        j: int,
                    |
                        0 <= j < i ==> !fs@.contains(
                            #[trigger] chain_core_candidate(*cfg, *ctx, names2, j),
                        ));
                }
            }
            return Ok(cand);
        }
        last_probed = cand;
        i += 1;
    }
    let requested = start.to_owned();
    let err = match term {
        ChainEnd::End => ResolveError::CoreLibNotFound { requested, probed: last_probed },
        ChainEnd::Missing { name } => ResolveError::ToolchainNotFound { requested, missing: name },
        ChainEnd::Cycle { name } => ResolveError::FallbackCycle { requested, at: name },
    };
    proof {
        assert forall|names2: Seq<Seq<char>>, term2: ChainEnd|
            #[trigger] is_chain(*cfg, dos, darch, startv, names2, term2) implies core_outcome(
            *cfg,
            *ctx,
            fs@,
            startv,
            names2,
            term2,
            Err(err),
        ) by {
            lemma_chain_unique(*cfg, dos, darch, startv, nv, term, names2, term2);
        }
    }
    Err(err)
}

/// What toolchain-home resolution returns, given the fallback chain:
/// the root of the entry that closes the chain, which is the only entry
/// without a further fallback.
pub open spec fn home_outcome(
    cfg: Config,
    ctx: Context,
    start: Seq<char>,
    names: Seq<Seq<char>>,
    term: ChainEnd,
    r: Result<String, ResolveError>,
) -> bool {
    match r {
        Ok(p) => term_shape(term) is End && names.len() > 0 && p@ == spec_root_path(
            cfg.toolchain@[names.last()],
            ctx.home@,
            names.last(),
        ),
        Err(e) => match term_shape(term) {
            TermShape::End => false,
            TermShape::Missing(m) => e matches ResolveError::ToolchainNotFound {
                requested,
                missing,
            } && requested@ == start && missing@ == m,
            TermShape::Cycle(c) => e matches ResolveError::FallbackCycle { requested, at }
                && requested@ == start && at@ == c,
        },
    }
}

/// The full contract of toolchain-home resolution.
pub open spec fn resolves_home(
    cfg: Config,
    ctx: Context,
    start: Seq<char>,
    r: Result<String, ResolveError>,
) -> bool {
    forall|names: Seq<Seq<char>>, term: ChainEnd|
        #[trigger] is_chain(cfg, ctx.host.os@, ctx.host.arch@, start, names, term)
            ==> home_outcome(cfg, ctx, start, names, term, r)
}

/// Resolves the durable home of a toolchain: the root directory of the
/// entry at the end of the fallback chain, the only one that has no
/// further fallback.
pub fn try_get_toolchain_home(cfg: &Config, ctx: &Context, toolchain: Option<&str>) -> (r: Result<
    String,
    ResolveError,
>)
    ensures
        resolves_home(*cfg, *ctx, start_name(*cfg, toolchain), r),
{
    let start: &str = match toolchain {
        Some(t) => t,
        None => cfg.default.as_str(),
    };
    let ghost startv = start_name(*cfg, toolchain);
    let ghost dos = ctx.host.os@;
    let ghost darch = ctx.host.arch@;
    let (names, term) = walk_chain(cfg, ctx, start);
    let ghost nv = seq_views(names@);
    let ghost gterm = term;
    let r: Result<String, ResolveError> = match term {
        ChainEnd::End => {
            let last = &names[names.len() - 1];
            match cfg.toolchain.get(last.as_str()) {
                Some(info) => Ok(get_toolchain_root(ctx, last.as_str(), info)),
                None => {
                    proof {
                        assert(cfg.toolchain@.contains_key(nv.last()));
                    }
                    Err(ResolveError::ToolchainNotFound {
                        requested: start.to_owned(),
                        missing: last.clone(),
                    })
                },
            }
        },
        ChainEnd::Missing { name } => Err(
            ResolveError::ToolchainNotFound { requested: start.to_owned(), missing: name },
        ),
        ChainEnd::Cycle { name } => Err(
            ResolveError::FallbackCycle { requested: start.to_owned(), at: name },
        ),
    };
    proof {
        assert forall|names2: Seq<Seq<char>>, term2: ChainEnd|
            #[trigger] is_chain(*cfg, dos, darch, startv, names2, term2) implies home_outcome(
            *cfg,
            *ctx,
            startv,
            names2,
            term2,
            r,
        ) by {
            lemma_chain_unique(*cfg, dos, darch, startv, nv, gterm, names2, term2);
        }
    }
    r
}

/// An iterator over the fallback chain of a toolchain: each step yields
/// the resolved name of the next entry together with its record.
pub struct ConfigToolchainFallbackIter<'a> {
    config: &'a Config,
    names: Vec<String>,
    term: ChainEnd,
    idx: usize,
}

impl<'a> ConfigToolchainFallbackIter<'a> {
    #[verifier::type_invariant]
    spec fn wf(self) -> bool {
        forall|i: int|
            0 <= i < seq_views(self.names@).len() ==> self.config.toolchain@.contains_key(
                #[trigger] seq_views(self.names@)[i],
            )
    }

    /// The resolved names of the whole chain.
    pub closed spec fn spec_names(&self) -> Seq<Seq<char>> {
        seq_views(self.names@)
    }

    /// How the chain ends.
    pub closed spec fn spec_term(&self) -> ChainEnd {
        self.term
    }

    /// The position of the next entry to yield.
    pub closed spec fn spec_pos(&self) -> int {
        self.idx as int
    }

    /// The configuration iterated over.
    pub closed spec fn spec_config(&self) -> Config {
        *self.config
    }

    /// Creates a new iterator over the fallback toolchains of a given
    /// toolchain.
    pub fn new(config: &'a Config, ctx: &Context, toolchain_name: &str) -> (r: Self)
        ensures
            is_chain(
                *config,
                ctx.host.os@,
                ctx.host.arch@,
                toolchain_name@,
                r.spec_names(),
                r.spec_term(),
            ),
            r.spec_pos() == 0,
            r.spec_config() == *config,
    {
        let (names, term) = walk_chain(config, ctx, toolchain_name);
        ConfigToolchainFallbackIter { config, names, term, idx: 0 }
    }

    /// Yields the next entry of the chain, or nothing once the chain is
    /// exhausted.
    pub fn next(&mut self) -> (r: Option<(String, &'a ToolchainInfo)>)
        ensures
            final(self).spec_names() == old(self).spec_names(),
            term_shape(final(self).spec_term()) == term_shape(old(self).spec_term()),
            final(self).spec_config() == old(self).spec_config(),
            old(self).spec_pos() < old(self).spec_names().len() ==> {
                &&& final(self).spec_pos() == old(self).spec_pos() + 1
                &&& r matches Some(p) && p.0@ == old(self).spec_names()[old(self).spec_pos()]
                    && old(self).spec_config().toolchain@.contains_key(p.0@)
                    && *p.1 == old(self).spec_config().toolchain@[p.0@]
            },
            old(self).spec_pos() >= old(self).spec_names().len() ==> r is None
                && final(self).spec_pos() == old(self).spec_pos(),
    {
        proof {
            use_type_invariant(&*self);
        }
        if self.idx < self.names.len() {
            let name = self.names[self.idx].clone();
            match self.config.toolchain.get(name.as_str()) {
                Some(info) => {
                    self.idx = self.idx + 1;
                    Some((name, info))
                },
                None => {
                    proof {
                        assert(self.config.toolchain@.contains_key(
                            seq_views(self.names@)[self.idx as int],
                        ));
                    }
                    None
                },
            }
        } else {
            None
        }
    }

    /// How the walk behind this iterator ended.
    pub fn end(&self) -> (r: &ChainEnd)
        ensures
            *r == self.spec_term(),
    {
        &self.term
    }
}

/// The candidate executable paths along the fallback chain, in chain
/// order, together with how the chain ended.  The caller probes these
/// paths and hands the existing ones back to `try_get_executable`.
#[verifier::rlimit(60)]
pub fn executable_candidates(
    cfg: &Config,
    ctx: &Context,
    toolchain: Option<&str>,
    executable_name: &str,
) -> (r: (Vec<String>, ChainEnd))
    ensures
        forall|names: Seq<Seq<char>>, term: ChainEnd|
            #[trigger] is_chain(
                *cfg,
                ctx.host.os@,
                ctx.host.arch@,
                start_name(*cfg, toolchain),
                names,
                term,
            ) ==> {
                &&& seq_views(r.0@).len() == names.len()
                &&& forall|i: int|
                    0 <= i < names.len() ==> seq_views(r.0@)[i] == chain_exe_candidate(
                        *cfg,
                        *ctx,
                        names,
                        spec_exe_base(ctx.platform, executable_name@),
                        i,
                    )
                &&& term_shape(r.1) == term_shape(term)
            },
{
    let start: &str = match toolchain {
        Some(t) => t,
        None => cfg.default.as_str(),
    };
    let ghost startv = start_name(*cfg, toolchain);
    let ghost dos = ctx.host.os@;
    let ghost darch = ctx.host.arch@;
    let exe_base = strip_exe_suffix(ctx.platform, executable_name);
    let ghost base = spec_exe_base(ctx.platform, executable_name@);
    let (names, term) = walk_chain(cfg, ctx, start);
    let ghost nv = seq_views(names@);
    let n = names.len();
    let mut out: Vec<String> = Vec::new();
    let mut i: usize = 0;
    while i < n
        invariant
            0 <= i <= n,
            n == names@.len(),
            nv == seq_views(names@),
            base == spec_exe_base(ctx.platform, executable_name@),
            exe_base@ == base,
            is_chain(*cfg, dos, darch, startv, nv, term),
            dos == ctx.host.os@,
            darch == ctx.host.arch@,
            startv == start_name(*cfg, toolchain),
            out@.len() == i,
            forall|j: int|
                0 <= j < i ==> (#[trigger] out@[j])@ == chain_exe_candidate(*cfg, *ctx, nv, base, j),
        decreases n - i,
    {
        let name_i = &names[i];
        let info = match cfg.toolchain.get(name_i.as_str()) {
            Some(info) => info,
            None => {
                proof {
                    assert(cfg.toolchain@.contains_key(nv[i as int]));
                }
                return (out, term);
            },
        };
        let cand = get_toolchain_executable(ctx, name_i.as_str(), info, exe_base);
        let ghost old_out = out@;
        let ghost candv = cand@;
        out.push(cand);
        proof {
            assert(name_i@ == nv[i as int]);
            assert(candv == chain_exe_candidate(*cfg, *ctx, nv, base, i as int));
            assert forall|j: int| 0 <= j < i + 1 implies (#[trigger] out@[j])@
                == chain_exe_candidate(*cfg, *ctx, nv, base, j) by {
                if j < i {
                    assert(out@[j] == old_out[j]);
                } else {
                    assert(out@[j] == old_out.push(out@[out@.len() - 1])[j]);
                }
            }
        }
        i += 1;
    }
    proof {
        assert forall|names2: Seq<Seq<char>>, term2: ChainEnd|
            #[trigger] is_chain(*cfg, dos, darch, startv, names2, term2) implies {
            &&& seq_views(out@).len() == names2.len()
            &&& forall|j: int|
                0 <= j < names2.len() ==> seq_views(out@)[j] == chain_exe_candidate(
                    *cfg,
                    *ctx,
                    names2,
                    base,
                    j,
                )
            &&& term_shape(term) == term_shape(term2)
        } by {
            lemma_chain_unique(*cfg, dos, darch, startv, nv, term, names2, term2);
            assert forall|j: int| 0 <= j < names2.len() implies seq_views(out@)[j]
                == chain_exe_candidate(*cfg, *ctx, names2, base, j) by {
                assert(seq_views(out@)[j] == out@[j]@);
            }
        }
    }
    (out, term)
}

/// The candidate support-library paths along the fallback chain, in
/// chain order, together with how the chain ended.
#[verifier::rlimit(60)]
pub fn core_lib_candidates(cfg: &Config, ctx: &Context, toolchain: Option<&str>) -> (r: (
    Vec<String>,
    ChainEnd,
))
    ensures
        forall|names: Seq<Seq<char>>, term: ChainEnd|
            #[trigger] is_chain(
                *cfg,
                ctx.host.os@,
                ctx.host.arch@,
                start_name(*cfg, toolchain),
                names,
                term,
            ) ==> {
                &&& seq_views(r.0@).len() == names.len()
                &&& forall|i: int|
                    0 <= i < names.len() ==> seq_views(r.0@)[i] == chain_core_candidate(
                        *cfg,
                        *ctx,
                        names,
                        i,
                    )
                &&& term_shape(r.1) == term_shape(term)
            },
{
    let start: &str = match toolchain {
        Some(t) => t,
        None => cfg.default.as_str(),
    };
    let ghost startv = start_name(*cfg, toolchain);
    let ghost dos = ctx.host.os@;
    let ghost darch = ctx.host.arch@;
    let (names, term) = walk_chain(cfg, ctx, start);
    let ghost nv = seq_views(names@);
    let n = names.len();
    let mut out: Vec<String> = Vec::new();
    let mut i: usize = 0;
    while i < n
        invariant
            0 <= i <= n,
            n == names@.len(),
            nv == seq_views(names@),
            is_chain(*cfg, dos, darch, startv, nv, term),
            dos == ctx.host.os@,
            darch == ctx.host.arch@,
            startv == start_name(*cfg, toolchain),
            out@.len() == i,
            forall|j: int|
                0 <= j < i ==> seq_views(out@)[j] == chain_core_candidate(*cfg, *ctx, nv, j),
        decreases n - i,
    {
        let name_i = &names[i];
        let info = match cfg.toolchain.get(name_i.as_str()) {
            Some(info) => info,
            None => {
                proof {
                    assert(cfg.toolchain@.contains_key(nv[i as int]));
                }
                return (out, term);
            },
        };
        let cand = get_toolchain_core_lib(ctx, name_i.as_str(), info);
        let ghost old_out = out@;
        let ghost candv = cand@;
        out.push(cand);
        proof {
            assert(name_i@ == nv[i as int]);
            assert forall|j: int| 0 <= j < out@.len() - 1 implies seq_views(out@)[j] == seq_views(
                old_out,
            )[j] by {
                assert(out@[j] == old_out[j]);
            }
            assert(out@[out@.len() - 1]@ == candv);
        }
        i += 1;
    }
    proof {
        assert forall|names2: Seq<Seq<char>>, term2: ChainEnd|
            #[trigger] is_chain(*cfg, dos, darch, startv, names2, term2) implies {
            &&& seq_views(out@).len() == names2.len()
            &&& forall|j: int|
                0 <= j < names2.len() ==> seq_views(out@)[j] == chain_core_candidate(
                    *cfg,
                    *ctx,
                    names2,
                    j,
                )
            &&& term_shape(term) == term_shape(term2)
        } by {
            lemma_chain_unique(*cfg, dos, darch, startv, nv, term, names2, term2);
        }
    }
    (out, term)
}

/// Law: with toolchain `a` falling back to `b`, `b` closing the chain,
/// and the executable's candidate existing only under `b`, resolution
/// starting at `a` returns `b`'s candidate path.
pub proof fn lemma_fallback_finds_executable(
    cfg: Config,
    ctx: Context,
    fsv: Set<Seq<char>>,
    a: Seq<char>,
    b: Seq<char>,
    exe: Seq<char>,
    r: Result<String, ResolveError>,
)
    requires
        cfg.toolchain@.contains_key(a),
        cfg.toolchain@.contains_key(b),
        a != b,
        cfg.toolchain@[a].fallback matches Some(fb) && fb@ == b,
        cfg.toolchain@[b].fallback is None,
        !fsv.contains(
            spec_exe_candidate(
                cfg.toolchain@[a],
                ctx.home@,
                ctx.platform,
                a,
                spec_exe_base(ctx.platform, exe),
            ),
        ),
        fsv.contains(
            spec_exe_candidate(
                cfg.toolchain@[b],
                ctx.home@,
                ctx.platform,
                b,
                spec_exe_base(ctx.platform, exe),
            ),
        ),
        resolves_executable(cfg, ctx, fsv, a, exe, r),
    ensures
        r matches Ok(p) && p@ == spec_exe_candidate(
            cfg.toolchain@[b],
            ctx.home@,
            ctx.platform,
            b,
            spec_exe_base(ctx.platform, exe),
        ),
{
    let names = seq![a, b];
    let term = ChainEnd::End;
    let base = spec_exe_base(ctx.platform, exe);
    assert(is_chain(cfg, ctx.host.os@, ctx.host.arch@, a, names, term)) by {
        assert(spec_resolved_name(cfg, ctx.host.os@, ctx.host.arch@, a) == Some(a));
        assert(spec_resolved_name(cfg, ctx.host.os@, ctx.host.arch@, b) == Some(b));
        assert(names.last() == b);
        assert(names.no_duplicates());
    }
    assert(exec_outcome(cfg, ctx, fsv, a, exe, names, term, r));
    assert(chain_exe_candidate(cfg, ctx, names, base, 0) == spec_exe_candidate(
        cfg.toolchain@[a],
        ctx.home@,
        ctx.platform,
        a,
        base,
    ));
    assert(chain_exe_candidate(cfg, ctx, names, base, 1) == spec_exe_candidate(
        cfg.toolchain@[b],
        ctx.home@,
        ctx.platform,
        b,
        base,
    ));
    match r {
        Ok(p) => {
            let i = choose|i: int|
                {
                    &&& 0 <= i < names.len()
                    &&& p@ == #[trigger] chain_exe_candidate(cfg, ctx, names, base, i)
                    &&& fsv.contains(chain_exe_candidate(cfg, ctx, names, base, i))
                    &&& forall|j: int|
                        0 <= j < i ==> !fsv.contains(
                            #[trigger] chain_exe_candidate(cfg, ctx, names, base, j),
                        )
                };
            assert(i == 1);
        },
        Err(e) => {
            assert(!fsv.contains(chain_exe_candidate(cfg, ctx, names, base, 1)));
        },
    }
}

/// Law: with the same two-entry chain and the executable's candidate
/// existing under neither entry, resolution fails with an error that
/// names the original request `a` and the last probed path.
pub proof fn lemma_fallback_exhausted(
    cfg: Config,
    ctx: Context,
    fsv: Set<Seq<char>>,
    a: Seq<char>,
    b: Seq<char>,
    exe: Seq<char>,
    r: Result<String, ResolveError>,
)
    requires
        cfg.toolchain@.contains_key(a),
        cfg.toolchain@.contains_key(b),
        a != b,
        cfg.toolchain@[a].fallback matches Some(fb) && fb@ == b,
        cfg.toolchain@[b].fallback is None,
        !fsv.contains(
            spec_exe_candidate(
                cfg.toolchain@[a],
                ctx.home@,
                ctx.platform,
                a,
                spec_exe_base(ctx.platform, exe),
            ),
        ),
        !fsv.contains(
            spec_exe_candidate(
                cfg.toolchain@[b],
                ctx.home@,
                ctx.platform,
                b,
                spec_exe_base(ctx.platform, exe),
            ),
        ),
        resolves_executable(cfg, ctx, fsv, a, exe, r),
    ensures
        r matches Err(e) && e matches ResolveError::ExecutableNotFound {
            requested,
            executable,
            probed,
        } && requested@ == a && executable@ == exe && probed@ == spec_exe_candidate(
            cfg.toolchain@[b],
            ctx.home@,
            ctx.platform,
            b,
            spec_exe_base(ctx.platform, exe),
        ),
{
    let names = seq![a, b];
    let term = ChainEnd::End;
    let base = spec_exe_base(ctx.platform, exe);
    assert(is_chain(cfg, ctx.host.os@, ctx.host.arch@, a, names, term)) by {
        assert(spec_resolved_name(cfg, ctx.host.os@, ctx.host.arch@, a) == Some(a));
        assert(spec_resolved_name(cfg, ctx.host.os@, ctx.host.arch@, b) == Some(b));
        assert(names.last() == b);
        assert(names.no_duplicates());
    }
    assert(exec_outcome(cfg, ctx, fsv, a, exe, names, term, r));
    assert(chain_exe_candidate(cfg, ctx, names, base, 0) == spec_exe_candidate(
        cfg.toolchain@[a],
        ctx.home@,
        ctx.platform,
        a,
        base,
    ));
    assert(chain_exe_candidate(cfg, ctx, names, base, 1) == spec_exe_candidate(
        cfg.toolchain@[b],
        ctx.home@,
        ctx.platform,
        b,
        base,
    ));
    match r {
        Ok(p) => {
            let i = choose|i: int|
                {
                    &&& 0 <= i < names.len()
                    &&& p@ == #[trigger] chain_exe_candidate(cfg, ctx, names, base, i)
                    &&& fsv.contains(chain_exe_candidate(cfg, ctx, names, base, i))
                };
            assert(i == 0 || i == 1);
        },
        Err(e) => {},
    }
}

/// Law: a per-executable override takes precedence over the entry's
/// root-derived path whenever the override's target exists, whether or
/// not a file exists at the root-derived path too.
pub proof fn lemma_override_precedence(
    cfg: Config,
    ctx: Context,
    fsv: Set<Seq<char>>,
    a: Seq<char>,
    exe: Seq<char>,
    r: Result<String, ResolveError>,
)
    requires
        cfg.toolchain@.contains_key(a),
        cfg.toolchain@[a].fallback is None,
        cfg.toolchain@[a].override_@.contains_key(spec_exe_base(ctx.platform, exe)),
        fsv.contains(cfg.toolchain@[a].override_@[spec_exe_base(ctx.platform, exe)]@),
        resolves_executable(cfg, ctx, fsv, a, exe, r),
    ensures
        r matches Ok(p) && p@ == cfg.toolchain@[a].override_@[spec_exe_base(ctx.platform, exe)]@,
{
    let names = seq![a];
    let term = ChainEnd::End;
    let base = spec_exe_base(ctx.platform, exe);
    assert(is_chain(cfg, ctx.host.os@, ctx.host.arch@, a, names, term)) by {
        assert(spec_resolved_name(cfg, ctx.host.os@, ctx.host.arch@, a) == Some(a));
        assert(names.last() == a);
        assert(names.no_duplicates());
    }
    assert(exec_outcome(cfg, ctx, fsv, a, exe, names, term, r));
    assert(chain_exe_candidate(cfg, ctx, names, base, 0) == cfg.toolchain@[a].override_@[base]@);
    match r {
        Ok(p) => {
            let i = choose|i: int|
                {
                    &&& 0 <= i < names.len()
                    &&& p@ == #[trigger] chain_exe_candidate(cfg, ctx, names, base, i)
                    &&& fsv.contains(chain_exe_candidate(cfg, ctx, names, base, i))
                };
            assert(i == 0);
        },
        Err(e) => {
            assert(!fsv.contains(chain_exe_candidate(cfg, ctx, names, base, 0)));
        },
    }
}

} // verus!
