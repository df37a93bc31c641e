//! The persisted configuration and the paths derived from the home
//! directory.
//!
//! Reading and writing the configuration file is left to the surrounding
//! binary; this module holds the data model and the pure path and
//! mutation logic.

use vstd::prelude::*;

use crate::channel::Host;
use crate::strmap::StrMap;

verus! {

/// The platform flavour that decides executable naming and linking.
#[derive(Debug, Clone, Copy, PartialEq, Eq, Structural)]
pub enum Platform {
    Unix,
    Windows,
}

impl Platform {
    /// The suffix that executables carry on this platform.
    pub open spec fn spec_exe_suffix(self) -> Seq<char> {
        if self is Windows {
            ".exe"@
        } else {
            Seq::<char>::empty()
        }
    }

    /// The suffix that executables carry on this platform.
    pub fn exe_suffix(self) -> (r: &'static str)
        ensures
            r@ == self.spec_exe_suffix(),
    {
        match self {
            Platform::Windows => ".exe",
            Platform::Unix => {
                proof {
                    reveal_strlit("");
                    assert(""@ =~= Seq::<char>::empty());
                }
                ""
            },
        }
    }
}

/// The per-process context: the resolved home directory, the host triple
/// of the running platform, and the platform flavour.  It is built once
/// at process start and passed to every component that needs it.
pub struct Context {
    pub home: String,
    pub host: Host,
    pub platform: Platform,
}

/// Per-toolchain record of the configuration.
pub struct ToolchainInfo {
    /// The toolchain consulted next when a resource is missing here.
    pub fallback: Option<String>,
    /// Where the toolchain's files live, overriding the derived path.
    pub root_path: Option<String>,
    /// Per-executable paths that bypass the root path entirely.
    pub override_: StrMap<String>,
    /// Where the support library lives, overriding the derived path.
    pub core_path: Option<String>,
}

/// True of a toolchain record with no fallback and no overrides.
pub open spec fn empty_toolchain_info(t: ToolchainInfo) -> bool {
    &&& t.fallback is None
    &&& t.root_path is None
    &&& t.override_@ == Map::<Seq<char>, String>::empty()
    &&& t.core_path is None
}

impl Default for ToolchainInfo {
    /// An empty toolchain record.
    fn default() -> (r: Self)
        ensures
            empty_toolchain_info(r),
    {
        ToolchainInfo { fallback: None, root_path: None, override_: StrMap::new(), core_path: None }
    }
}

/// Per-channel record of the configuration.
pub struct ChannelInfo {
    /// An override for the download location.
    pub url: Option<String>,
}

/// True of a channel record with no overrides.
pub open spec fn empty_channel_info(c: ChannelInfo) -> bool {
    c.url is None
}

impl Default for ChannelInfo {
    /// An empty channel record.
    fn default() -> (r: Self)
        ensures
            empty_channel_info(r),
    {
        ChannelInfo { url: None }
    }
}

/// The persisted configuration.
pub struct Config {
    /// Toolchain information, keyed by toolchain name.
    pub toolchain: StrMap<ToolchainInfo>,
    /// Channel information, keyed by canonical channel name.
    pub channels: StrMap<ChannelInfo>,
    /// The name of the toolchain used when none is specified.
    pub default: String,
}

impl Default for Config {
    /// A configuration with no toolchains, no channels and no default.
    fn default() -> (r: Self)
        ensures
            r.toolchain@ == Map::<Seq<char>, ToolchainInfo>::empty(),
            r.channels@ == Map::<Seq<char>, ChannelInfo>::empty(),
            r.default@ == Seq::<char>::empty(),
    {
        Config { toolchain: StrMap::new(), channels: StrMap::new(), default: String::new() }
    }
}

/// A path formed by joining `name` under `base` with a separator.
pub open spec fn joined(base: Seq<char>, name: Seq<char>) -> Seq<char> {
    base + "/"@ + name
}

/// Joins a file or directory name under a base path.
pub fn join_path(base: &str, name: &str) -> (r: String)
    ensures
        r@ == joined(base@, name@),
{
    let mut out = base.to_owned();
    out.append("/");
    out.append(name);
    proof {
        assert(out@ =~= joined(base@, name@));
    }
    out
}

/// Resolves the home directory from the readings of the two override
/// environment values and the platform's home directory, in that order
/// of preference.  Without any of the three, the fixed directory name
/// alone is used.
pub fn home_dir(lunik_home: Option<String>, moon_home: Option<String>, platform_home: Option<
    String,
>) -> (r: String)
    ensures
        match lunik_home {
            Some(h) => r@ == h@,
            None => match moon_home {
                Some(h) => r@ == h@,
                None => match platform_home {
                    Some(h) => r@ == joined(h@, ".moon"@),
                    None => r@ == ".moon"@,
                },
            },
        },
{
    match lunik_home {
        Some(h) => h,
        None => match moon_home {
            Some(h) => h,
            None => match platform_home {
                Some(h) => join_path(h.as_str(), ".moon"),
                None => ".moon".to_owned(),
            },
        },
    }
}

/// The directory holding the globally linked executables.
pub fn moon_bin_dir(home: &str) -> (r: String)
    ensures
        r@ == joined(home@, "bin"@),
{
    join_path(home, "bin")
}

/// The resource directory of the multiplexer itself.
pub fn lunik_dir(home: &str) -> (r: String)
    ensures
        r@ == joined(home@, "lunik"@),
{
    join_path(home, "lunik")
}

/// The path of the configuration file.
pub fn config_path(home: &str) -> (r: String)
    ensures
        r@ == joined(home@, "lunik.json"@),
{
    join_path(home, "lunik.json")
}

/// The root directory holding all installed toolchains.
pub fn toolchain_root(home: &str) -> (r: String)
    ensures
        r@ == joined(joined(home@, "lunik"@), "toolchain"@),
{
    let dir = lunik_dir(home);
    join_path(dir.as_str(), "toolchain")
}

/// The derived root directory of a named toolchain.
pub fn toolchain_path(home: &str, toolchain_name: &str) -> (r: String)
    ensures
        r@ == spec_toolchain_path(home@, toolchain_name@),
{
    let root = toolchain_root(home);
    join_path(root.as_str(), toolchain_name)
}

/// The derived root directory of a named toolchain.
pub open spec fn spec_toolchain_path(home: Seq<char>, name: Seq<char>) -> Seq<char> {
    joined(joined(joined(home, "lunik"@), "toolchain"@), name)
}

/// Errors from the configuration transactions.
#[derive(Debug, Clone, Copy, PartialEq, Eq, Structural)]
pub enum ConfigError {
    /// The channel is already installed.
    ChannelExists,
    /// The channel is not installed.
    ChannelNotFound,
}

/// Records a new channel: both a channel entry and an empty toolchain
/// entry are added under the canonical channel name.  Fails when the
/// channel is already recorded.
pub fn add_channel(cfg: &mut Config, channel_name: &str) -> (r: Result<(), ConfigError>)
    ensures
        match r {
            Ok(()) => {
                &&& !old(cfg).channels@.contains_key(channel_name@)
                &&& final(cfg).channels@.contains_key(channel_name@)
                &&& empty_channel_info(final(cfg).channels@[channel_name@])
                &&& final(cfg).channels@ == old(cfg).channels@.insert(
                    channel_name@,
                    final(cfg).channels@[channel_name@],
                )
                &&& final(cfg).toolchain@.contains_key(channel_name@)
                &&& empty_toolchain_info(final(cfg).toolchain@[channel_name@])
                &&& final(cfg).toolchain@ == old(cfg).toolchain@.insert(
                    channel_name@,
                    final(cfg).toolchain@[channel_name@],
                )
                &&& final(cfg).default@ == old(cfg).default@
            },
            Err(e) => {
                &&& e == ConfigError::ChannelExists
                &&& old(cfg).channels@.contains_key(channel_name@)
                &&& *final(cfg) == *old(cfg)
            },
        },
        r is Err <==> old(cfg).channels@.contains_key(channel_name@),
{
    if cfg.channels.contains_key(channel_name) {
        return Err(ConfigError::ChannelExists);
    }
    let mut channels = StrMap::new();
    core::mem::swap(&mut channels, &mut cfg.channels);
    cfg.channels = channels.insert(channel_name.to_owned(), ChannelInfo::default());
    let mut toolchain = StrMap::new();
    core::mem::swap(&mut toolchain, &mut cfg.toolchain);
    cfg.toolchain = toolchain.insert(channel_name.to_owned(), ToolchainInfo::default());
    Ok(())
}

/// Forgets a channel: both the channel entry and the toolchain entry
/// under the canonical channel name are dropped.  Fails when the channel
/// is not recorded.
pub fn remove_channel(cfg: &mut Config, channel_name: &str) -> (r: Result<(), ConfigError>)
    ensures
        match r {
            Ok(()) => {
                &&& old(cfg).channels@.contains_key(channel_name@)
                &&& final(cfg).channels@ == old(cfg).channels@.remove(channel_name@)
                &&& final(cfg).toolchain@ == old(cfg).toolchain@.remove(channel_name@)
                &&& final(cfg).default@ == old(cfg).default@
            },
            Err(e) => {
                &&& e == ConfigError::ChannelNotFound
                &&& !old(cfg).channels@.contains_key(channel_name@)
                &&& *final(cfg) == *old(cfg)
            },
        },
        r is Err <==> !old(cfg).channels@.contains_key(channel_name@),
{
    if !cfg.channels.contains_key(channel_name) {
        return Err(ConfigError::ChannelNotFound);
    }
    let mut channels = StrMap::new();
    core::mem::swap(&mut channels, &mut cfg.channels);
    cfg.channels = channels.remove(channel_name);
    let mut toolchain = StrMap::new();
    core::mem::swap(&mut toolchain, &mut cfg.toolchain);
    cfg.toolchain = toolchain.remove(channel_name);
    Ok(())
}

/// Makes the given toolchain name the default.
pub fn set_default(cfg: &mut Config, name: String)
    ensures
        final(cfg).default@ == name@,
        final(cfg).toolchain@ == old(cfg).toolchain@,
        final(cfg).channels@ == old(cfg).channels@,
{
    cfg.default = name;
}

/// The channels that an update operation works on: the requested ones,
/// or every recorded channel when none is requested.
pub fn channels_to_update(cfg: &Config, requested: &Vec<String>) -> (r: Vec<String>)
    ensures
        requested@.len() > 0 ==> r@.map_values(|s: String| s@) == requested@.map_values(
            |s: String| s@,
        ),
        requested@.len() == 0 ==> r@.map_values(|s: String| s@) == cfg.channels.spec_keys(),
{
    if requested.len() == 0 {
        cfg.channels.keys()
    } else {
        let n = requested.len();
        let mut out: Vec<String> = Vec::new();
        let mut i: usize = 0;
        while i < n
            invariant
                n == requested@.len(),
                0 <= i <= n,
                out@.len() == i,
                forall|j: int| 0 <= j < i ==> out@[j]@ == requested@[j]@,
            decreases n - i,
        {
            out.push(requested[i].clone());
            i += 1;
        }
        proof {
            assert(out@.map_values(|s: String| s@) =~= requested@.map_values(|s: String| s@));
        }
        out
    }
}

} // verus!
