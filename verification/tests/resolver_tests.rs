use lunik::channel::Host;
use lunik::config::{
    add_channel, channels_to_update, config_path, home_dir, lunik_dir, moon_bin_dir,
    remove_channel, set_default, toolchain_path, Config, ConfigError, Context, Platform,
    ToolchainInfo,
};
use lunik::mux::{
    configure_cmd_environment, exit_code_for, extract_arg0_executable_name, run_bundle_core,
    executable_entry, toolchain_arg,
};
use lunik::resolve::{
    real_toolchain_name, try_get_executable, try_get_toolchain_home, try_get_core_lib,
    ChainEnd, ConfigToolchainFallbackIter, FsState, ResolveError,
};
use lunik::strmap::StrMap;

fn ctx() -> Context {
    Context {
        home: "/home/u/.moon".to_string(),
        host: Host::new("linux".to_string(), "x86_64".to_string()),
        platform: Platform::Unix,
    }
}

fn two_chain_config() -> Config {
    // Toolchain A falls back to B; B closes the chain.
    let mut info_a = ToolchainInfo::default();
    info_a.fallback = Some("B".to_string());
    let info_b = ToolchainInfo::default();
    let toolchain = StrMap::new()
        .insert("A".to_string(), info_a)
        .insert("B".to_string(), info_b);
    Config { toolchain, channels: StrMap::new(), default: "A".to_string() }
}

fn bin_path(name: &str, exe: &str) -> String {
    format!("/home/u/.moon/lunik/toolchain/{}/bin/{}", name, exe)
}

#[test]
fn fallback_chain_finds_executable() {
    // The executable exists only under B's root: resolution starting at
    // A must return B's path.
    let cfg = two_chain_config();
    let fs = FsState::new().add(bin_path("B", "moon"));
    let r = try_get_executable(&cfg, &ctx(), &fs, Some("A"), "moon");
    assert_eq!(r.unwrap(), bin_path("B", "moon"));
}

#[test]
fn fallback_chain_exhausted_names_request() {
    // The executable exists nowhere: the error names the original
    // request A, not B.
    let cfg = two_chain_config();
    let fs = FsState::new();
    match try_get_executable(&cfg, &ctx(), &fs, Some("A"), "moon") {
        Err(ResolveError::ExecutableNotFound { requested, executable, probed }) => {
            assert_eq!(requested, "A");
            assert_eq!(executable, "moon");
            assert_eq!(probed, bin_path("B", "moon"));
        },
        other => panic!("expected an executable-not-found error, got {:?}", other),
    }
}

#[test]
fn override_beats_root_path() {
    // A carries an override for the executable; the override wins even
    // though a file also exists at the root-derived path.
    let mut info_a = ToolchainInfo::default();
    info_a.override_ = StrMap::new().insert("moon".to_string(), "/opt/custom/moon".to_string());
    let toolchain = StrMap::new().insert("A".to_string(), info_a);
    let cfg = Config { toolchain, channels: StrMap::new(), default: "A".to_string() };
    let fs = FsState::new().add("/opt/custom/moon".to_string()).add(bin_path("A", "moon"));
    let r = try_get_executable(&cfg, &ctx(), &fs, Some("A"), "moon");
    assert_eq!(r.unwrap(), "/opt/custom/moon");
}

#[test]
fn fallback_cycle_is_detected() {
    let mut info_a = ToolchainInfo::default();
    info_a.fallback = Some("B".to_string());
    let mut info_b = ToolchainInfo::default();
    info_b.fallback = Some("A".to_string());
    let toolchain = StrMap::new()
        .insert("A".to_string(), info_a)
        .insert("B".to_string(), info_b);
    let cfg = Config { toolchain, channels: StrMap::new(), default: "A".to_string() };
    let fs = FsState::new();
    match try_get_executable(&cfg, &ctx(), &fs, Some("A"), "moon") {
        Err(ResolveError::FallbackCycle { requested, at }) => {
            assert_eq!(requested, "A");
            assert_eq!(at, "A");
        },
        other => panic!("expected a cycle error, got {:?}", other),
    }
}

#[test]
fn unknown_toolchain_is_reported() {
    let cfg = two_chain_config();
    let fs = FsState::new();
    match try_get_executable(&cfg, &ctx(), &fs, Some("nope!"), "moon") {
        Err(ResolveError::ToolchainNotFound { requested, missing }) => {
            assert_eq!(requested, "nope!");
            assert_eq!(missing, "nope!");
        },
        other => panic!("expected a toolchain-not-found error, got {:?}", other),
    }
}

#[test]
fn channel_name_is_canonicalized() {
    // "latest" is not configured directly, but its canonical channel
    // form is; the entry is found under the canonical name.
    let info = ToolchainInfo::default();
    let toolchain = StrMap::new().insert("latest-linux-x86_64".to_string(), info);
    let cfg = Config { toolchain, channels: StrMap::new(), default: String::new() };
    let fs = FsState::new().add(bin_path("latest-linux-x86_64", "moon"));
    let r = try_get_executable(&cfg, &ctx(), &fs, Some("latest"), "moon");
    assert_eq!(r.unwrap(), bin_path("latest-linux-x86_64", "moon"));
}

#[test]
fn direct_entry_wins_over_channel_form() {
    // A name configured directly is taken as it stands, even though it
    // also parses as a channel whose canonical form is configured too.
    let mut direct = ToolchainInfo::default();
    direct.root_path = Some("/direct".to_string());
    let mut canonical = ToolchainInfo::default();
    canonical.root_path = Some("/canonical".to_string());
    let toolchain = StrMap::new()
        .insert("latest".to_string(), direct)
        .insert("latest-linux-x86_64".to_string(), canonical);
    let cfg = Config { toolchain, channels: StrMap::new(), default: String::new() };
    let fs = FsState::new()
        .add("/direct/bin/moon".to_string())
        .add("/canonical/bin/moon".to_string());
    let r = try_get_executable(&cfg, &ctx(), &fs, Some("latest"), "moon");
    assert_eq!(r.unwrap(), "/direct/bin/moon");
}

#[test]
fn default_toolchain_is_used() {
    let cfg = two_chain_config();
    let fs = FsState::new().add(bin_path("B", "moon"));
    let r = try_get_executable(&cfg, &ctx(), &fs, None, "moon");
    assert_eq!(r.unwrap(), bin_path("B", "moon"));
}

#[test]
fn toolchain_home_is_last_link() {
    let cfg = two_chain_config();
    let home = try_get_toolchain_home(&cfg, &ctx(), Some("A")).unwrap();
    assert_eq!(home, "/home/u/.moon/lunik/toolchain/B");
}

#[test]
fn toolchain_home_respects_root_path() {
    let mut info = ToolchainInfo::default();
    info.root_path = Some("/opt/moon-root".to_string());
    let toolchain = StrMap::new().insert("A".to_string(), info);
    let cfg = Config { toolchain, channels: StrMap::new(), default: "A".to_string() };
    let home = try_get_toolchain_home(&cfg, &ctx(), Some("A")).unwrap();
    assert_eq!(home, "/opt/moon-root");
}

#[test]
fn core_lib_resolution() {
    let cfg = two_chain_config();
    let fs = FsState::new().add("/home/u/.moon/lunik/toolchain/B/lib/core".to_string());
    let r = try_get_core_lib(&cfg, &ctx(), &fs, Some("A"));
    assert_eq!(r.unwrap(), "/home/u/.moon/lunik/toolchain/B/lib/core");

    let mut info = ToolchainInfo::default();
    info.core_path = Some("/opt/core".to_string());
    let toolchain = StrMap::new().insert("C".to_string(), info);
    let cfg2 = Config { toolchain, channels: StrMap::new(), default: "C".to_string() };
    let fs2 = FsState::new().add("/opt/core".to_string());
    assert_eq!(try_get_core_lib(&cfg2, &ctx(), &fs2, None).unwrap(), "/opt/core");
}

#[test]
fn fallback_iterator_walks_chain() {
    let cfg = two_chain_config();
    let context = ctx();
    let mut it = ConfigToolchainFallbackIter::new(&cfg, &context, "A");
    let (name, info) = it.next().unwrap();
    assert_eq!(name, "A");
    assert_eq!(info.fallback.as_deref(), Some("B"));
    let (name, info) = it.next().unwrap();
    assert_eq!(name, "B");
    assert!(info.fallback.is_none());
    assert!(it.next().is_none());
    assert!(matches!(it.end(), ChainEnd::End));
}

#[test]
fn fallback_iterator_reports_missing_names() {
    let cfg = two_chain_config();
    let context = ctx();
    let mut it = ConfigToolchainFallbackIter::new(&cfg, &context, "no such toolchain");
    assert!(it.next().is_none());
    match it.end() {
        ChainEnd::Missing { name } => assert_eq!(name, "no such toolchain"),
        other => panic!("expected a missing name, got {:?}", other),
    }
}

#[test]
fn windows_executable_suffix_handling() {
    // The suffix is stripped for the override lookup and re-added for
    // the derived path.
    let mut info = ToolchainInfo::default();
    info.override_ = StrMap::new().insert("moon".to_string(), "C:/custom/moon.exe".to_string());
    let toolchain = StrMap::new().insert("A".to_string(), info);
    let cfg = Config { toolchain, channels: StrMap::new(), default: "A".to_string() };
    let context = Context {
        home: "/h".to_string(),
        host: Host::new("windows".to_string(), "x86_64".to_string()),
        platform: Platform::Windows,
    };
    let fs = FsState::new().add("C:/custom/moon.exe".to_string());
    let r = try_get_executable(&cfg, &context, &fs, Some("A"), "moon.exe");
    assert_eq!(r.unwrap(), "C:/custom/moon.exe");

    let toolchain2 = StrMap::new().insert("B".to_string(), ToolchainInfo::default());
    let cfg2 = Config { toolchain: toolchain2, channels: StrMap::new(), default: "B".to_string() };
    let derived = "/h/lunik/toolchain/B/bin/moonrun.exe".to_string();
    let fs2 = FsState::new().add(derived.clone());
    let r2 = try_get_executable(&cfg2, &context, &fs2, Some("B"), "moonrun.exe");
    assert_eq!(r2.unwrap(), derived);
}

#[test]
fn real_toolchain_name_prefers_direct_entry() {
    let context = ctx();
    // A name that also parses as a channel, but is configured directly.
    let info = ToolchainInfo::default();
    let toolchain = StrMap::new().insert("latest".to_string(), info);
    let cfg = Config { toolchain, channels: StrMap::new(), default: String::new() };
    assert_eq!(real_toolchain_name(&cfg, &context, "latest").unwrap(), "latest");

    // Otherwise the canonical channel form is used.
    let cfg2 = Config {
        toolchain: StrMap::new(),
        channels: StrMap::new(),
        default: String::new(),
    };
    assert_eq!(
        real_toolchain_name(&cfg2, &context, "latest").unwrap(),
        "latest-linux-x86_64"
    );
    assert!(real_toolchain_name(&cfg2, &context, "latest-").is_err());
}

#[test]
fn config_transactions() {
    let mut cfg = Config::default();
    assert!(add_channel(&mut cfg, "1.0.0-linux-x86_64").is_ok());
    assert!(cfg.channels.contains_key("1.0.0-linux-x86_64"));
    assert!(cfg.toolchain.contains_key("1.0.0-linux-x86_64"));
    assert_eq!(
        add_channel(&mut cfg, "1.0.0-linux-x86_64").unwrap_err(),
        ConfigError::ChannelExists
    );

    set_default(&mut cfg, "1.0.0-linux-x86_64".to_string());
    assert_eq!(cfg.default, "1.0.0-linux-x86_64");

    assert_eq!(
        remove_channel(&mut cfg, "2.0.0-linux-x86_64").unwrap_err(),
        ConfigError::ChannelNotFound
    );
    assert!(remove_channel(&mut cfg, "1.0.0-linux-x86_64").is_ok());
    assert!(!cfg.channels.contains_key("1.0.0-linux-x86_64"));
    assert!(!cfg.toolchain.contains_key("1.0.0-linux-x86_64"));
}

#[test]
fn update_list_defaults_to_all_channels() {
    let mut cfg = Config::default();
    add_channel(&mut cfg, "a-linux-x86_64").unwrap();
    add_channel(&mut cfg, "b-linux-x86_64").unwrap();
    let all = channels_to_update(&cfg, &Vec::new());
    assert_eq!(all, vec!["a-linux-x86_64".to_string(), "b-linux-x86_64".to_string()]);
    let some = channels_to_update(&cfg, &vec!["b-linux-x86_64".to_string()]);
    assert_eq!(some, vec!["b-linux-x86_64".to_string()]);
}

#[test]
fn paths_derive_from_home() {
    assert_eq!(moon_bin_dir("/h/.moon"), "/h/.moon/bin");
    assert_eq!(lunik_dir("/h/.moon"), "/h/.moon/lunik");
    assert_eq!(config_path("/h/.moon"), "/h/.moon/lunik.json");
    assert_eq!(toolchain_path("/h/.moon", "latest-linux-x86_64"),
        "/h/.moon/lunik/toolchain/latest-linux-x86_64");
}

#[test]
fn home_dir_resolution_order() {
    assert_eq!(
        home_dir(Some("/a".to_string()), Some("/b".to_string()), Some("/c".to_string())),
        "/a"
    );
    assert_eq!(home_dir(None, Some("/b".to_string()), Some("/c".to_string())), "/b");
    assert_eq!(home_dir(None, None, Some("/c".to_string())), "/c/.moon");
    assert_eq!(home_dir(None, None, None), ".moon");
}

#[test]
fn arg0_executable_name() {
    assert_eq!(extract_arg0_executable_name("/usr/bin/moon").unwrap(), "moon");
    assert_eq!(extract_arg0_executable_name("moonrun.exe").unwrap(), "moonrun");
    assert_eq!(extract_arg0_executable_name("lunik").unwrap(), "lunik");
    assert_eq!(extract_arg0_executable_name(".bashrc").unwrap(), ".bashrc");
    assert!(extract_arg0_executable_name("").is_none());
    assert!(extract_arg0_executable_name("/usr/bin/").is_none());
}

#[test]
fn plus_argument_selects_toolchain() {
    let argv = vec!["+latest".to_string(), "build".to_string()];
    assert_eq!(toolchain_arg(&argv).unwrap(), "latest");
    let argv = vec!["build".to_string()];
    assert!(toolchain_arg(&argv).is_none());
    assert!(toolchain_arg(&Vec::new()).is_none());
}

#[test]
fn exit_codes_propagate() {
    assert_eq!(exit_code_for(Some(3)), 3);
    assert_eq!(exit_code_for(Some(0)), 0);
    assert_eq!(exit_code_for(None), 1);
}

#[test]
fn launch_environment_entries() {
    let cfg = two_chain_config();
    let context = ctx();
    let fs = FsState::new().add("/home/u/.moon/lunik/toolchain/B/lib/core".to_string());
    let env = configure_cmd_environment(&cfg, &context, &fs, Some("A"), false).unwrap();
    assert_eq!(env.len(), 4);
    assert_eq!(env[0], ("LUNIK_HOME".to_string(), "/home/u/.moon".to_string()));
    assert_eq!(env[1], ("LUNIK_TOOLCHAIN".to_string(), "A".to_string()));
    assert_eq!(
        env[2],
        ("MOON_HOME".to_string(), "/home/u/.moon/lunik/toolchain/B".to_string())
    );
    assert_eq!(
        env[3],
        (
            "MOON_CORE_OVERRIDE".to_string(),
            "/home/u/.moon/lunik/toolchain/B/lib/core".to_string()
        )
    );

    // An override already present in the caller's environment is left
    // alone: no entry is added for it.
    let env2 = configure_cmd_environment(&cfg, &context, &fs, Some("A"), true).unwrap();
    assert_eq!(env2.len(), 3);

    // Without an explicit toolchain no toolchain entry is set.
    let env3 = configure_cmd_environment(&cfg, &context, &fs, None, true).unwrap();
    assert_eq!(env3.len(), 2);
    assert_eq!(env3[1].0, "MOON_HOME");
}

#[test]
fn invocation_carries_args_and_env() {
    let cfg = two_chain_config();
    let context = ctx();
    let fs = FsState::new()
        .add(bin_path("B", "moon"))
        .add("/home/u/.moon/lunik/toolchain/B/lib/core".to_string());
    let inv = executable_entry(
        &cfg,
        &context,
        &fs,
        Some("A"),
        "moon",
        vec!["build".to_string()],
        true,
    )
    .unwrap();
    assert_eq!(inv.program, bin_path("B", "moon"));
    assert_eq!(inv.args, vec!["build".to_string()]);
    assert_eq!(inv.env.len(), 3);
}

#[test]
fn bundle_invocation_shape() {
    let cfg = two_chain_config();
    let context = ctx();
    let fs = FsState::new()
        .add(bin_path("A", "moon"))
        .add("/home/u/.moon/lunik/toolchain/A/lib/core".to_string());
    let inv = run_bundle_core(&cfg, &context, &fs, "A", "/tgt/lib/core", true).unwrap();
    assert_eq!(inv.program, bin_path("A", "moon"));
    assert_eq!(
        inv.args,
        vec![
            "bundle".to_string(),
            "--all".to_string(),
            "--source-dir".to_string(),
            "/tgt/lib/core".to_string()
        ]
    );
}

#[test]
fn strmap_behaves_like_a_map() {
    let m: StrMap<u64> = StrMap::new();
    assert_eq!(m.len(), 0);
    let m = m.insert("a".to_string(), 1).insert("b".to_string(), 2);
    assert_eq!(m.len(), 2);
    assert_eq!(m.get("a"), Some(&1));
    let m = m.insert("a".to_string(), 7);
    assert_eq!(m.len(), 2);
    assert_eq!(m.get("a"), Some(&7));
    let m = m.remove("b");
    assert_eq!(m.get("b"), None);
    assert_eq!(m.len(), 1);
    assert_eq!(m.keys(), vec!["a".to_string()]);
}
