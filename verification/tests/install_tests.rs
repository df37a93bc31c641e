use lunik::channel::{Channel, Host};
use lunik::config::Platform;
use lunik::install::{
    can_be_executable, channel_cli_file_url, channel_core_file_url, channel_sha_url,
    file_digest_hex, find_branched_core_dir, link_plan, parse_sha_manifest, verify_outputs,
    DirEntry, FileCheck, InstallAction, InstallEvent, InstallFlow, InstallStage, ShaEntry,
    split_lines,
};
use lunik::resolve::FsState;

const ABC_SHA256: &str = "ba7816bf8f01cfea414140de5dae2223b00361a396177a9cb410ff61f20015ad";

fn host() -> Host {
    Host::new("linux".to_string(), "x86_64".to_string())
}

fn file(name: &str, is_file: bool, is_dir: bool) -> DirEntry {
    DirEntry { name: name.to_string(), is_file, is_dir }
}

#[test]
fn urls_from_channel_text() {
    let ch = Channel::parse("1.0.0-linux-x86_64", &host()).unwrap();
    assert_eq!(
        channel_cli_file_url(&ch),
        "https://cli.moonbitlang.com/binaries/1.0.0/moonbit-linux-x86_64.tar.gz"
    );
    assert_eq!(
        channel_core_file_url(&ch),
        "https://cli.moonbitlang.com/cores/core-1.0.0.tar.gz"
    );
    assert_eq!(
        channel_sha_url(&ch),
        "https://cli.moonbitlang.com/binaries/1.0.0/moonbit-linux-x86_64.sha256"
    );
}

#[test]
fn bleeding_core_comes_from_source_repository() {
    let ch = Channel::parse("bleeding-linux-x86_64", &host()).unwrap();
    assert_eq!(
        channel_core_file_url(&ch),
        "https://github.com/moonbitlang/core/archive/refs/heads/main.tar.gz"
    );
    assert_eq!(
        channel_cli_file_url(&ch),
        "https://cli.moonbitlang.com/binaries/bleeding/moonbit-linux-x86_64.tar.gz"
    );
}

#[test]
fn digest_of_known_bytes() {
    assert_eq!(file_digest_hex(&b"abc".to_vec()), ABC_SHA256);
}

#[test]
fn checksum_verification_reports_both_digests() {
    let ok = FileCheck {
        filename: "moon".to_string(),
        expected: ABC_SHA256.to_string(),
        data: b"abc".to_vec(),
    };
    assert!(verify_outputs(&vec![ok]).is_ok());

    let bad = FileCheck {
        filename: "moon".to_string(),
        expected: ABC_SHA256.to_string(),
        data: b"abd".to_vec(),
    };
    let m = verify_outputs(&vec![bad]).unwrap_err();
    assert_eq!(m.filename, "moon");
    assert_eq!(m.expected, ABC_SHA256);
    assert_ne!(m.actual, ABC_SHA256);
    assert_eq!(m.actual, file_digest_hex(&b"abd".to_vec()));
}

#[test]
fn manifest_parsing() {
    let text = format!("{}  moon\n\n  {}  moonrun  \n", ABC_SHA256, ABC_SHA256);
    let entries = parse_sha_manifest(&text).unwrap();
    assert_eq!(entries.len(), 2);
    assert_eq!(entries[0].hash, ABC_SHA256);
    assert_eq!(entries[0].filename, "moon");
    assert_eq!(entries[1].hash, ABC_SHA256);
    assert_eq!(entries[1].filename, "moonrun");

    let bad = parse_sha_manifest("deadbeef moon\n").unwrap_err();
    assert_eq!(bad.line, "deadbeef moon");

    assert!(parse_sha_manifest("").unwrap().is_empty());
    assert!(parse_sha_manifest("\n \n\t\n").unwrap().is_empty());
}

#[test]
fn lines_split_at_newlines() {
    assert_eq!(split_lines("a\nb"), vec!["a".to_string(), "b".to_string()]);
    assert_eq!(split_lines("a\n"), vec!["a".to_string()]);
    assert_eq!(split_lines(""), Vec::<String>::new());
    assert_eq!(split_lines("a\n\nb"), vec!["a".to_string(), "".to_string(), "b".to_string()]);
}

#[test]
fn executable_filter() {
    assert!(can_be_executable(Platform::Unix, "moon", true));
    assert!(!can_be_executable(Platform::Unix, "moon", false));
    assert!(!can_be_executable(Platform::Unix, "libmoon.so", true));
    assert!(!can_be_executable(Platform::Unix, "libmoon.dylib", true));
    assert!(!can_be_executable(Platform::Unix, "moon.dll", true));
    assert!(!can_be_executable(Platform::Windows, "moon", true));
    assert!(can_be_executable(Platform::Windows, "moon.exe", true));
}

#[test]
fn branched_core_directory_detection() {
    let entries = vec![
        file("bin", false, true),
        file("core-main", false, true),
        file("core-other", false, true),
    ];
    assert_eq!(find_branched_core_dir(&entries).unwrap(), "core-main");

    let entries = vec![file("core", false, true), file("core-main", true, false)];
    assert!(find_branched_core_dir(&entries).is_none());
}

#[test]
fn relink_plans_only_missing_links() {
    let entries = vec![
        file("moon", true, false),
        file("moonrun", true, false),
        file("libcore.so", true, false),
        file("docs", false, true),
    ];
    let fs = FsState::new().add("/h/bin/moon".to_string());
    let plan = link_plan(Platform::Unix, "/h/bin", &entries, &fs);
    assert_eq!(plan, vec!["/h/bin/moonrun".to_string()]);
}

#[test]
fn relink_is_idempotent() {
    // Once every plausible executable is linked, re-running the relink
    // step plans no filesystem mutation at all.
    let entries = vec![file("moon", true, false), file("moonrun", true, false)];
    let fs = FsState::new()
        .add("/h/bin/moon".to_string())
        .add("/h/bin/moonrun".to_string());
    let plan = link_plan(Platform::Unix, "/h/bin", &entries, &fs);
    assert!(plan.is_empty());
}

fn expect_action(flow: &InstallFlow) -> InstallAction {
    match flow.action() {
        Some(a) => a,
        None => panic!("the flow should still have an action to run"),
    }
}

#[test]
fn install_flow_runs_to_completion() {
    // End to end: installing channel "1.0.0-linux-x86_64" downloads from
    // the URLs built from that exact text, verifies every
    // manifest-listed file, swaps behind a backup and commits.
    let ch = Channel::parse("1.0.0-linux-x86_64", &host()).unwrap();
    let mut flow = InstallFlow::new(
        &ch,
        "/t/1.0.0-linux-x86_64".to_string(),
        "/t".to_string(),
        true,
        Platform::Unix,
    );

    match expect_action(&flow) {
        InstallAction::CreateDir { path } => assert_eq!(path, "/t/1.0.0-linux-x86_64"),
        other => panic!("unexpected action {:?}", other_name(&other)),
    }
    flow.step(InstallEvent::Done);

    match expect_action(&flow) {
        InstallAction::CreateStaging { parent, prefix } => {
            assert_eq!(parent, "/t");
            assert_eq!(prefix, "lunik-install-1.0.0-linux-x86_64");
        },
        other => panic!("unexpected action {:?}", other_name(&other)),
    }
    flow.step(InstallEvent::Path("/t/stage".to_string()));

    match expect_action(&flow) {
        InstallAction::Download { url, dest, label } => {
            assert_eq!(
                url,
                "https://cli.moonbitlang.com/binaries/1.0.0/moonbit-linux-x86_64.tar.gz"
            );
            assert_eq!(dest, "/t/stage/bin.tar.gz");
            assert_eq!(label, "MoonBit binaries");
        },
        other => panic!("unexpected action {:?}", other_name(&other)),
    }
    flow.step(InstallEvent::Done);

    match expect_action(&flow) {
        InstallAction::Download { url, dest, .. } => {
            assert_eq!(url, "https://cli.moonbitlang.com/cores/core-1.0.0.tar.gz");
            assert_eq!(dest, "/t/stage/core.tar.gz");
        },
        other => panic!("unexpected action {:?}", other_name(&other)),
    }
    flow.step(InstallEvent::Done);

    match expect_action(&flow) {
        InstallAction::Unpack { archive, dest } => {
            assert_eq!(archive, "/t/stage/bin.tar.gz");
            assert_eq!(dest, "/t/stage");
        },
        other => panic!("unexpected action {:?}", other_name(&other)),
    }
    flow.step(InstallEvent::Done);

    match expect_action(&flow) {
        InstallAction::Unpack { archive, dest } => {
            assert_eq!(archive, "/t/stage/core.tar.gz");
            assert_eq!(dest, "/t/stage/lib");
        },
        other => panic!("unexpected action {:?}", other_name(&other)),
    }
    flow.step(InstallEvent::Done);

    // The unpacked library root carries the archive's branch name and is
    // renamed to the expected fixed name.
    match expect_action(&flow) {
        InstallAction::ListDir { path } => assert_eq!(path, "/t/stage/lib"),
        other => panic!("unexpected action {:?}", other_name(&other)),
    }
    flow.step(InstallEvent::Branched(Some("core-main".to_string())));

    match expect_action(&flow) {
        InstallAction::Rename { from, to } => {
            assert_eq!(from, "/t/stage/lib/core-main");
            assert_eq!(to, "/t/stage/lib/core");
        },
        other => panic!("unexpected action {:?}", other_name(&other)),
    }
    flow.step(InstallEvent::Done);

    match expect_action(&flow) {
        InstallAction::FixPermissions { dir } => assert_eq!(dir, "/t/stage/bin"),
        other => panic!("unexpected action {:?}", other_name(&other)),
    }
    flow.step(InstallEvent::Done);

    match expect_action(&flow) {
        InstallAction::FetchManifest { url } => {
            assert_eq!(
                url,
                "https://cli.moonbitlang.com/binaries/1.0.0/moonbit-linux-x86_64.sha256"
            );
        },
        other => panic!("unexpected action {:?}", other_name(&other)),
    }
    let manifest = vec![
        ShaEntry { hash: ABC_SHA256.to_string(), filename: "moon".to_string() },
        ShaEntry { hash: ABC_SHA256.to_string(), filename: "moonrun".to_string() },
    ];
    flow.step(InstallEvent::Manifest(manifest));

    // Every manifest-listed file is read and verified.
    match expect_action(&flow) {
        InstallAction::ReadFile { path } => assert_eq!(path, "/t/stage/bin/moon"),
        other => panic!("unexpected action {:?}", other_name(&other)),
    }
    flow.step(InstallEvent::Data(b"abc".to_vec()));

    match expect_action(&flow) {
        InstallAction::ReadFile { path } => assert_eq!(path, "/t/stage/bin/moonrun"),
        other => panic!("unexpected action {:?}", other_name(&other)),
    }
    flow.step(InstallEvent::Data(b"abc".to_vec()));

    match expect_action(&flow) {
        InstallAction::ProbeExists { path } => {
            assert_eq!(path, "/t/1.0.0-linux-x86_64-backup");
        },
        other => panic!("unexpected action {:?}", other_name(&other)),
    }
    flow.step(InstallEvent::Exists(false));

    match expect_action(&flow) {
        InstallAction::Rename { from, to } => {
            assert_eq!(from, "/t/1.0.0-linux-x86_64");
            assert_eq!(to, "/t/1.0.0-linux-x86_64-backup");
        },
        other => panic!("unexpected action {:?}", other_name(&other)),
    }
    flow.step(InstallEvent::Done);

    match expect_action(&flow) {
        InstallAction::Rename { from, to } => {
            assert_eq!(from, "/t/stage");
            assert_eq!(to, "/t/1.0.0-linux-x86_64");
        },
        other => panic!("unexpected action {:?}", other_name(&other)),
    }
    flow.step(InstallEvent::Done);

    match expect_action(&flow) {
        InstallAction::RelinkExecutables { bin_dir } => {
            assert_eq!(bin_dir, "/t/1.0.0-linux-x86_64/bin");
        },
        other => panic!("unexpected action {:?}", other_name(&other)),
    }
    flow.step(InstallEvent::Done);

    match expect_action(&flow) {
        InstallAction::RunVersionChecks { toolchain } => {
            assert_eq!(toolchain, "1.0.0-linux-x86_64");
        },
        other => panic!("unexpected action {:?}", other_name(&other)),
    }
    flow.step(InstallEvent::Done);

    match expect_action(&flow) {
        InstallAction::BundleCore { toolchain, core_dir } => {
            assert_eq!(toolchain, "1.0.0-linux-x86_64");
            assert_eq!(core_dir, "/t/1.0.0-linux-x86_64/lib/core");
        },
        other => panic!("unexpected action {:?}", other_name(&other)),
    }
    flow.step(InstallEvent::Done);

    match expect_action(&flow) {
        InstallAction::ProbeExists { path } => {
            assert_eq!(path, "/t/1.0.0-linux-x86_64-backup");
        },
        other => panic!("unexpected action {:?}", other_name(&other)),
    }
    flow.step(InstallEvent::Exists(true));

    match expect_action(&flow) {
        InstallAction::RemoveDir { path } => {
            assert_eq!(path, "/t/1.0.0-linux-x86_64-backup");
        },
        other => panic!("unexpected action {:?}", other_name(&other)),
    }
    flow.step(InstallEvent::Done);

    assert!(flow.finished());
    assert!(matches!(flow.stage, InstallStage::Done));
}

fn other_name(a: &InstallAction) -> &'static str {
    match a {
        InstallAction::CreateDir { .. } => "CreateDir",
        InstallAction::CreateStaging { .. } => "CreateStaging",
        InstallAction::Download { .. } => "Download",
        InstallAction::Unpack { .. } => "Unpack",
        InstallAction::ListDir { .. } => "ListDir",
        InstallAction::Rename { .. } => "Rename",
        InstallAction::FixPermissions { .. } => "FixPermissions",
        InstallAction::FetchManifest { .. } => "FetchManifest",
        InstallAction::ReadFile { .. } => "ReadFile",
        InstallAction::RemoveDir { .. } => "RemoveDir",
        InstallAction::ProbeExists { .. } => "ProbeExists",
        InstallAction::RelinkExecutables { .. } => "RelinkExecutables",
        InstallAction::RunVersionChecks { .. } => "RunVersionChecks",
        InstallAction::BundleCore { .. } => "BundleCore",
    }
}

fn flow_after_swap() -> InstallFlow {
    let ch = Channel::parse("1.0.0-linux-x86_64", &host()).unwrap();
    let mut flow = InstallFlow::new(
        &ch,
        "/t/1.0.0-linux-x86_64".to_string(),
        "/t".to_string(),
        false,
        Platform::Unix,
    );
    flow.step(InstallEvent::Done); // target dir created
    flow.step(InstallEvent::Path("/t/stage".to_string()));
    flow.step(InstallEvent::Done); // binaries downloaded
    flow.step(InstallEvent::Done); // core downloaded
    flow.step(InstallEvent::Done); // binaries unpacked
    flow.step(InstallEvent::Done); // core unpacked
    flow.step(InstallEvent::Branched(None));
    flow.step(InstallEvent::Done); // permissions fixed
    flow.step(InstallEvent::Exists(false)); // no stale backup
    flow.step(InstallEvent::Done); // backup made
    flow.step(InstallEvent::Done); // staging swapped into place
    flow
}

#[test]
fn failure_after_swap_rolls_back() {
    // A failure injected after the backup-rename but before the compile
    // step removes the new tree and restores the original directory.
    let mut flow = flow_after_swap();
    assert!(matches!(flow.stage, InstallStage::Relink));

    flow.step(InstallEvent::Failed("injected".to_string()));
    match expect_action(&flow) {
        InstallAction::RemoveDir { path } => assert_eq!(path, "/t/1.0.0-linux-x86_64"),
        other => panic!("unexpected action {:?}", other_name(&other)),
    }
    flow.step(InstallEvent::Done);
    match expect_action(&flow) {
        InstallAction::Rename { from, to } => {
            assert_eq!(from, "/t/1.0.0-linux-x86_64-backup");
            assert_eq!(to, "/t/1.0.0-linux-x86_64");
        },
        other => panic!("unexpected action {:?}", other_name(&other)),
    }
    flow.step(InstallEvent::Done);
    assert!(flow.finished());
    match flow.stage {
        InstallStage::Failed { rolled_back } => assert!(rolled_back),
        _ => panic!("the flow should have failed after rolling back"),
    }
}

#[test]
fn failure_at_compile_rolls_back() {
    let mut flow = flow_after_swap();
    flow.step(InstallEvent::Done); // relinked
    flow.step(InstallEvent::Done); // versions checked
    assert!(matches!(flow.stage, InstallStage::Bundle));
    flow.step(InstallEvent::Failed("compiler failed".to_string()));
    assert!(matches!(flow.stage, InstallStage::RollbackRemoveTarget));
    flow.step(InstallEvent::Done);
    flow.step(InstallEvent::Done);
    match flow.stage {
        InstallStage::Failed { rolled_back } => assert!(rolled_back),
        _ => panic!("the flow should have failed after rolling back"),
    }
}

#[test]
fn failure_before_backup_needs_no_rollback() {
    let ch = Channel::parse("1.0.0-linux-x86_64", &host()).unwrap();
    let mut flow = InstallFlow::new(
        &ch,
        "/t/1.0.0-linux-x86_64".to_string(),
        "/t".to_string(),
        false,
        Platform::Unix,
    );
    flow.step(InstallEvent::Done);
    flow.step(InstallEvent::Path("/t/stage".to_string()));
    flow.step(InstallEvent::Failed("network down".to_string()));
    assert!(flow.finished());
    match flow.stage {
        InstallStage::Failed { rolled_back } => assert!(!rolled_back),
        _ => panic!("the flow should have failed without a rollback"),
    }
    assert!(flow.action().is_none());
}

#[test]
fn checksum_mismatch_aborts_install() {
    let ch = Channel::parse("1.0.0-linux-x86_64", &host()).unwrap();
    let mut flow = InstallFlow::new(
        &ch,
        "/t/1.0.0-linux-x86_64".to_string(),
        "/t".to_string(),
        true,
        Platform::Unix,
    );
    flow.step(InstallEvent::Done);
    flow.step(InstallEvent::Path("/t/stage".to_string()));
    flow.step(InstallEvent::Done);
    flow.step(InstallEvent::Done);
    flow.step(InstallEvent::Done);
    flow.step(InstallEvent::Done);
    flow.step(InstallEvent::Branched(None));
    flow.step(InstallEvent::Done); // permissions
    let manifest = vec![ShaEntry { hash: ABC_SHA256.to_string(), filename: "moon".to_string() }];
    flow.step(InstallEvent::Manifest(manifest));
    flow.step(InstallEvent::Data(b"tampered".to_vec()));
    match flow.stage {
        InstallStage::Failed { rolled_back } => assert!(!rolled_back),
        _ => panic!("a checksum mismatch should abort the installation"),
    }
}
