use lunik::self_ops::init::{shell_rc_content, shell_rc_path, should_auto_edit, to_shell, Shell};
use lunik::self_ops::link_targets;

#[test]
fn shell_recognition() {
    assert_eq!(to_shell("bash"), Some(Shell::Bash));
    assert_eq!(to_shell("zsh"), Some(Shell::Zsh));
    assert_eq!(to_shell("fish"), Some(Shell::Fish));
    assert_eq!(to_shell("powershell"), None);
}

#[test]
fn shell_rc_locations() {
    assert_eq!(shell_rc_path(Shell::Bash, "/home/u"), "/home/u/.bashrc");
    assert_eq!(shell_rc_path(Shell::Zsh, "/home/u"), "/home/u/.zshrc");
    assert_eq!(shell_rc_path(Shell::Fish, "/home/u"), "/home/u/.config/fish/config.fish");
}

#[test]
fn shell_rc_lines() {
    assert_eq!(
        shell_rc_content(Shell::Bash, "/home/u/.moon/bin"),
        "export PATH=\"/home/u/.moon/bin:$PATH\"\n"
    );
    assert_eq!(
        shell_rc_content(Shell::Zsh, "/home/u/.moon/bin"),
        "export PATH=\"/home/u/.moon/bin:$PATH\"\n"
    );
    assert_eq!(
        shell_rc_content(Shell::Fish, "/home/u/.moon/bin"),
        "set -gx PATH /home/u/.moon/bin $PATH\n"
    );
}

#[test]
fn auto_edit_decision() {
    assert!(should_auto_edit(true, false, true, false));
    assert!(should_auto_edit(false, false, true, true));
    assert!(!should_auto_edit(false, false, true, false));
    assert!(!should_auto_edit(false, true, true, true));
    assert!(!should_auto_edit(true, false, false, true));
}

#[test]
fn link_target_paths() {
    let none: Vec<String> = Vec::new();
    assert_eq!(link_targets("/usr/local/bin/moon", &none), vec![
        "/usr/local/bin/moon".to_string()
    ]);
    let bins = vec!["moon".to_string(), "moonrun".to_string()];
    assert_eq!(link_targets("/usr/local/bin", &bins), vec![
        "/usr/local/bin/moon".to_string(),
        "/usr/local/bin/moonrun".to_string()
    ]);
}
