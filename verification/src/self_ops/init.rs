//! First-time initialization: which shell configuration file to edit and
//! what to put into it.

use vstd::prelude::*;

use crate::config::{joined, join_path};
use crate::strutil::str_eq;

verus! {

/// How to run the initialization.
#[derive(Debug)]
pub struct InitSubcommand {
    /// Add the binary directory to the PATH without asking.
    pub auto: bool,
    /// Never add the binary directory to the PATH automatically.
    pub no_auto: bool,
    /// The shell to configure; detected when not given.
    pub shell: Option<String>,
}

/// A shell whose configuration file the initialization can edit.
#[derive(Debug, Clone, Copy, PartialEq, Eq, Structural)]
pub enum Shell {
    Bash,
    Zsh,
    Fish,
}

/// Recognizes a shell by its name.
pub fn to_shell(s: &str) -> (r: Option<Shell>)
    ensures
        match r {
            Some(sh) => (s@ == "bash"@ && sh is Bash) || (s@ == "zsh"@ && sh is Zsh) || (s@
                == "fish"@ && sh is Fish),
            None => s@ != "bash"@ && s@ != "zsh"@ && s@ != "fish"@,
        },
{
    if str_eq(s, "bash") {
        Some(Shell::Bash)
    } else if str_eq(s, "zsh") {
        Some(Shell::Zsh)
    } else if str_eq(s, "fish") {
        Some(Shell::Fish)
    } else {
        None
    }
}

/// The configuration file of a shell, under the home directory.
pub fn shell_rc_path(shell: Shell, home: &str) -> (r: String)
    ensures
        match shell {
            Shell::Bash => r@ == joined(home@, ".bashrc"@),
            Shell::Zsh => r@ == joined(home@, ".zshrc"@),
            Shell::Fish => r@ == joined(home@, ".config/fish/config.fish"@),
        },
{
    match shell {
        Shell::Bash => join_path(home, ".bashrc"),
        Shell::Zsh => join_path(home, ".zshrc"),
        Shell::Fish => join_path(home, ".config/fish/config.fish"),
    }
}

/// The line that puts a directory on the PATH, in the shell's own
/// syntax.
pub fn shell_rc_content(shell: Shell, path: &str) -> (r: String)
    ensures
        match shell {
            Shell::Bash | Shell::Zsh => r@ == "export PATH=\""@ + path@ + ":$PATH\"\n"@,
            Shell::Fish => r@ == "set -gx PATH "@ + path@ + " $PATH\n"@,
        },
{
    match shell {
        Shell::Bash | Shell::Zsh => {
            let mut out = "export PATH=\"".to_owned();
            out.append(path);
            out.append(":$PATH\"\n");
            proof {
                assert(out@ =~= "export PATH=\""@ + path@ + ":$PATH\"\n"@);
            }
            out
        },
        Shell::Fish => {
            let mut out = "set -gx PATH ".to_owned();
            out.append(path);
            out.append(" $PATH\n");
            proof {
                assert(out@ =~= "set -gx PATH "@ + path@ + " $PATH\n"@);
            }
            out
        },
    }
}

/// Whether initialization edits the shell configuration by itself: only
/// when the shell is known, and then when it was requested outright or
/// the user agreed after neither flag was given.
pub fn should_auto_edit(auto: bool, no_auto: bool, shell_known: bool, user_agrees: bool) -> (r:
    bool)
    ensures
        r == (shell_known && (auto || (!no_auto && user_agrees))),
{
    shell_known && (auto || (!no_auto && user_agrees))
}

} // verus!
