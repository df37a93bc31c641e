//! The multiplexer's own subcommands: the data they carry and the pure
//! decisions behind them.  Argument parsing, prompting and the
//! filesystem work stay in the surrounding binary.

pub mod channel;
pub mod init;

use vstd::prelude::*;

use crate::config::joined;

verus! {

/// The symlink paths a `link` command creates: the given path itself,
/// or each binary name under it when binaries are given.
pub fn link_targets(path: &str, binaries: &Vec<String>) -> (r: Vec<String>)
    ensures
        binaries@.len() == 0 ==> r@.len() == 1 && r@[0]@ == path@,
        binaries@.len() > 0 ==> r@.len() == binaries@.len() && forall|i: int|
            0 <= i < r@.len() ==> (#[trigger] r@[i])@ == joined(path@, binaries@[i]@),
{
    if binaries.len() == 0 {
        let mut out: Vec<String> = Vec::new();
        out.push(path.to_owned());
        out
    } else {
        let n = binaries.len();
        let mut out: Vec<String> = Vec::new();
        let mut i: usize = 0;
        while i < n
            invariant
                0 <= i <= n,
                n == binaries@.len(),
                out@.len() == i,
                forall|j: int| 0 <= j < i ==> (#[trigger] out@[j])@ == joined(path@, binaries@[j]@),
            decreases n - i,
        {
            out.push(crate::config::join_path(path, binaries[i].as_str()));
            i += 1;
        }
        out
    }
}

} // verus!
