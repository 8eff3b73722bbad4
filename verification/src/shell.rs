//! Resolving a task's shell setting to an optional interpreter path.

use vstd::prelude::*;
use vstd::string::*;

use crate::config::Shell;

verus! {

/// The interpreter a shell setting selects: `true` selects `/bin/sh`,
/// `false` selects none, and an explicit path selects itself.
pub open spec fn spec_resolve(shell: Shell) -> Option<Seq<char>> {
    match shell {
        Shell::Bool(true) => Some("/bin/sh"@),
        Shell::Bool(false) => None,
        Shell::Path(s) => Some(s@),
    }
}

/// Resolve a shell setting to the interpreter to invoke, if any.
pub fn resolve(shell: &Shell) -> (r: Option<String>)
    ensures
        match r {
            Some(s) => spec_resolve(*shell) == Some(s@),
            None => spec_resolve(*shell) is None,
        },
{
    match shell {
        Shell::Bool(true) => Some(String::from_str("/bin/sh")),
        Shell::Bool(false) => None,
        Shell::Path(s) => Some(s.clone()),
    }
}

} // verus!
