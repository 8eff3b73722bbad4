//! Built-in tasks: paths with a bare leading colon address the engine
//! itself rather than the configuration.

use vstd::prelude::*;
use vstd::string::*;

use crate::config::{Config, Task};
use crate::task_path::TaskPath;

verus! {

/// The names of the entries of a task table, in order.
pub open spec fn key_views(ts: Seq<(String, Task)>) -> Seq<Seq<char>> {
    ts.map(|i: int, e: (String, Task)| e.0@)
}

/// The task names the listing built-in reports: the listing task itself,
/// then the top-level task names in configuration order.
pub open spec fn spec_task_names(config: Config) -> Seq<Seq<char>> {
    seq![":ls"@] + (match config.tasks {
        Some(ts) => key_views(ts@),
        None => Seq::<Seq<char>>::empty(),
    })
}

/// The names the listing built-in prints, unsorted: `:ls` itself, then the
/// top-level task names in configuration order.
pub fn get_task_names(config: &Config) -> (r: Vec<String>)
    ensures
        r.deep_view() == spec_task_names(*config),
{
    proof {
        reveal_strlit(":ls");
    }
    let mut names: Vec<String> = Vec::new();
    names.push(String::from_str(":ls"));
    match &config.tasks {
        Some(ts) => {
            let mut i: usize = 0;
            while i < ts.len()
                invariant
                    0 <= i <= ts@.len(),
                    names.deep_view() == seq![":ls"@] + key_views(ts@.take(i as int)),
                decreases ts@.len() - i,
            {
                let ghost before = names.deep_view();
                names.push(ts.key_at(i).clone());
                proof {
                    assert(ts@.take(i as int + 1) =~= ts@.take(i as int).push(ts@[i as int]));
                    assert(key_views(ts@.take(i as int + 1)) =~= key_views(
                        ts@.take(i as int),
                    ).push(ts@[i as int].0@));
                    assert(names.deep_view() =~= before.push(ts@[i as int].0@));
                    assert(before.push(ts@[i as int].0@) =~= seq![":ls"@] + key_views(
                        ts@.take(i as int),
                    ).push(ts@[i as int].0@));
                    assert(names.deep_view() =~= seq![":ls"@] + key_views(
                        ts@.take(i as int + 1),
                    ));
                }
                i += 1;
            }
            proof {
                assert(ts@.take(ts@.len() as int) =~= ts@);
                assert(names.deep_view() =~= spec_task_names(*config));
            }
        },
        None => {
            proof {
                assert(names.deep_view() =~= spec_task_names(*config));
            }
        },
    }
    names
}

/// Decide whether the target addresses a built-in task, and whether that
/// built-in exists: only the bare listing task `:ls` does.  The caller
/// prints the listing (`get_task_names`) when the answer is `Some(true)`.
pub fn try_exec_builtin_task(config: &Config, target_task_path: &TaskPath) -> (r: Option<bool>)
    requires
        target_task_path.built_in ==> target_task_path.namespace is None,
    ensures
        r is None <==> !target_task_path.built_in,
        target_task_path.built_in ==> r == Some(
            target_task_path@.name == "ls"@ && target_task_path@.property is None,
        ),
{
    if !target_task_path.built_in {
        return None;
    }
    let known = target_task_path.name.eq(&String::from_str("ls")) && match &target_task_path
        .property {
        Some(_) => false,
        None => true,
    };
    Some(known)
}

} // verus!
